//! Recurrence expressions as text: fields separated by single spaces.

use vstd::prelude::*;
use vstd::string::*;

verus! {

/// The views of a list of strings, in order.
pub open spec fn texts(items: Seq<String>) -> Seq<Seq<char>> {
    items.map_values(|s: String| s@)
}

/// Whether `field` is free of the separator.
pub open spec fn spaceless(field: Seq<char>) -> bool {
    forall|i: int| 0 <= i < field.len() ==> field[i] != ' '
}

/// The fields of `text`: what stands between its spaces, from left to right.
/// A text without a space is one field; each space starts another, so two
/// spaces in a row enclose an empty field.
pub open spec fn fields_of(text: Seq<char>) -> Seq<Seq<char>>
    decreases text.len(),
{
    if text.len() == 0 {
        seq![Seq::<char>::empty()]
    } else {
        let before = fields_of(text.drop_last());
        if text.last() == ' ' {
            before.push(Seq::<char>::empty())
        } else {
            before.update(before.len() - 1, before.last().push(text.last()))
        }
    }
}

/// `fields` written out with one space between neighbours.
pub open spec fn joined(fields: Seq<Seq<char>>) -> Seq<char>
    decreases fields.len(),
{
    if fields.len() == 0 {
        Seq::<char>::empty()
    } else if fields.len() == 1 {
        fields[0]
    } else {
        joined(fields.drop_last()) + seq![' '] + fields.last()
    }
}

/// Splits `text` at every space.
pub fn split_fields(text: &str) -> (fields: Vec<String>)
    ensures
        texts(fields@) == fields_of(text@),
{
    let n: usize = text.unicode_len();
    let mut fields: Vec<String> = Vec::new();
    let mut start: usize = 0;
    let mut i: usize = 0;
    proof {
        assert(text@.take(0).len() == 0);
        assert(text@.subrange(0, 0) == Seq::<char>::empty());
        assert(texts(fields@).push(Seq::<char>::empty()) == seq![Seq::<char>::empty()]);
    }
    while i < n
        invariant
            n == text@.len(),
            start <= i <= n,
            spaceless(text@.subrange(start as int, i as int)),
            fields_of(text@.take(i as int)) == texts(fields@).push(
                text@.subrange(start as int, i as int),
            ),
        decreases n - i,
    {
        let c: char = text.get_char(i);
        proof {
            let prefix = text@.take(i + 1);
            assert(prefix.drop_last() == text@.take(i as int));
            assert(prefix.last() == c);
        }
        if c == ' ' {
            let field: String = String::from_str(text.substring_char(start, i));
            proof {
                assert(texts(fields@.push(field)) == texts(fields@).push(field@));
                assert(text@.subrange(i + 1, i + 1) == Seq::<char>::empty());
            }
            fields.push(field);
            start = i + 1;
        } else {
            proof {
                assert(text@.subrange(start as int, i + 1) == text@.subrange(
                    start as int,
                    i as int,
                ).push(c));
            }
        }
        i = i + 1;
    }
    let field: String = String::from_str(text.substring_char(start, n));
    proof {
        assert(text@.take(n as int) == text@);
        assert(texts(fields@.push(field)) == texts(fields@).push(field@));
    }
    fields.push(field);
    fields
}

/// Writes `fields` out with one space between neighbours.
pub fn join_fields(fields: &Vec<String>) -> (text: String)
    ensures
        text@ == joined(texts(fields@)),
{
    let mut text: String = String::new();
    let mut i: usize = 0;
    while i < fields.len()
        invariant
            i <= fields.len(),
            text@ == joined(texts(fields@).take(i as int)),
        decreases fields.len() - i,
    {
        proof {
            let upto = texts(fields@).take(i + 1);
            assert(upto.drop_last() == texts(fields@).take(i as int));
            assert(upto.last() == fields@[i as int]@);
            reveal_strlit(" ");
            assert(" "@ == seq![' ']);
        }
        if i > 0 {
            text.append(" ");
        }
        text.append(fields[i].as_str());
        i = i + 1;
    }
    proof {
        assert(texts(fields@).take(fields.len() as int) == texts(fields@));
    }
    text
}

/// `text` with its field at `position` replaced by `value`.
pub open spec fn spliced(text: Seq<char>, position: int, value: Seq<char>) -> Seq<char> {
    joined(fields_of(text).update(position, value))
}

/// The decimal digit for `d`, for `d` below ten.
pub open spec fn digit(d: nat) -> char {
    seq!['0', '1', '2', '3', '4', '5', '6', '7', '8', '9'][d as int]
}

/// `n` in decimal, without sign or leading zeros.
pub open spec fn decimal(n: nat) -> Seq<char>
    decreases n,
{
    if n < 10 {
        seq![digit(n)]
    } else {
        decimal(n / 10).push(digit(n % 10))
    }
}

/// The field that fires at every tick of its unit: `*`.
pub open spec fn every_tick() -> Seq<char> {
    seq!['*']
}

/// The field that fires at every `n`th tick of its unit: `*/n`.
pub open spec fn every_nth(n: nat) -> Seq<char> {
    seq!['*', '/'] + decimal(n)
}

/// The numeral for one decimal digit.
fn digit_text(d: u8) -> (text: &'static str)
    requires
        d < 10,
    ensures
        text@ == seq![digit(d as nat)],
{
    proof {
        reveal_strlit("0");
        reveal_strlit("1");
        reveal_strlit("2");
        reveal_strlit("3");
        reveal_strlit("4");
        reveal_strlit("5");
        reveal_strlit("6");
        reveal_strlit("7");
        reveal_strlit("8");
        reveal_strlit("9");
    }
    let text: &'static str = match d {
        0 => "0",
        1 => "1",
        2 => "2",
        3 => "3",
        4 => "4",
        5 => "5",
        6 => "6",
        7 => "7",
        8 => "8",
        _ => "9",
    };
    assert(text@ =~= seq![digit(d as nat)]);
    text
}

/// Writes `n` in decimal.
pub fn decimal_text(n: u8) -> (text: String)
    ensures
        text@ == decimal(n as nat),
{
    let mut text: String = String::new();
    if n >= 100 {
        text.append(digit_text(n / 100));
    }
    if n >= 10 {
        text.append(digit_text((n / 10) % 10));
    }
    text.append(digit_text(n % 10));
    proof {
        reveal_with_fuel(decimal, 3);
        assert(text@ =~= decimal(n as nat));
    }
    text
}

/// Writes the field `*`.
pub fn every_tick_text() -> (text: String)
    ensures
        text@ == every_tick(),
{
    proof {
        reveal_strlit("*");
    }
    let text: String = String::from_str("*");
    assert(text@ =~= every_tick());
    text
}

/// Writes the field `*/n`.
pub fn every_nth_text(n: u8) -> (text: String)
    ensures
        text@ == every_nth(n as nat),
{
    proof {
        reveal_strlit("*/");
    }
    let mut text: String = String::from_str("*/");
    assert(text@ =~= seq!['*', '/']);
    let numeral: String = decimal_text(n);
    text.append(numeral.as_str());
    text
}

/// Every text has at least one field, and no field holds a space.
pub proof fn lemma_fields_spaceless(text: Seq<char>)
    ensures
        fields_of(text).len() >= 1,
        forall|k: int| 0 <= k < fields_of(text).len() ==> spaceless(#[trigger] fields_of(text)[k]),
    decreases text.len(),
{
    if text.len() > 0 {
        lemma_fields_spaceless(text.drop_last());
    }
}

/// Appending a spaceless run to a text extends its last field by that run.
pub proof fn lemma_fields_extend(text: Seq<char>, run: Seq<char>)
    requires
        spaceless(run),
    ensures
        fields_of(text).len() >= 1,
        fields_of(text + run) == fields_of(text).update(
            fields_of(text).len() - 1,
            fields_of(text).last() + run,
        ),
    decreases run.len(),
{
    lemma_fields_spaceless(text);
    let fields = fields_of(text);
    if run.len() == 0 {
        assert(text + run == text);
        assert(fields.last() + run == fields.last());
        assert(fields.update(fields.len() - 1, fields.last()) == fields);
    } else {
        let shorter = run.drop_last();
        assert(spaceless(shorter)) by {
            assert forall|i: int| 0 <= i < shorter.len() implies shorter[i] != ' ' by {
                assert(shorter[i] == run[i]);
            }
        }
        lemma_fields_extend(text, shorter);
        assert((text + run).drop_last() == text + shorter);
        assert((text + run).last() == run.last());
        assert(run.last() == run[run.len() - 1]);
        assert((fields.last() + shorter).push(run.last()) == fields.last() + run);
        assert(fields.update(fields.len() - 1, fields.last() + shorter).update(
            fields.len() - 1,
            fields.last() + run,
        ) == fields.update(fields.len() - 1, fields.last() + run));
    }
}

/// Extending the last field of a list extends what the list joins to.
pub proof fn lemma_joined_extend(fields: Seq<Seq<char>>, run: Seq<char>)
    requires
        fields.len() >= 1,
    ensures
        joined(fields.update(fields.len() - 1, fields.last() + run)) == joined(fields) + run,
{
    let longer = fields.update(fields.len() - 1, fields.last() + run);
    if fields.len() > 1 {
        assert(longer.drop_last() == fields.drop_last());
        assert(joined(fields.drop_last()) + seq![' '] + (fields.last() + run) == joined(
            fields.drop_last(),
        ) + seq![' '] + fields.last() + run);
    }
}

/// Splitting what was joined gives the fields back, where no field holds a space.
pub proof fn lemma_fields_of_joined(fields: Seq<Seq<char>>)
    requires
        fields.len() >= 1,
        forall|k: int| 0 <= k < fields.len() ==> spaceless(#[trigger] fields[k]),
    ensures
        fields_of(joined(fields)) == fields,
    decreases fields.len(),
{
    let none = Seq::<char>::empty();
    if fields.len() == 1 {
        lemma_fields_extend(none, fields[0]);
        assert(none + fields[0] == fields[0]);
        assert(fields_of(none) == seq![none]);
        assert(seq![none].update(0, none + fields[0]) == fields);
    } else {
        let front = fields.drop_last();
        assert forall|k: int| 0 <= k < front.len() implies spaceless(#[trigger] front[k]) by {
            assert(front[k] == fields[k]);
        }
        lemma_fields_of_joined(front);
        let spaced = joined(front) + seq![' '];
        assert(spaced.drop_last() == joined(front));
        assert(spaced.last() == ' ');
        assert(fields_of(spaced) == front.push(none));
        lemma_fields_extend(spaced, fields.last());
        assert(none + fields.last() == fields.last());
        assert(front.push(none).update(front.len() as int, fields.last()) == fields);
    }
}

/// Joining the fields of a text gives the text back.
pub proof fn lemma_joined_fields_of(text: Seq<char>)
    ensures
        joined(fields_of(text)) == text,
    decreases text.len(),
{
    if text.len() > 0 {
        let front = text.drop_last();
        let before = fields_of(front);
        lemma_joined_fields_of(front);
        lemma_fields_spaceless(front);
        if text.last() == ' ' {
            let after = before.push(Seq::<char>::empty());
            assert(after.drop_last() == before);
            assert(front + seq![' '] + Seq::<char>::empty() == text);
        } else {
            lemma_joined_extend(before, seq![text.last()]);
            assert(before.last().push(text.last()) == before.last() + seq![text.last()]);
            assert(front + seq![text.last()] == text);
        }
    }
}

/// Replacing one field by a spaceless value changes that field and no other.
pub proof fn lemma_fields_of_spliced(text: Seq<char>, position: int, value: Seq<char>)
    requires
        0 <= position < fields_of(text).len(),
        spaceless(value),
    ensures
        fields_of(spliced(text, position, value)) == fields_of(text).update(position, value),
{
    lemma_fields_spaceless(text);
    lemma_fields_of_joined(fields_of(text).update(position, value));
}

/// No decimal numeral holds a space.
pub proof fn lemma_decimal_spaceless(n: nat)
    ensures
        spaceless(decimal(n)),
        decimal(n).len() >= 1,
    decreases n,
{
    if n >= 10 {
        lemma_decimal_spaceless(n / 10);
    }
}

/// Neither `*` nor `*/n` holds a space.
pub proof fn lemma_every_spaceless(n: nat)
    ensures
        spaceless(every_tick()),
        spaceless(every_nth(n)),
{
    lemma_decimal_spaceless(n);
    assert forall|i: int| 0 <= i < every_nth(n).len() implies every_nth(n)[i] != ' ' by {
        if i >= 2 {
            assert(every_nth(n)[i] == decimal(n)[i - 2]);
        }
    }
}

} // verus!

//! What holds of every job, whatever is done to it and in which order.

use crate::options::{Dispatch, OptionsView, Skip};
use crate::recurrence::cron_accepts;
use crate::schedule::{configured, ConfigError, ScheduleView};
use crate::timing::{in_window, next_fire};
use crate::text::{
    every_nth, fields_of, lemma_every_spaceless, lemma_fields_of_spliced, lemma_fields_spaceless,
    lemma_joined_fields_of, spaceless, spliced,
};
use vstd::prelude::*;

verus! {

/// One thing that happens to a job's control state.
pub enum Event {
    /// A tick: what the job's predicate said, and whether the recurrence is due.
    Tick { deferred: bool, due: bool },
    /// The skip predicate is set.
    Skip(Skip),
    /// The immediate run is asked for, or called off.
    Immediate(bool),
    /// Overlapping runs are forbidden.
    WithoutOverlapping,
    /// A guarded action has completed.
    Release,
}

impl OptionsView {
    /// The state after `event`, and what the tick loop is to do.
    pub open spec fn on(self, event: Event) -> (OptionsView, Dispatch) {
        match event {
            Event::Tick { deferred, due } => self.step(self.skip.outcome(deferred), due),
            Event::Skip(skip) => (OptionsView { skip, ..self }, Dispatch::Idle),
            Event::Immediate(immediate) => (OptionsView { immediate, ..self }, Dispatch::Idle),
            Event::WithoutOverlapping => (
                OptionsView { without_overlapping: true, ..self },
                Dispatch::Idle,
            ),
            Event::Release => (self.released(), Dispatch::Idle),
        }
    }

    /// The state after all of `events`, in order.
    pub open spec fn after(self, events: Seq<Event>) -> OptionsView
        decreases events.len(),
    {
        if events.len() == 0 {
            self
        } else {
            self.after(events.drop_last()).on(events.last()).0
        }
    }

    /// What event number `k` of `events` asks the tick loop to do.
    pub open spec fn dispatch_at(self, events: Seq<Event>, k: int) -> Dispatch {
        self.after(events.take(k)).on(events[k]).1
    }
}

/// Whether `event` is a tick at which the job in state `state` is skipped.
pub open spec fn skipped(state: OptionsView, event: Event) -> bool {
    event matches Event::Tick { deferred, .. } && state.skip.outcome(deferred)
}

/// A job is locked only while it refuses to overlap, whatever happens to it.
pub proof fn law_lock_belongs_to_overlap_guard(state: OptionsView, events: Seq<Event>)
    requires
        state.consistent(),
    ensures
        state.after(events).consistent(),
    decreases events.len(),
{
    if events.len() > 0 {
        law_lock_belongs_to_overlap_guard(state, events.drop_last());
    }
}

/// A job that is skipped at every tick is never started, whether its
/// recurrence is due or an immediate run is owed.
pub proof fn law_skipped_job_never_starts(state: OptionsView, events: Seq<Event>)
    requires
        forall|k: int|
            0 <= k < events.len() && events[k] is Tick ==> skipped(
                state.after(events.take(k)),
                #[trigger] events[k],
            ),
    ensures
        forall|k: int| 0 <= k < events.len() ==> !(#[trigger] state.dispatch_at(events, k)).starts(),
{
    assert forall|k: int| 0 <= k < events.len() implies !(#[trigger] state.dispatch_at(
        events,
        k,
    )).starts() by {
        if events[k] is Tick {
            assert(skipped(state.after(events.take(k)), events[k]));
        }
    }
}

/// A tick at which the job is skipped leaves its state as it is: the
/// immediate run stays owed, the lock stays where it was.
pub proof fn law_skipped_tick_changes_nothing(state: OptionsView, deferred: bool, due: bool)
    requires
        state.skip.outcome(deferred),
    ensures
        state.on(Event::Tick { deferred, due }) == (state, Dispatch::Idle),
{
}

/// A job that owes its immediate run and is not skipped is started at the
/// very next tick, whether or not its recurrence is due, and owes nothing
/// after that.
pub proof fn law_immediate_run_comes_first(state: OptionsView, deferred: bool, due: bool)
    requires
        state.owes_immediate(),
        !state.skip.outcome(deferred),
    ensures
        state.on(Event::Tick { deferred, due }).1 == Dispatch::Immediate,
        state.on(Event::Tick { deferred, due }).0 == (OptionsView {
            immediate_triggered: true,
            ..state
        }),
        !state.on(Event::Tick { deferred, due }).0.owes_immediate(),
{
}

/// Once the immediate run has happened, nothing brings it back.
pub proof fn law_immediate_latch_holds(state: OptionsView, events: Seq<Event>)
    requires
        state.immediate_triggered,
    ensures
        state.after(events).immediate_triggered,
        forall|k: int|
            0 <= k < events.len() ==> #[trigger] state.dispatch_at(events, k)
                != Dispatch::Immediate,
    decreases events.len(),
{
    if events.len() > 0 {
        law_immediate_latch_holds(state, events.drop_last());
    }
    assert forall|k: int| 0 <= k < events.len() implies #[trigger] state.dispatch_at(events, k)
        != Dispatch::Immediate by {
        law_immediate_latch_holds(state, events.take(k));
    }
}

/// Over the whole life of a job the immediate run happens at most once.
pub proof fn law_immediate_run_at_most_once(state: OptionsView, events: Seq<Event>, j: int, k: int)
    requires
        0 <= j < k < events.len(),
        state.dispatch_at(events, j) == Dispatch::Immediate,
    ensures
        state.dispatch_at(events, k) != Dispatch::Immediate,
{
    let fired = state.after(events.take(j + 1));
    assert(events.take(j + 1).drop_last() == events.take(j));
    assert(events.take(j + 1).last() == events[j]);
    assert(fired.immediate_triggered);
    let later = events.subrange(j + 1, events.len() as int);
    lemma_after_splits(state, events, j + 1);
    law_immediate_latch_holds(fired, later);
    assert(later[k - j - 1] == events[k]);
    lemma_after_splits(state, events.take(k), j + 1);
    assert(events.take(k).take(j + 1) == events.take(j + 1));
    assert(events.take(k).subrange(j + 1, k) == later.take(k - j - 1));
    assert(fired.dispatch_at(later, k - j - 1) == state.dispatch_at(events, k));
}

/// Running `events` is running its first `cut` events and then the rest.
pub proof fn lemma_after_splits(state: OptionsView, events: Seq<Event>, cut: int)
    requires
        0 <= cut <= events.len(),
    ensures
        state.after(events) == state.after(events.take(cut)).after(
            events.subrange(cut, events.len() as int),
        ),
    decreases events.len(),
{
    let rest = events.subrange(cut, events.len() as int);
    if cut == events.len() {
        assert(events.take(cut) == events);
        assert(rest.len() == 0);
    } else {
        lemma_after_splits(state, events.drop_last(), cut);
        assert(events.drop_last().take(cut) == events.take(cut));
        assert(events.drop_last().subrange(cut, events.len() - 1) == rest.drop_last());
        assert(rest.last() == events.last());
    }
}

/// While a guarded action is going — the job is locked and no release has
/// come — the recurrence starts no second one, and the lock stays.
pub proof fn law_locked_job_does_not_overlap(state: OptionsView, events: Seq<Event>)
    requires
        state.locked,
        forall|k: int| 0 <= k < events.len() ==> !(#[trigger] events[k] is Release),
    ensures
        state.after(events).locked,
        forall|k: int|
            0 <= k < events.len() ==> {
                let dispatch = #[trigger] state.dispatch_at(events, k);
                dispatch != Dispatch::Due && dispatch != Dispatch::Guarded
            },
    decreases events.len(),
{
    if events.len() > 0 {
        let shorter = events.drop_last();
        assert(!(events[events.len() - 1] is Release));
        assert forall|k: int| 0 <= k < shorter.len() implies !(#[trigger] shorter[k] is Release) by {
            assert(shorter[k] == events[k]);
        }
        law_locked_job_does_not_overlap(state, shorter);
    }
    assert forall|k: int| 0 <= k < events.len() implies {
        let dispatch = #[trigger] state.dispatch_at(events, k);
        dispatch != Dispatch::Due && dispatch != Dispatch::Guarded
    } by {
        let earlier = events.take(k);
        assert forall|i: int| 0 <= i < earlier.len() implies !(#[trigger] earlier[i] is Release) by {
            assert(earlier[i] == events[i]);
        }
        law_locked_job_does_not_overlap(state, earlier);
        assert(!(events[k] is Release));
    }
}

/// When the guarded action has completed the lock is gone, and the next tick
/// at which the recurrence is due starts the job again and takes the lock.
pub proof fn law_release_lets_the_next_due_tick_start(state: OptionsView, deferred: bool)
    requires
        state.consistent(),
        state.locked,
        !state.owes_immediate(),
        !state.skip.outcome(deferred),
    ensures
        !state.on(Event::Release).0.locked,
        state.on(Event::Release).0.on(Event::Tick { deferred, due: true }).1 == Dispatch::Guarded,
        state.on(Event::Release).0.on(Event::Tick { deferred, due: true }).0.locked,
{
}

/// A tick at which the recurrence is not due starts nothing but an owed
/// immediate run.
pub proof fn law_only_due_ticks_start_recurrent_runs(state: OptionsView, deferred: bool)
    ensures
        ({
            let dispatch = state.on(Event::Tick { deferred, due: false }).1;
            dispatch == Dispatch::Idle || dispatch == Dispatch::Immediate
        }),
{
}

/// The windows of two ticks that lie at least one window apart share no
/// instant: what is due at one tick is not due again at the other.
pub proof fn law_windows_do_not_overlap(fire: Option<i64>, date: int, later: int, window: int)
    requires
        date + window <= later,
    ensures
        !(in_window(fire, date, window) && in_window(fire, later, window)),
{
}

/// Ticks that follow one another at the distance of the window miss no
/// instant: what fires after the window of one tick and not after the next
/// tick is due at the next tick.
pub proof fn law_windows_leave_no_gap(instant: i64, date: int, window: int)
    requires
        date < instant <= date + window,
    ensures
        in_window(Some(instant), date + window, window),
{
}

/// Replacing one field by a value without a space changes that field and no
/// other, and keeps the number of fields. With `*/n` on the seconds: the
/// first field reads `*/n`, the rest is as before.
pub proof fn law_splice_replaces_one_field(expression: Seq<char>, position: int, value: Seq<char>)
    requires
        0 <= position < fields_of(expression).len(),
        spaceless(value),
    ensures
        fields_of(spliced(expression, position, value)).len() == fields_of(expression).len(),
        fields_of(spliced(expression, position, value))[position] == value,
        forall|k: int|
            0 <= k < fields_of(expression).len() && k != position ==> fields_of(
                spliced(expression, position, value),
            )[k] == fields_of(expression)[k],
{
    lemma_fields_of_spliced(expression, position, value);
}

/// Where `every_seconds(n)` succeeds, the new expression has as many fields
/// as the old one, its first field is `*/n`, and every other field is as it
/// was.
pub proof fn law_every_seconds_sets_the_first_field(expression: Seq<char>, n: nat)
    ensures
        configured(expression, 0, every_nth(n)) matches Ok(set) ==> {
            &&& fields_of(set).len() == fields_of(expression).len()
            &&& fields_of(set)[0] == every_nth(n)
            &&& forall|k: int|
                1 <= k < fields_of(expression).len() ==> fields_of(set)[k] == fields_of(
                    expression,
                )[k]
        },
{
    lemma_fields_spaceless(expression);
    lemma_every_spaceless(n);
    law_splice_replaces_one_field(expression, 0, every_nth(n));
}

/// Replacing a field twice by the same value is replacing it once: the second
/// call succeeds and leaves the expression as the first one made it.
pub proof fn law_splice_is_idempotent(expression: Seq<char>, position: int, value: Seq<char>)
    requires
        0 <= position,
        spaceless(value),
    ensures
        configured(expression, position, value) matches Ok(set) ==> configured(
            set,
            position,
            value,
        ) == Ok::<Seq<char>, ConfigError>(set),
{
    if configured(expression, position, value) is Ok {
        let set = spliced(expression, position, value);
        lemma_fields_of_spliced(expression, position, value);
        assert(fields_of(set).update(position, value) == fields_of(set));
        assert(spliced(set, position, value) == set);
    }
}

/// `every_seconds(n)` twice in a row comes to the same as once.
pub proof fn law_every_seconds_is_idempotent(expression: Seq<char>, n: nat)
    ensures
        configured(expression, 0, every_nth(n)) matches Ok(set) ==> configured(
            set,
            0,
            every_nth(n),
        ) == Ok::<Seq<char>, ConfigError>(set),
{
    lemma_every_spaceless(n);
    law_splice_is_idempotent(expression, 0, every_nth(n));
}

/// Of two replacements of the same field the last one wins.
pub proof fn law_last_splice_wins(
    expression: Seq<char>,
    position: int,
    first: Seq<char>,
    second: Seq<char>,
)
    requires
        0 <= position < fields_of(expression).len(),
        spaceless(first),
    ensures
        spliced(spliced(expression, position, first), position, second) == spliced(
            expression,
            position,
            second,
        ),
{
    lemma_fields_of_spliced(expression, position, first);
    assert(fields_of(expression).update(position, first).update(position, second) == fields_of(
        expression,
    ).update(position, second));
}

/// Replacements of different fields may come in either order.
pub proof fn law_splices_of_different_fields_commute(
    expression: Seq<char>,
    one: int,
    value: Seq<char>,
    other: int,
    other_value: Seq<char>,
)
    requires
        0 <= one < fields_of(expression).len(),
        0 <= other < fields_of(expression).len(),
        one != other,
        spaceless(value),
        spaceless(other_value),
    ensures
        spliced(spliced(expression, one, value), other, other_value) == spliced(
            spliced(expression, other, other_value),
            one,
            value,
        ),
{
    lemma_fields_of_spliced(expression, one, value);
    lemma_fields_of_spliced(expression, other, other_value);
    assert(fields_of(expression).update(one, value).update(other, other_value) == fields_of(
        expression,
    ).update(other, other_value).update(one, value));
}

/// Replacing a field by what it already holds changes nothing.
pub proof fn law_splice_of_same_value_keeps_expression(expression: Seq<char>, position: int)
    requires
        0 <= position < fields_of(expression).len(),
    ensures
        spliced(expression, position, fields_of(expression)[position]) == expression,
{
    lemma_joined_fields_of(expression);
    assert(fields_of(expression).update(position, fields_of(expression)[position]) == fields_of(
        expression,
    ));
}

/// A job whose expression was set by `cron` holds that very text, and so fires
/// when the text says: reading the expression back gives a text with the same
/// next fire instant after every instant.
pub proof fn law_cron_round_trip(before: ScheduleView, expression: Seq<char>, set: ScheduleView)
    requires
        set == (ScheduleView { expression, ..before }),
    ensures
        set.expression == expression,
        forall|after: int| next_fire(set.expression, after) == next_fire(expression, after),
        cron_accepts(set.expression) == cron_accepts(expression),
{
}

} // verus!

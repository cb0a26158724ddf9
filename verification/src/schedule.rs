//! A job: its recurrence expression, its action and its control state.

use crate::options::{Dispatch, OptionsView, ScheduleOptions, Skip};
use crate::recurrence::{cron_accepts, parse_expression};
use crate::text::{
    fields_of, join_fields, joined, lemma_fields_of_joined, spliced, split_fields, texts,
};
use crate::timing::{due, is_due};
use vstd::prelude::*;
use vstd::string::*;

verus! {

/// The expression of a job that was never configured: every minute, at
/// second 0.
pub open spec fn default_expression() -> Seq<char> {
    "0 * * * * *"@
}

/// The default expression has six fields: second 0 of every minute, hour,
/// day of the month, month and day of the week.
pub proof fn lemma_default_fields()
    ensures
        fields_of(default_expression()) == seq![
            seq!['0'],
            seq!['*'],
            seq!['*'],
            seq!['*'],
            seq!['*'],
            seq!['*'],
        ],
{
    reveal_strlit("0 * * * * *");
    let fields = seq![seq!['0'], seq!['*'], seq!['*'], seq!['*'], seq!['*'], seq!['*']];
    assert(joined(fields) =~= default_expression()) by {
        reveal_with_fuel(joined, 7);
    }
    lemma_fields_of_joined(fields);
}

/// An expression that a job may hold: the default, or one that the `cron`
/// grammar accepts.
pub open spec fn valid_expression(expression: Seq<char>) -> bool {
    expression == default_expression() || cron_accepts(expression)
}

/// Why a configuration call was refused.
#[derive(Clone, Copy, Debug, PartialEq, Eq, Structural)]
pub enum ConfigError {
    /// The `cron` grammar rejects the expression.
    InvalidExpression,
    /// The expression has no field at the position to replace.
    MissingField,
}

impl ConfigError {
    /// The refusal in words.
    pub open spec fn description(self) -> Seq<char> {
        match self {
            ConfigError::InvalidExpression => "the expression is not a valid cron expression"@,
            ConfigError::MissingField => "the expression has no field at that position"@,
        }
    }

    /// The refusal in words.
    pub fn describe(&self) -> (text: &'static str)
        ensures
            text@ == self.description(),
    {
        match self {
            ConfigError::InvalidExpression => "the expression is not a valid cron expression",
            ConfigError::MissingField => "the expression has no field at that position",
        }
    }
}

/// What replacing the field at `position` of `expression` by `value` comes to.
pub open spec fn configured(expression: Seq<char>, position: int, value: Seq<char>) -> Result<
    Seq<char>,
    ConfigError,
> {
    if position >= fields_of(expression).len() {
        Err(ConfigError::MissingField)
    } else if !cron_accepts(spliced(expression, position, value)) {
        Err(ConfigError::InvalidExpression)
    } else {
        Ok(spliced(expression, position, value))
    }
}

/// Checks `expression` against the `cron` grammar.
pub fn check_expression(expression: &str) -> (outcome: Result<(), ConfigError>)
    ensures
        cron_accepts(expression@) ==> outcome is Ok,
        !cron_accepts(expression@) ==> outcome == Err::<(), ConfigError>(
            ConfigError::InvalidExpression,
        ),
{
    match parse_expression(expression) {
        Ok(_) => Ok(()),
        Err(_) => Err(ConfigError::InvalidExpression),
    }
}

/// What a job runs: a command with its arguments, or a callback that the
/// caller holds under a key.
#[derive(Debug, PartialEq, Eq)]
pub enum ScheduleType {
    ScheduleCommand(String, Vec<String>),
    ScheduleCallback(usize),
}

/// An action as plain values.
pub enum ActionView {
    Command(Seq<char>, Seq<Seq<char>>),
    Callback(usize),
}

impl View for ScheduleType {
    type V = ActionView;

    open spec fn view(&self) -> ActionView {
        match self {
            ScheduleType::ScheduleCommand(name, args) => ActionView::Command(name@, texts(args@)),
            ScheduleType::ScheduleCallback(key) => ActionView::Callback(*key),
        }
    }
}

impl Clone for ScheduleType {
    fn clone(&self) -> (copy: ScheduleType)
        ensures
            copy@ == self@,
    {
        match self {
            ScheduleType::ScheduleCommand(name, args) => {
                let mut copies: Vec<String> = Vec::new();
                let mut i: usize = 0;
                while i < args.len()
                    invariant
                        i <= args.len(),
                        texts(copies@) == texts(args@).take(i as int),
                    decreases args.len() - i,
                {
                    let copy: String = args[i].clone();
                    proof {
                        assert(texts(copies@.push(copy)) == texts(copies@).push(copy@));
                        assert(texts(args@).take(i + 1) == texts(args@).take(i as int).push(
                            args@[i as int]@,
                        ));
                    }
                    copies.push(copy);
                    i = i + 1;
                }
                proof {
                    assert(texts(args@).take(args.len() as int) == texts(args@));
                }
                ScheduleType::ScheduleCommand(name.clone(), copies)
            },
            ScheduleType::ScheduleCallback(key) => ScheduleType::ScheduleCallback(*key),
        }
    }
}

/// A job as plain values.
pub struct ScheduleView {
    pub expression: Seq<char>,
    pub action: ActionView,
    pub options: OptionsView,
}

impl ScheduleView {
    /// A freshly registered job with the given action.
    pub open spec fn fresh(action: ActionView) -> ScheduleView {
        ScheduleView {
            expression: default_expression(),
            action,
            options: OptionsView::initial(),
        }
    }

    /// The job after the tick at `date`, and what the tick loop is to do.
    pub open spec fn step(self, date: int, window: int, deferred: bool) -> (
        ScheduleView,
        Dispatch,
    ) {
        let taken = self.options.step(
            self.options.skip.outcome(deferred),
            due(self.expression, date, window),
        );
        (ScheduleView { options: taken.0, ..self }, taken.1)
    }
}

/// A job.
#[derive(Debug)]
pub struct Schedule {
    pub(crate) cron: String,
    pub(crate) typ: ScheduleType,
    pub(crate) options: ScheduleOptions,
}

impl View for Schedule {
    type V = ScheduleView;

    closed spec fn view(&self) -> ScheduleView {
        ScheduleView { expression: self.cron@, action: self.typ@, options: self.options@ }
    }
}

impl Clone for Schedule {
    /// A job of its own with the same expression, action and control state.
    fn clone(&self) -> (copy: Schedule)
        ensures
            copy@ == self@,
    {
        proof {
            use_type_invariant(self);
        }
        Schedule { cron: self.cron.clone(), typ: self.typ.clone(), options: self.options }
    }
}

impl Schedule {
    #[verifier::type_invariant]
    spec fn holds(self) -> bool {
        valid_expression(self.cron@)
    }

    /// A job that runs the callback held under `callback`, every minute.
    pub fn from_callback(callback: usize) -> (schedule: Schedule)
        ensures
            schedule@ == ScheduleView::fresh(ActionView::Callback(callback)),
    {
        Schedule {
            cron: String::from_str("0 * * * * *"),
            typ: ScheduleType::ScheduleCallback(callback),
            options: ScheduleOptions::new(),
        }
    }

    /// A job that runs the command `name` with `args`, every minute.
    pub fn from_command(name: String, args: Vec<String>) -> (schedule: Schedule)
        ensures
            schedule@ == ScheduleView::fresh(ActionView::Command(name@, texts(args@))),
    {
        Schedule {
            cron: String::from_str("0 * * * * *"),
            typ: ScheduleType::ScheduleCommand(name, args),
            options: ScheduleOptions::new(),
        }
    }

    /// The recurrence expression, as it was last set.
    pub fn expression(&self) -> (expression: String)
        ensures
            expression@ == self@.expression,
            valid_expression(expression@),
    {
        proof {
            use_type_invariant(self);
        }
        self.cron.clone()
    }

    /// The action.
    pub fn typ(&self) -> (typ: &ScheduleType)
        ensures
            typ@ == self@.action,
    {
        &self.typ
    }

    /// The control state.
    pub fn options(&self) -> (options: &ScheduleOptions)
        ensures
            options@ == self@.options,
    {
        &self.options
    }

    /// Replaces the whole expression, if the `cron` grammar accepts the new one.
    pub fn cron(&mut self, expression: &str) -> (outcome: Result<(), ConfigError>)
        ensures
            cron_accepts(expression@) ==> outcome is Ok && final(self)@ == (ScheduleView {
                expression: expression@,
                ..old(self)@
            }),
            !cron_accepts(expression@) ==> outcome == Err::<(), ConfigError>(
                ConfigError::InvalidExpression,
            ) && final(self)@ == old(self)@,
    {
        match check_expression(expression) {
            Ok(_) => {
                self.cron = String::from_str(expression);
                Ok(())
            },
            Err(error) => Err(error),
        }
    }

    /// Replaces the field at `position` by `value` and leaves the other fields
    /// as they are, if the `cron` grammar accepts the outcome.
    pub fn splice_into_position(&mut self, position: usize, value: &str) -> (outcome: Result<
        (),
        ConfigError,
    >)
        ensures
            match configured(old(self)@.expression, position as int, value@) {
                Ok(expression) => outcome is Ok && final(self)@ == (ScheduleView {
                    expression,
                    ..old(self)@
                }),
                Err(error) => outcome == Err::<(), ConfigError>(error) && final(self)@ == old(self)@,
            },
    {
        let mut fields: Vec<String> = split_fields(self.cron.as_str());
        if position >= fields.len() {
            return Err(ConfigError::MissingField);
        }
        let replacement: String = String::from_str(value);
        proof {
            assert(texts(fields@.update(position as int, replacement)) == texts(fields@).update(
                position as int,
                value@,
            ));
        }
        fields.set(position, replacement);
        let candidate: String = join_fields(&fields);
        self.cron(candidate.as_str())
    }

    /// Sets the skip predicate.
    pub fn skip(&mut self, skip: Skip)
        ensures
            final(self)@ == (ScheduleView {
                options: OptionsView { skip, ..old(self)@.options },
                ..old(self)@
            }),
    {
        proof {
            use_type_invariant(&*self);
        }
        self.options.set_skip(skip);
    }

    /// Says whether the job is to run once at the first tick, whatever its
    /// recurrence. A run that has happened is not owed again.
    pub fn immediate(&mut self, immediate: bool)
        ensures
            final(self)@ == (ScheduleView {
                options: OptionsView { immediate, ..old(self)@.options },
                ..old(self)@
            }),
    {
        proof {
            use_type_invariant(&*self);
        }
        self.options.set_immediate(immediate);
    }

    /// Forbids a run by the recurrence to start while an earlier one is
    /// still going.
    pub fn without_overlapping(&mut self)
        ensures
            final(self)@ == (ScheduleView {
                options: OptionsView { without_overlapping: true, ..old(self)@.options },
                ..old(self)@
            }),
    {
        proof {
            use_type_invariant(&*self);
        }
        self.options.set_without_overlapping();
    }

    /// Takes the decision for the tick at `date`, in seconds since the Unix
    /// epoch, and records it. `window` is the tick period in seconds;
    /// `deferred` is what the caller's skip predicate returned at this tick,
    /// and counts only where the job has one.
    pub fn run_next(&mut self, date: i64, window: u32, deferred: bool) -> (dispatch: Dispatch)
        ensures
            (final(self)@, dispatch) == old(self)@.step(date as int, window as int, deferred),
    {
        proof {
            use_type_invariant(&*self);
        }
        let skip: bool = self.options.skip().should_skip(deferred);
        let due: bool = if self.options.consults_recurrence(skip) {
            is_due(self.cron.as_str(), date, window)
        } else {
            false
        };
        self.options.decide(skip, due)
    }

    /// Records that the action started by a `Guarded` dispatch has completed.
    pub fn release(&mut self)
        ensures
            final(self)@ == (ScheduleView { options: old(self)@.options.released(), ..old(self)@ }),
    {
        proof {
            use_type_invariant(&*self);
        }
        self.options.release();
    }
}

} // verus!

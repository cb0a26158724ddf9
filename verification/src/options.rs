//! Per-job control state and the decision taken for one job at one tick.

use vstd::prelude::*;
use vstd::std_specs::convert::FromSpecImpl;

verus! {

/// Whether a job sits a tick out: a fixed answer, or a predicate that the
/// caller holds under `key` and asks afresh at every tick.
#[derive(Clone, Copy, Debug, PartialEq, Eq, Structural)]
pub enum Skip {
    Boolean(bool),
    AsyncFn(usize),
}

impl Skip {
    /// The answer for one tick, `deferred` being what the predicate said.
    pub open spec fn outcome(self, deferred: bool) -> bool {
        match self {
            Skip::Boolean(value) => value,
            Skip::AsyncFn(_) => deferred,
        }
    }

    /// The answer for one tick. `deferred` is what the caller's predicate
    /// returned at this tick; a fixed answer ignores it.
    pub fn should_skip(&self, deferred: bool) -> (skip: bool)
        ensures
            skip == self.outcome(deferred),
    {
        match self {
            Skip::Boolean(value) => *value,
            Skip::AsyncFn(_) => deferred,
        }
    }
}

impl From<bool> for Skip {
    fn from(value: bool) -> (skip: Skip) {
        Skip::Boolean(value)
    }
}

impl FromSpecImpl<bool> for Skip {
    open spec fn obeys_from_spec() -> bool {
        true
    }

    open spec fn from_spec(value: bool) -> Skip {
        Skip::Boolean(value)
    }
}

/// What the tick loop is to do with a job.
#[derive(Clone, Copy, Debug, PartialEq, Eq, Structural)]
pub enum Dispatch {
    /// Nothing.
    Idle,
    /// Start the action: the one-shot immediate run.
    Immediate,
    /// Start the action: the recurrence is due.
    Due,
    /// Start the action, which now holds the job's lock, and call `release`
    /// on the job when the action has completed.
    Guarded,
}

impl Dispatch {
    /// Whether the action is to be started.
    pub open spec fn starts(self) -> bool {
        self != Dispatch::Idle
    }

    /// Whether the action is to be started.
    pub fn is_start(&self) -> (start: bool)
        ensures
            start == self.starts(),
    {
        match self {
            Dispatch::Idle => false,
            _ => true,
        }
    }
}

/// The control state of a job as a plain record.
pub struct OptionsView {
    pub skip: Skip,
    pub immediate: bool,
    pub immediate_triggered: bool,
    pub without_overlapping: bool,
    pub locked: bool,
}

impl OptionsView {
    /// The state of a job that was never configured.
    pub open spec fn initial() -> OptionsView {
        OptionsView {
            skip: Skip::Boolean(false),
            immediate: false,
            immediate_triggered: false,
            without_overlapping: false,
            locked: false,
        }
    }

    /// Only a job that refuses to overlap is ever locked.
    pub open spec fn consistent(self) -> bool {
        self.locked ==> self.without_overlapping
    }

    /// Whether the one-shot immediate run is still owed.
    pub open spec fn owes_immediate(self) -> bool {
        self.immediate && !self.immediate_triggered
    }

    /// Whether the decision of a tick depends on the recurrence at all: the
    /// job is not skipped, owes no immediate run and is not locked.
    pub open spec fn consults_recurrence(self, skip: bool) -> bool {
        !skip && !self.owes_immediate() && !self.locked
    }

    /// One tick for one job. `skip` is the skip predicate's answer and `due`
    /// says whether the recurrence fires in this tick's window. The checks run
    /// in a fixed order: skip, immediate run, lock, recurrence.
    pub open spec fn step(self, skip: bool, due: bool) -> (OptionsView, Dispatch) {
        if skip {
            (self, Dispatch::Idle)
        } else if self.owes_immediate() {
            (OptionsView { immediate_triggered: true, ..self }, Dispatch::Immediate)
        } else if self.locked {
            (self, Dispatch::Idle)
        } else if !due {
            (self, Dispatch::Idle)
        } else if self.without_overlapping {
            (OptionsView { locked: true, ..self }, Dispatch::Guarded)
        } else {
            (self, Dispatch::Due)
        }
    }

    /// The state after a guarded action has completed.
    pub open spec fn released(self) -> OptionsView {
        OptionsView { locked: false, ..self }
    }
}

/// The control state of a job.
#[derive(Clone, Copy, Debug, PartialEq, Eq)]
pub struct ScheduleOptions {
    skip: Skip,
    immediate: bool,
    immediate_triggered: bool,
    without_overlapping: bool,
    locked: bool,
}

impl View for ScheduleOptions {
    type V = OptionsView;

    closed spec fn view(&self) -> OptionsView {
        OptionsView {
            skip: self.skip,
            immediate: self.immediate,
            immediate_triggered: self.immediate_triggered,
            without_overlapping: self.without_overlapping,
            locked: self.locked,
        }
    }
}

impl ScheduleOptions {
    #[verifier::type_invariant]
    spec fn holds(self) -> bool {
        self@.consistent()
    }

    /// The state of a job that was never configured.
    pub fn new() -> (options: ScheduleOptions)
        ensures
            options@ == OptionsView::initial(),
    {
        ScheduleOptions {
            skip: Skip::Boolean(false),
            immediate: false,
            immediate_triggered: false,
            without_overlapping: false,
            locked: false,
        }
    }

    /// The skip predicate.
    pub fn skip(&self) -> (skip: Skip)
        ensures
            skip == self@.skip,
    {
        self.skip
    }

    /// Whether the one-shot immediate run is wanted.
    pub fn immediate(&self) -> (immediate: bool)
        ensures
            immediate == self@.immediate,
    {
        self.immediate
    }

    /// Whether the one-shot immediate run has happened.
    pub fn immediate_triggered(&self) -> (triggered: bool)
        ensures
            triggered == self@.immediate_triggered,
    {
        self.immediate_triggered
    }

    /// Whether overlapping runs are forbidden.
    pub fn without_overlapping(&self) -> (guarded: bool)
        ensures
            guarded == self@.without_overlapping,
    {
        self.without_overlapping
    }

    /// Whether a guarded action is going. Only a job that forbids overlapping
    /// runs is ever locked.
    pub fn locked(&self) -> (locked: bool)
        ensures
            locked == self@.locked,
            locked ==> self@.without_overlapping,
    {
        proof {
            use_type_invariant(self);
        }
        self.locked
    }

    /// Sets the skip predicate.
    pub fn set_skip(&mut self, skip: Skip)
        ensures
            final(self)@ == (OptionsView { skip, ..old(self)@ }),
        no_unwind
    {
        proof {
            use_type_invariant(&*self);
        }
        self.skip = skip;
    }

    /// Says whether the one-shot immediate run is wanted. A run that has
    /// happened stays recorded.
    pub fn set_immediate(&mut self, immediate: bool)
        ensures
            final(self)@ == (OptionsView { immediate, ..old(self)@ }),
        no_unwind
    {
        proof {
            use_type_invariant(&*self);
        }
        self.immediate = immediate;
    }

    /// Forbids overlapping runs from now on.
    pub fn set_without_overlapping(&mut self)
        ensures
            final(self)@ == (OptionsView { without_overlapping: true, ..old(self)@ }),
        no_unwind
    {
        self.without_overlapping = true;
    }

    /// Whether the decision of this tick depends on the recurrence.
    pub fn consults_recurrence(&self, skip: bool) -> (consults: bool)
        ensures
            consults == self@.consults_recurrence(skip),
    {
        !skip && !(self.immediate && !self.immediate_triggered) && !self.locked
    }

    /// Takes the decision of one tick and records it.
    pub fn decide(&mut self, skip: bool, due: bool) -> (dispatch: Dispatch)
        ensures
            (final(self)@, dispatch) == old(self)@.step(skip, due),
        no_unwind
    {
        proof {
            use_type_invariant(&*self);
        }
        if skip {
            Dispatch::Idle
        } else if self.immediate && !self.immediate_triggered {
            self.immediate_triggered = true;
            Dispatch::Immediate
        } else if self.locked {
            Dispatch::Idle
        } else if !due {
            Dispatch::Idle
        } else if self.without_overlapping {
            self.locked = true;
            Dispatch::Guarded
        } else {
            Dispatch::Due
        }
    }

    /// Records that a guarded action has completed.
    pub fn release(&mut self)
        ensures
            final(self)@ == old(self)@.released(),
        no_unwind
    {
        self.locked = false;
    }
}

} // verus!

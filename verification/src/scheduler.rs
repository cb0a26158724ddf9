//! The list of jobs, the handle that configures one of them, and the tick.

use crate::options::{Dispatch, OptionsView, Skip};
use crate::recurrence::cron_accepts;
use crate::schedule::{
    configured, valid_expression, ActionView, ConfigError, Schedule, ScheduleView,
};
use crate::text::{every_nth, every_nth_text, every_tick, every_tick_text, texts};
use crate::timing::TICK_SECONDS;
use vstd::prelude::*;
use vstd::string::*;

verus! {

/// The context of a scheduler that registers jobs and runs ticks.
#[derive(Clone, Copy, Debug, PartialEq, Eq, Structural)]
pub struct DefaultContext;

/// The context of a scheduler that configures one job: the job's position in
/// the list.
#[derive(Clone, Copy, Debug, PartialEq, Eq, Structural)]
pub struct ScheduleIndex(usize);

impl View for ScheduleIndex {
    type V = int;

    closed spec fn view(&self) -> int {
        self.0 as int
    }
}

/// A scheduler as plain values.
pub struct SchedulerView<T> {
    pub jobs: Seq<ScheduleView>,
    pub context: T,
    pub tick: u32,
}

/// The views of a list of jobs, in order.
pub open spec fn views(list: Seq<Schedule>) -> Seq<ScheduleView> {
    list.map_values(|job: Schedule| job@)
}

/// What the skip predicate of the job at `position` said, where `answers`
/// holds one answer per job; a missing answer counts as "do not skip".
pub open spec fn answer(answers: Seq<bool>, position: int) -> bool {
    0 <= position < answers.len() && answers[position]
}

impl<T> SchedulerView<T> {
    /// The same scheduler with the job at `position` replaced.
    pub open spec fn with_job(self, position: int, job: ScheduleView) -> SchedulerView<T> {
        SchedulerView { jobs: self.jobs.update(position, job), ..self }
    }

    /// The jobs after the tick at `date`: each has taken its own step.
    pub open spec fn ticked(self, date: int, answers: Seq<bool>) -> Seq<ScheduleView> {
        Seq::new(
            self.jobs.len(),
            |i: int| self.jobs[i].step(date, self.tick as int, answer(answers, i)).0,
        )
    }

    /// What the tick at `date` asks for, job by job in registration order.
    pub open spec fn dispatched(self, date: int, answers: Seq<bool>) -> Seq<Dispatch> {
        Seq::new(
            self.jobs.len(),
            |i: int| self.jobs[i].step(date, self.tick as int, answer(answers, i)).1,
        )
    }
}

/// An append-only list of jobs, indexed by registration order.
#[derive(Debug)]
pub struct Scheduler<T = DefaultContext> {
    schedules: Vec<Schedule>,
    context: T,
    tick: u32,
}

impl<T> View for Scheduler<T> {
    type V = SchedulerView<T>;

    closed spec fn view(&self) -> SchedulerView<T> {
        SchedulerView { jobs: views(self.schedules@), context: self.context, tick: self.tick }
    }
}

impl<T> Scheduler<T> {
    /// The context.
    pub fn context(&self) -> (context: &T)
        ensures
            *context == self@.context,
    {
        &self.context
    }

    /// The tick period in seconds, which is also the width of the window in
    /// which a recurrence counts as due.
    pub fn tick_seconds(&self) -> (seconds: u32)
        ensures
            seconds == self@.tick,
    {
        self.tick
    }

    /// Sets the tick period, and with it the width of the window in which a
    /// recurrence counts as due.
    pub fn set_tick_seconds(&mut self, seconds: u32)
        ensures
            final(self)@ == (SchedulerView { tick: seconds, ..old(self)@ }),
    {
        self.tick = seconds;
    }

    /// The jobs, open to change. What the caller leaves in the list is the
    /// scheduler's list of jobs from then on.
    pub fn schedules(&mut self) -> (schedules: &mut Vec<Schedule>)
        ensures
            views(schedules@) == old(self)@.jobs,
            final(self)@ == (SchedulerView { jobs: views(final(schedules)@), ..old(self)@ }),
    {
        &mut self.schedules
    }

    /// Hands the jobs over to a scheduler that registers and runs.
    pub fn reborrow(self) -> (scheduler: Scheduler<DefaultContext>)
        ensures
            scheduler@ == (SchedulerView {
                jobs: self@.jobs,
                context: DefaultContext,
                tick: self@.tick,
            }),
    {
        Scheduler { schedules: self.schedules, context: DefaultContext, tick: self.tick }
    }
}

impl Scheduler<DefaultContext> {
    /// A scheduler without jobs, ticking once per `TICK_SECONDS`.
    pub fn new() -> (scheduler: Scheduler<DefaultContext>)
        ensures
            scheduler@ == (SchedulerView {
                jobs: Seq::<ScheduleView>::empty(),
                context: DefaultContext,
                tick: TICK_SECONDS,
            }),
    {
        let scheduler = Scheduler {
            schedules: Vec::new(),
            context: DefaultContext,
            tick: TICK_SECONDS,
        };
        assert(scheduler@.jobs =~= Seq::<ScheduleView>::empty());
        scheduler
    }

    /// Registers a job that runs the callback held under `callback`, and hands
    /// the jobs over to a scheduler that configures the new one.
    pub fn call(self, callback: usize) -> (handle: Scheduler<ScheduleIndex>)
        ensures
            handle@.jobs == self@.jobs.push(ScheduleView::fresh(ActionView::Callback(callback))),
            handle@.context@ == self@.jobs.len(),
            handle@.tick == self@.tick,
            handle.well_formed(),
    {
        let mut schedules = self.schedules;
        let position: usize = schedules.len();
        let schedule = Schedule::from_callback(callback);
        proof {
            assert(views(schedules@.push(schedule)) =~= views(schedules@).push(schedule@));
        }
        schedules.push(schedule);
        Scheduler { schedules, context: ScheduleIndex(position), tick: self.tick }
    }

    /// Registers a job that runs the command `name` with `args`, and hands the
    /// jobs over to a scheduler that configures the new one.
    pub fn command(self, name: String, args: Vec<String>) -> (handle: Scheduler<ScheduleIndex>)
        ensures
            handle@.jobs == self@.jobs.push(
                ScheduleView::fresh(ActionView::Command(name@, texts(args@))),
            ),
            handle@.context@ == self@.jobs.len(),
            handle@.tick == self@.tick,
            handle.well_formed(),
    {
        let mut schedules = self.schedules;
        let position: usize = schedules.len();
        let schedule = Schedule::from_command(name, args);
        proof {
            assert(views(schedules@.push(schedule)) =~= views(schedules@).push(schedule@));
        }
        schedules.push(schedule);
        Scheduler { schedules, context: ScheduleIndex(position), tick: self.tick }
    }

    /// Runs the tick at `date`, in seconds since the Unix epoch: every job
    /// takes its step, in registration order. `answers` holds, per job, what
    /// its skip predicate said at this tick. The outcome says, per job, what
    /// is to be done.
    pub fn run(&mut self, date: i64, answers: &Vec<bool>) -> (dispatches: Vec<Dispatch>)
        ensures
            final(self)@ == (SchedulerView {
                jobs: old(self)@.ticked(date as int, answers@),
                ..old(self)@
            }),
            dispatches@ == old(self)@.dispatched(date as int, answers@),
    {
        let mut dispatches: Vec<Dispatch> = Vec::new();
        let n: usize = self.schedules.len();
        let window: u32 = self.tick;
        let mut i: usize = 0;
        while i < n
            invariant
                i <= n,
                n == old(self)@.jobs.len(),
                n == self.schedules@.len(),
                self.tick == old(self).tick,
                window == self.tick,
                dispatches@ == old(self)@.dispatched(date as int, answers@).take(i as int),
                forall|k: int|
                    0 <= k < i ==> (#[trigger] self.schedules@[k])@ == old(self)@.ticked(
                        date as int,
                        answers@,
                    )[k],
                forall|k: int| i <= k < n ==> (#[trigger] self.schedules@[k])@ == old(self)@.jobs[k],
            decreases n - i,
        {
            let deferred: bool = i < answers.len() && answers[i];
            let dispatch = self.schedules[i].run_next(date, window, deferred);
            dispatches.push(dispatch);
            i = i + 1;
        }
        assert(final(self)@.jobs =~= old(self)@.ticked(date as int, answers@));
        assert(dispatches@ =~= old(self)@.dispatched(date as int, answers@));
        dispatches
    }
}

impl Scheduler<ScheduleIndex> {
    /// The handle points at one of the jobs.
    pub open spec fn well_formed(&self) -> bool {
        0 <= self@.context@ < self@.jobs.len()
    }

    /// The job that the handle configures.
    pub open spec fn target(&self) -> ScheduleView {
        self@.jobs[self@.context@]
    }

    /// The position of the job that the handle configures.
    pub fn index(&self) -> (position: usize)
        ensures
            position == self@.context@,
    {
        self.context.0
    }

    /// The scheduler after the configured job has become `job`.
    pub open spec fn retargeted(&self, job: ScheduleView) -> SchedulerView<ScheduleIndex> {
        self@.with_job(self@.context@, job)
    }

    /// The scheduler after the configured job's options have become `options`.
    pub open spec fn with_options(&self, options: OptionsView) -> SchedulerView<ScheduleIndex> {
        self.retargeted(ScheduleView { options, ..self.target() })
    }

    /// What replacing the field at `position` of the configured job's
    /// expression by `value` comes to.
    pub open spec fn respliced(&self, position: int, value: Seq<char>) -> Result<
        SchedulerView<ScheduleIndex>,
        ConfigError,
    > {
        match configured(self.target().expression, position, value) {
            Ok(expression) => Ok(self.retargeted(ScheduleView { expression, ..self.target() })),
            Err(error) => Err(error),
        }
    }

    /// The expression of the configured job.
    pub fn expression(&self) -> (expression: String)
        requires
            self.well_formed(),
        ensures
            expression@ == self.target().expression,
            valid_expression(expression@),
    {
        self.schedules[self.context.0].expression()
    }

    /// Replaces the whole expression of the job, if the `cron` grammar accepts
    /// the new one; refuses it and changes nothing otherwise.
    pub fn cron(&mut self, expression: &str) -> (outcome: Result<&mut Self, ConfigError>)
        requires
            old(self).well_formed(),
        ensures
            cron_accepts(expression@) ==> ({
                &&& outcome matches Ok(handle)
                &&& handle@ == old(self).retargeted(
                    ScheduleView { expression: expression@, ..old(self).target() },
                )
                &&& final(self)@ == final(handle)@
            }),
            !cron_accepts(expression@) ==> ({
                &&& outcome matches Err(refusal)
                &&& refusal == ConfigError::InvalidExpression
                &&& final(self)@ == old(self)@
            }),
    {
        let position: usize = self.context.0;
        match self.schedules[position].cron(expression) {
            Ok(_) => {
                assert(self@.jobs =~= old(self)@.jobs.update(
                    position as int,
                    ScheduleView { expression: expression@, ..old(self).target() },
                ));
                Ok(self)
            },
            Err(error) => {
                assert(self@.jobs =~= old(self)@.jobs);
                Err(error)
            },
        }
    }

    /// Replaces the field at `position` of the job's expression by `value`
    /// and leaves the other fields as they are. Refuses, and changes nothing,
    /// where the expression has no such field or the `cron` grammar rejects
    /// the outcome.
    pub fn splice_into_position(&mut self, position: usize, value: &str) -> (outcome: Result<
        &mut Self,
        ConfigError,
    >)
        requires
            old(self).well_formed(),
        ensures
            match old(self).respliced(position as int, value@) {
                Ok(view) => {
                    &&& outcome matches Ok(handle)
                    &&& handle@ == view
                    &&& final(self)@ == final(handle)@
                },
                Err(error) => {
                    &&& outcome matches Err(refusal)
                    &&& refusal == error
                    &&& final(self)@ == old(self)@
                },
            },
    {
        let target: usize = self.context.0;
        match self.schedules[target].splice_into_position(position, value) {
            Ok(_) => {
                assert(self@.jobs =~= old(self)@.jobs.update(
                    target as int,
                    ScheduleView {
                        expression: configured(
                            old(self).target().expression,
                            position as int,
                            value@,
                        )->Ok_0,
                        ..old(self).target()
                    },
                ));
                Ok(self)
            },
            Err(error) => {
                assert(self@.jobs =~= old(self)@.jobs);
                Err(error)
            },
        }
    }

    /// Lets the job fire at every second.
    pub fn every_second(&mut self) -> (outcome: Result<&mut Self, ConfigError>)
        requires
            old(self).well_formed(),
        ensures
            match old(self).respliced(0, every_tick()) {
                Ok(view) => {
                    &&& outcome matches Ok(handle)
                    &&& handle@ == view
                    &&& final(self)@ == final(handle)@
                },
                Err(error) => {
                    &&& outcome matches Err(refusal)
                    &&& refusal == error
                    &&& final(self)@ == old(self)@
                },
            },
    {
        let value: String = every_tick_text();
        self.splice_into_position(0, value.as_str())
    }

    /// Lets the job fire at every `second`th second: the seconds field
    /// becomes `*/second`.
    pub fn every_seconds(&mut self, second: u8) -> (outcome: Result<&mut Self, ConfigError>)
        requires
            old(self).well_formed(),
        ensures
            match old(self).respliced(0, every_nth(second as nat)) {
                Ok(view) => {
                    &&& outcome matches Ok(handle)
                    &&& handle@ == view
                    &&& final(self)@ == final(handle)@
                },
                Err(error) => {
                    &&& outcome matches Err(refusal)
                    &&& refusal == error
                    &&& final(self)@ == old(self)@
                },
            },
    {
        let value: String = every_nth_text(second);
        self.splice_into_position(0, value.as_str())
    }

    /// Lets the job fire at every five seconds.
    pub fn every_five_seconds(&mut self) -> (outcome: Result<&mut Self, ConfigError>)
        requires
            old(self).well_formed(),
        ensures
            match old(self).respliced(0, every_nth(5)) {
                Ok(view) => {
                    &&& outcome matches Ok(handle)
                    &&& handle@ == view
                    &&& final(self)@ == final(handle)@
                },
                Err(error) => {
                    &&& outcome matches Err(refusal)
                    &&& refusal == error
                    &&& final(self)@ == old(self)@
                },
            },
    {
        self.every_seconds(5)
    }

    /// Lets the job fire at every ten seconds.
    pub fn every_ten_seconds(&mut self) -> (outcome: Result<&mut Self, ConfigError>)
        requires
            old(self).well_formed(),
        ensures
            match old(self).respliced(0, every_nth(10)) {
                Ok(view) => {
                    &&& outcome matches Ok(handle)
                    &&& handle@ == view
                    &&& final(self)@ == final(handle)@
                },
                Err(error) => {
                    &&& outcome matches Err(refusal)
                    &&& refusal == error
                    &&& final(self)@ == old(self)@
                },
            },
    {
        self.every_seconds(10)
    }

    /// Lets the job fire at every fifteen seconds.
    pub fn every_fifteen_seconds(&mut self) -> (outcome: Result<&mut Self, ConfigError>)
        requires
            old(self).well_formed(),
        ensures
            match old(self).respliced(0, every_nth(15)) {
                Ok(view) => {
                    &&& outcome matches Ok(handle)
                    &&& handle@ == view
                    &&& final(self)@ == final(handle)@
                },
                Err(error) => {
                    &&& outcome matches Err(refusal)
                    &&& refusal == error
                    &&& final(self)@ == old(self)@
                },
            },
    {
        self.every_seconds(15)
    }

    /// Lets the job fire at every thirty seconds.
    pub fn every_thirty_seconds(&mut self) -> (outcome: Result<&mut Self, ConfigError>)
        requires
            old(self).well_formed(),
        ensures
            match old(self).respliced(0, every_nth(30)) {
                Ok(view) => {
                    &&& outcome matches Ok(handle)
                    &&& handle@ == view
                    &&& final(self)@ == final(handle)@
                },
                Err(error) => {
                    &&& outcome matches Err(refusal)
                    &&& refusal == error
                    &&& final(self)@ == old(self)@
                },
            },
    {
        self.every_seconds(30)
    }

    /// Lets the job fire at every `minutes`th minute: the minutes field
    /// becomes `*/minutes`.
    pub fn every_minutes(&mut self, minutes: u8) -> (outcome: Result<&mut Self, ConfigError>)
        requires
            old(self).well_formed(),
        ensures
            match old(self).respliced(1, every_nth(minutes as nat)) {
                Ok(view) => {
                    &&& outcome matches Ok(handle)
                    &&& handle@ == view
                    &&& final(self)@ == final(handle)@
                },
                Err(error) => {
                    &&& outcome matches Err(refusal)
                    &&& refusal == error
                    &&& final(self)@ == old(self)@
                },
            },
    {
        let value: String = every_nth_text(minutes);
        self.splice_into_position(1, value.as_str())
    }

    /// Lets the job fire at every minute.
    pub fn every_minute(&mut self) -> (outcome: Result<&mut Self, ConfigError>)
        requires
            old(self).well_formed(),
        ensures
            match old(self).respliced(1, every_tick()) {
                Ok(view) => {
                    &&& outcome matches Ok(handle)
                    &&& handle@ == view
                    &&& final(self)@ == final(handle)@
                },
                Err(error) => {
                    &&& outcome matches Err(refusal)
                    &&& refusal == error
                    &&& final(self)@ == old(self)@
                },
            },
    {
        let value: String = every_tick_text();
        self.splice_into_position(1, value.as_str())
    }

    /// Lets the job fire at every two minutes.
    pub fn every_two_minutes(&mut self) -> (outcome: Result<&mut Self, ConfigError>)
        requires
            old(self).well_formed(),
        ensures
            match old(self).respliced(1, every_nth(2)) {
                Ok(view) => {
                    &&& outcome matches Ok(handle)
                    &&& handle@ == view
                    &&& final(self)@ == final(handle)@
                },
                Err(error) => {
                    &&& outcome matches Err(refusal)
                    &&& refusal == error
                    &&& final(self)@ == old(self)@
                },
            },
    {
        self.every_minutes(2)
    }

    /// Lets the job fire at every three minutes.
    pub fn every_three_minutes(&mut self) -> (outcome: Result<&mut Self, ConfigError>)
        requires
            old(self).well_formed(),
        ensures
            match old(self).respliced(1, every_nth(3)) {
                Ok(view) => {
                    &&& outcome matches Ok(handle)
                    &&& handle@ == view
                    &&& final(self)@ == final(handle)@
                },
                Err(error) => {
                    &&& outcome matches Err(refusal)
                    &&& refusal == error
                    &&& final(self)@ == old(self)@
                },
            },
    {
        self.every_minutes(3)
    }

    /// Lets the job fire at every four minutes.
    pub fn every_four_minutes(&mut self) -> (outcome: Result<&mut Self, ConfigError>)
        requires
            old(self).well_formed(),
        ensures
            match old(self).respliced(1, every_nth(4)) {
                Ok(view) => {
                    &&& outcome matches Ok(handle)
                    &&& handle@ == view
                    &&& final(self)@ == final(handle)@
                },
                Err(error) => {
                    &&& outcome matches Err(refusal)
                    &&& refusal == error
                    &&& final(self)@ == old(self)@
                },
            },
    {
        self.every_minutes(4)
    }

    /// Lets the job fire at every five minutes.
    pub fn every_five_minutes(&mut self) -> (outcome: Result<&mut Self, ConfigError>)
        requires
            old(self).well_formed(),
        ensures
            match old(self).respliced(1, every_nth(5)) {
                Ok(view) => {
                    &&& outcome matches Ok(handle)
                    &&& handle@ == view
                    &&& final(self)@ == final(handle)@
                },
                Err(error) => {
                    &&& outcome matches Err(refusal)
                    &&& refusal == error
                    &&& final(self)@ == old(self)@
                },
            },
    {
        self.every_minutes(5)
    }

    /// Lets the job fire at every ten minutes.
    pub fn every_ten_minutes(&mut self) -> (outcome: Result<&mut Self, ConfigError>)
        requires
            old(self).well_formed(),
        ensures
            match old(self).respliced(1, every_nth(10)) {
                Ok(view) => {
                    &&& outcome matches Ok(handle)
                    &&& handle@ == view
                    &&& final(self)@ == final(handle)@
                },
                Err(error) => {
                    &&& outcome matches Err(refusal)
                    &&& refusal == error
                    &&& final(self)@ == old(self)@
                },
            },
    {
        self.every_minutes(10)
    }

    /// Lets the job fire at every fifteen minutes.
    pub fn every_fifteen_minutes(&mut self) -> (outcome: Result<&mut Self, ConfigError>)
        requires
            old(self).well_formed(),
        ensures
            match old(self).respliced(1, every_nth(15)) {
                Ok(view) => {
                    &&& outcome matches Ok(handle)
                    &&& handle@ == view
                    &&& final(self)@ == final(handle)@
                },
                Err(error) => {
                    &&& outcome matches Err(refusal)
                    &&& refusal == error
                    &&& final(self)@ == old(self)@
                },
            },
    {
        self.every_minutes(15)
    }

    /// Lets the job fire at every thirty minutes.
    pub fn every_thirty_minutes(&mut self) -> (outcome: Result<&mut Self, ConfigError>)
        requires
            old(self).well_formed(),
        ensures
            match old(self).respliced(1, every_nth(30)) {
                Ok(view) => {
                    &&& outcome matches Ok(handle)
                    &&& handle@ == view
                    &&& final(self)@ == final(handle)@
                },
                Err(error) => {
                    &&& outcome matches Err(refusal)
                    &&& refusal == error
                    &&& final(self)@ == old(self)@
                },
            },
    {
        self.every_minutes(30)
    }

    /// Sets the job's skip predicate.
    pub fn skip(&mut self, skip: Skip) -> (handle: &mut Self)
        requires
            old(self).well_formed(),
        ensures
            handle@ == old(self).with_options(OptionsView { skip, ..old(self).target().options }),
            final(self)@ == final(handle)@,
    {
        let position: usize = self.context.0;
        self.schedules[position].skip(skip);
        assert(self@.jobs =~= old(self).with_options(
            OptionsView { skip, ..old(self).target().options },
        ).jobs);
        self
    }

    /// Lets the job run once at the first tick, whatever its recurrence.
    pub fn immediately(&mut self) -> (handle: &mut Self)
        requires
            old(self).well_formed(),
        ensures
            handle@ == old(self).with_options(
                OptionsView { immediate: true, ..old(self).target().options },
            ),
            final(self)@ == final(handle)@,
    {
        self.immediate(true)
    }

    /// Says whether the job is to run once at the first tick, whatever its
    /// recurrence.
    pub fn immediate(&mut self, immediate: bool) -> (handle: &mut Self)
        requires
            old(self).well_formed(),
        ensures
            handle@ == old(self).with_options(
                OptionsView { immediate, ..old(self).target().options },
            ),
            final(self)@ == final(handle)@,
    {
        let position: usize = self.context.0;
        self.schedules[position].immediate(immediate);
        assert(self@.jobs =~= old(self).with_options(
            OptionsView { immediate, ..old(self).target().options },
        ).jobs);
        self
    }

    /// Forbids a run by the recurrence to start while an earlier one is
    /// still going.
    pub fn without_overlapping(&mut self) -> (handle: &mut Self)
        requires
            old(self).well_formed(),
        ensures
            handle@ == old(self).with_options(
                OptionsView { without_overlapping: true, ..old(self).target().options },
            ),
            final(self)@ == final(handle)@,
    {
        let position: usize = self.context.0;
        self.schedules[position].without_overlapping();
        assert(self@.jobs =~= old(self).with_options(
            OptionsView { without_overlapping: true, ..old(self).target().options },
        ).jobs);
        self
    }
}

} // verus!

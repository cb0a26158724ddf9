//! Decision core of an in-process periodic job scheduler.
//!
//! A job carries a six-field recurrence expression, an action and a handful of
//! options. The driving loop asks this crate, once per tick and per job, whether
//! the job is to be started; everything that waits, spawns or reads a clock
//! stays with the caller, which names its callbacks and skip predicates by key.
//!
//! - `text`: expressions as fields between single spaces, and the fields `*`
//!   and `*/n`.
//! - `recurrence`: the boundary to the `cron` crate, which parses expressions
//!   and finds fire instants.
//! - `timing`: when a recurrence counts as due at a tick.
//! - `options`: the control state of a job and the decision of one tick.
//! - `schedule`: a job.
//! - `scheduler`: the list of jobs, the handle that configures one of them, and
//!   the tick over all of them.
//! - `laws`: what holds of every job over its whole life.

pub mod laws;
pub mod options;
pub mod recurrence;
pub mod schedule;
pub mod scheduler;
pub mod text;
pub mod timing;

pub use crate::options::{Dispatch, ScheduleOptions, Skip};
pub use crate::schedule::{ConfigError, Schedule, ScheduleType};
pub use crate::scheduler::{DefaultContext, ScheduleIndex, Scheduler};
pub use crate::timing::TICK_SECONDS;

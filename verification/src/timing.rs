//! When a recurrence counts as due.

use crate::recurrence::{cron_next_fire, next_fire_after, EARLIEST_INSTANT, LATEST_INSTANT};
use vstd::prelude::*;

verus! {

/// The tick period in seconds. A job is due when its recurrence fires within
/// one period before the tick.
pub const TICK_SECONDS: u32 = 1;

/// The first fire instant of `expression` after `after`, in seconds since the
/// Unix epoch; `None` also where `after` lies outside the instants that the
/// calendar arithmetic takes.
pub open spec fn next_fire(expression: Seq<char>, after: int) -> Option<i64> {
    if EARLIEST_INSTANT <= after <= LATEST_INSTANT {
        cron_next_fire(expression, after as i64)
    } else {
        None
    }
}

/// Whether `fire` lies in the window of the tick at `date`: after
/// `date - window`, and not after `date`.
pub open spec fn in_window(fire: Option<i64>, date: int, window: int) -> bool {
    match fire {
        Some(instant) => date - window < instant <= date,
        None => false,
    }
}

/// Whether `expression` is due at the tick at `date`: its first fire instant
/// after the previous tick boundary, `date - window`, lies in the window.
pub open spec fn due(expression: Seq<char>, date: int, window: int) -> bool {
    in_window(next_fire(expression, date - window), date, window)
}

/// The first fire instant of `expression` after `after`.
pub fn first_fire_after(expression: &str, after: i64) -> (fire: Option<i64>)
    ensures
        fire == next_fire(expression@, after as int),
{
    if EARLIEST_INSTANT <= after && after <= LATEST_INSTANT {
        next_fire_after(expression, after)
    } else {
        None
    }
}

/// Whether `fire` lies in the window of the tick at `date`.
pub fn within_window(fire: Option<i64>, date: i64, window: u32) -> (inside: bool)
    ensures
        inside == in_window(fire, date as int, window as int),
{
    match fire {
        Some(instant) => {
            let gap: i128 = (date as i128) - (instant as i128);
            0 <= gap && gap < (window as i128)
        },
        None => false,
    }
}

/// Whether `expression` is due at the tick at `date`.
pub fn is_due(expression: &str, date: i64, window: u32) -> (is_due: bool)
    ensures
        is_due == due(expression@, date as int, window as int),
{
    if date < EARLIEST_INSTANT {
        false
    } else {
        let boundary: i64 = date - (window as i64);
        within_window(first_fire_after(expression, boundary), date, window)
    }
}

} // verus!

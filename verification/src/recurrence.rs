//! The boundary to the `cron` crate, which owns the expression grammar and the
//! calendar arithmetic. Nothing in this file is proved: each contract below is
//! a claim about that crate.

use std::str::FromStr;
use vstd::prelude::*;

verus! {

/// The error with which `cron` rejects an expression. Opaque here.
#[verifier::external_type_specification]
#[verifier::external_body]
pub struct ExCronError(cron::error::Error);

/// Whether `cron::Schedule::from_str` accepts `expression`.
pub uninterp spec fn cron_accepts(expression: Seq<char>) -> bool;

/// The first instant at which `expression` fires after `after`, as
/// `cron::Schedule::after` finds it; both instants are whole seconds since the
/// Unix epoch, in UTC. `None` where the expression has no later fire instant or
/// is not accepted at all.
pub uninterp spec fn cron_next_fire(expression: Seq<char>, after: i64) -> Option<i64>;

/// The earliest instant that `next_fire_after` takes.
pub const EARLIEST_INSTANT: i64 = -8_000_000_000_000;

/// The latest instant that `next_fire_after` takes.
pub const LATEST_INSTANT: i64 = 8_000_000_000_000;

/// Calls `cron::Schedule::from_str` and drops the parsed schedule. The contract
/// claims no more than that the outcome is a function of the text.
#[verifier::external_body]
pub(crate) fn parse_expression(expression: &str) -> (outcome: Result<(), cron::error::Error>)
    ensures
        outcome is Ok <==> cron_accepts(expression@),
{
    match cron::Schedule::from_str(expression) {
        Ok(_) => Ok(()),
        Err(error) => Err(error),
    }
}

/// Calls `cron::Schedule::after` on the schedule parsed from `expression` and
/// takes the first item of the iterator, starting from `after` seconds since the
/// Unix epoch in UTC. The contract claims that the outcome is a function of the
/// text and the instant. `after` is kept inside the range of `chrono::DateTime`
/// with a second to spare: `cron` adds one second to it and would panic beyond.
#[verifier::external_body]
pub(crate) fn next_fire_after(expression: &str, after: i64) -> (next: Option<i64>)
    requires
        EARLIEST_INSTANT <= after <= LATEST_INSTANT,
    ensures
        next == cron_next_fire(expression@, after),
{
    let schedule = cron::Schedule::from_str(expression).ok()?;
    let start = chrono::DateTime::from_timestamp(after, 0)?;
    match schedule.after(&start).next() {
        Some(fire) => Some(fire.timestamp()),
        None => None,
    }
}

} // verus!

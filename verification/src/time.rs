//! The clock of the library and its random spans of time. Times are
//! microseconds since a clock was started.

use crate::random::draw_between;
use quanta::Instant;
use rand::rngs::StdRng;
use vstd::prelude::*;

verus! {

/// `Instant` of quanta: a point in time, carried through as it is.
#[verifier::external_type_specification]
#[verifier::external_body]
pub struct ExInstant(Instant);

/// Calls `Instant::now` of quanta. Nothing is claimed of the instant.
#[verifier::external_body]
pub(crate) fn clock_start() -> Instant {
    Instant::now()
}

/// Calls `Instant::elapsed` of quanta on `clock` and gives the span in
/// whole microseconds. Nothing is claimed of the span.
#[verifier::external_body]
pub(crate) fn micros_since(clock: &Instant) -> u64 {
    clock.elapsed().as_micros() as u64
}

/// Whether `span` is a span that may be drawn between `min` and `max`: one
/// that lies between the two, or `min` itself where `max` lies below it.
pub open spec fn in_span(min: u64, max: u64, span: u64) -> bool {
    if min <= max {
        min <= span <= max
    } else {
        span == min
    }
}

/// The time `span` after `now`, as far as 64 bits hold it.
pub open spec fn time_after(now: u64, span: u64) -> u64 {
    if now + span <= u64::MAX {
        (now + span) as u64
    } else {
        u64::MAX
    }
}

/// Draws a span of time between `min` and `max`, both in microseconds.
/// Where `max` lies below `min`, nothing is drawn and the span is `min`.
pub fn rand_time_secs(rng: &mut StdRng, min: u64, max: u64) -> (span: u64)
    ensures
        in_span(min, max, span),
{
    if min < max {
        draw_between(rng, min as u128, max as u128) as u64
    } else {
        min
    }
}

/// The time that lies a span drawn between `min` and `max` after `now`.
pub fn rand_time_after(rng: &mut StdRng, now: u64, min: u64, max: u64) -> (time: u64)
    ensures
        exists|span: u64| in_span(min, max, span) && time == #[trigger] time_after(now, span),
{
    let span: u64 = rand_time_secs(rng, min, max);
    let time: u64 = now.saturating_add(span);
    assert(time == time_after(now, span));
    time
}

/// The time that lies a span drawn between `min` and `max` after the
/// present, as `clock` tells it.
pub fn rand_time_from_now(rng: &mut StdRng, clock: &Instant, min: u64, max: u64) -> (time: u64)
    ensures
        exists|now: u64, span: u64|
            in_span(min, max, span) && time == #[trigger] time_after(now, span),
{
    let now: u64 = micros_since(clock);
    rand_time_after(rng, now, min, max)
}

} // verus!

//! Exact elapsed-time arithmetic for the "recently updated" store query.
//!
//! A lookback duration is decomposed into whole days plus a sub-day remainder
//! in microseconds, the split representation the store query expects. The
//! decomposition is exact — no rounding — and recomposing the split yields
//! the original duration, which [`lemma_duration_interval_round_trip`] and
//! [`lemma_interval_duration_round_trip`] prove.

use vstd::arithmetic::div_mod::{lemma_fundamental_div_mod, lemma_fundamental_div_mod_converse};
use vstd::prelude::*;

verus! {

/// An elapsed (non-negative) duration in seconds plus sub-second nanoseconds.
///
/// The representable range is capped at `i64::MAX` milliseconds
/// (9_223_372_036_854_775 seconds and 807 milliseconds), the bound the
/// duration type of the original configuration surface imposes.
#[derive(Clone, Copy, PartialEq, Eq, Structural, Debug)]
pub struct Dur {
    pub secs: i64,
    pub nanos: i32,
}

/// A duration split into whole days plus a sub-day remainder in
/// microseconds, as the downstream store query consumes it. A decomposed
/// elapsed duration never has a month component.
#[derive(Clone, Copy, PartialEq, Eq, Structural, Debug)]
pub struct Interval {
    pub months: i32,
    pub days: i32,
    pub microseconds: i64,
}

/// The whole-day component of the duration does not fit the interval's
/// 32-bit day field. The sub-day remainder always fits 64 bits of
/// microseconds, so the day overflow is the only failure of the conversion.
#[derive(Clone, Copy, PartialEq, Eq, Structural, Debug)]
pub enum IntervalError {
    DaysOutOfRange,
}

impl Dur {
    /// A representable elapsed duration: non-negative, normalized
    /// nanoseconds, and at most `i64::MAX` milliseconds in total.
    pub open spec fn wf(self) -> bool {
        &&& 0 <= self.secs
        &&& 0 <= self.nanos < 1_000_000_000
        &&& (self.secs < 9_223_372_036_854_775
            || (self.secs == 9_223_372_036_854_775 && self.nanos <= 807_000_000))
    }

    /// The duration in whole microseconds (sub-microsecond nanoseconds are
    /// cut off, as the split representation has nothing to hold them).
    pub open spec fn total_micros(self) -> int {
        self.secs * 1_000_000 + self.nanos / 1000
    }

    /// Builds a duration from the seconds-plus-nanoseconds pair of a parsed
    /// duration value; `None` exactly when the pair exceeds the
    /// representable range of `i64::MAX` milliseconds.
    pub fn from_std(secs: u64, nanos: u32) -> (r: Option<Dur>)
        requires
            nanos < 1_000_000_000,
        ensures
            r is Some <==> (secs < 9_223_372_036_854_775
                || (secs == 9_223_372_036_854_775 && nanos <= 807_000_000)),
            r matches Some(d) ==> d.wf() && d.secs == secs && d.nanos == nanos,
    {
        if secs > 9_223_372_036_854_775 {
            None
        } else if secs == 9_223_372_036_854_775 && nanos > 807_000_000 {
            None
        } else {
            Some(Dur { secs: secs as i64, nanos: nanos as i32 })
        }
    }
}

/// Decomposes an elapsed duration into whole days plus the sub-day remainder
/// in microseconds, exactly: the split, read back as
/// `days * 86_400_000_000 + microseconds`, equals the duration's total
/// microseconds. Fails exactly when the whole-day count exceeds `i32::MAX`.
pub fn duration_to_interval(d: &Dur) -> (r: Result<Interval, IntervalError>)
    requires
        d.wf(),
    ensures
        r is Ok <==> d.secs / 86400 <= i32::MAX,
        r matches Ok(iv) ==> {
            &&& iv.months == 0
            &&& iv.days == d.secs / 86400
            &&& iv.microseconds == (d.secs % 86400) * 1_000_000 + d.nanos / 1000
            &&& iv.days * 86_400_000_000 + iv.microseconds == d.total_micros()
        },
{
    let secs_u: u64 = d.secs as u64;
    let days_u: u64 = secs_u / 86400;
    if days_u > i32::MAX as u64 {
        return Err(IntervalError::DaysOutOfRange);
    }
    let rem: u64 = secs_u % 86400;
    let micros: u64 = rem * 1_000_000 + (d.nanos as u64) / 1000;
    proof {
        lemma_fundamental_div_mod(d.secs as int, 86400);
    }
    Ok(Interval { months: 0, days: days_u as i32, microseconds: micros as i64 })
}

/// Recomposes a days-plus-microseconds split back into an elapsed duration,
/// exactly. `None` for a split no elapsed duration decomposes to: a month
/// component, negative days, or negative microseconds.
pub fn interval_to_duration(iv: &Interval) -> (r: Option<Dur>)
    ensures
        r is Some <==> (iv.months == 0 && iv.days >= 0 && iv.microseconds >= 0),
        r matches Some(d) ==> {
            &&& d.wf()
            &&& d.secs == iv.days * 86400 + iv.microseconds / 1_000_000
            &&& d.nanos == (iv.microseconds % 1_000_000) * 1000
        },
{
    if iv.months != 0 || iv.days < 0 || iv.microseconds < 0 {
        return None;
    }
    let micros_u: u64 = iv.microseconds as u64;
    let secs: u64 = (iv.days as u64) * 86400 + micros_u / 1_000_000;
    let nanos: u32 = ((micros_u % 1_000_000) as u32) * 1000;
    proof {
        lemma_fundamental_div_mod(iv.microseconds as int, 1_000_000);
    }
    Some(Dur { secs: secs as i64, nanos: nanos as i32 })
}

/// Round trip, starting from the split: a duration of exactly `days` whole
/// days plus `micros` sub-day microseconds decomposes back into exactly that
/// split. Together with the exactness clause of [`duration_to_interval`],
/// this pins the decomposition on every representable split.
pub proof fn lemma_duration_interval_round_trip(days: int, micros: int)
    requires
        0 <= days <= i32::MAX,
        0 <= micros < 86_400_000_000,
    ensures
        ({
            let secs = days * 86400 + micros / 1_000_000;
            let nanos = (micros % 1_000_000) * 1000;
            &&& secs / 86400 == days
            &&& (secs % 86400) * 1_000_000 + nanos / 1000 == micros
        }),
{
    let secs = days * 86400 + micros / 1_000_000;
    let nanos = (micros % 1_000_000) * 1000;
    lemma_fundamental_div_mod(micros, 1_000_000);
    assert(0 <= micros / 1_000_000 < 86400);
    lemma_fundamental_div_mod_converse(secs, 86400, days, micros / 1_000_000);
    assert(nanos / 1000 == micros % 1_000_000) by {
        lemma_fundamental_div_mod_converse(nanos, 1000, micros % 1_000_000, 0);
    }
}

/// Round trip, starting from the duration: recomposing the split that a
/// microsecond-aligned duration decomposes to yields the duration unchanged.
pub proof fn lemma_interval_duration_round_trip(d: Dur)
    requires
        d.wf(),
        d.nanos % 1000 == 0,
        d.secs / 86400 <= i32::MAX,
    ensures
        ({
            let days = d.secs / 86400;
            let micros = (d.secs % 86400) * 1_000_000 + d.nanos / 1000;
            &&& days * 86400 + micros / 1_000_000 == d.secs
            &&& (micros % 1_000_000) * 1000 == d.nanos
        }),
{
    let days: int = d.secs as int / 86400;
    let rem: int = d.secs as int % 86400;
    let micros: int = rem * 1_000_000 + d.nanos as int / 1000;
    lemma_fundamental_div_mod(d.secs as int, 86400);
    lemma_fundamental_div_mod(d.nanos as int, 1000);
    assert(0 <= d.nanos as int / 1000 < 1_000_000);
    lemma_fundamental_div_mod_converse(micros, 1_000_000, rem, d.nanos as int / 1000);
}

} // verus!

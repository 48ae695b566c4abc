//! Calendar instants and the tick timeline.
//!
//! The simulation year is a non-leap year.  An instant is a month, a day
//! and a time of day counted in whole milliseconds; every instant maps to
//! a unique offset in milliseconds from the start of the year, which gives
//! the timeline its total order.  A run's resolution is `n` ticks per hour,
//! so consecutive ticks are `3_600_000 / n` milliseconds apart; only
//! resolutions that divide the hour exactly are representable on this
//! integer timeline.

use vstd::prelude::*;
use vstd::arithmetic::div_mod::{
    lemma_fundamental_div_mod, lemma_fundamental_div_mod_converse,
    lemma_mod_division_less_than_divisor,
};
use vstd::arithmetic::mul::lemma_mul_inequality;

verus! {

/// Milliseconds in one hour.
pub const MS_PER_HOUR: u64 = 3_600_000;

/// Milliseconds in one day.
pub const MS_PER_DAY: u64 = 86_400_000;

/// Milliseconds in the whole (non-leap) simulation year.
pub const MS_PER_YEAR: u64 = 365 * 86_400_000;

/// A calendar point: month, day and time of day in milliseconds.
#[derive(Clone, Copy, PartialEq, Eq, Structural, Debug)]
pub struct Instant {
    pub month: u8,
    pub day: u8,
    /// Milliseconds since midnight, below `MS_PER_DAY`.
    pub msec: u32,
}

/// Days in each month of the (non-leap) simulation year.
pub open spec fn spec_days_in_month(m: int) -> int {
    if m == 1 { 31 }
    else if m == 2 { 28 }
    else if m == 3 { 31 }
    else if m == 4 { 30 }
    else if m == 5 { 31 }
    else if m == 6 { 30 }
    else if m == 7 { 31 }
    else if m == 8 { 31 }
    else if m == 9 { 30 }
    else if m == 10 { 31 }
    else if m == 11 { 30 }
    else { 31 }
}

/// Days of the year that pass before month `m` begins.
pub open spec fn spec_month_offset(m: int) -> int {
    if m == 1 { 0 }
    else if m == 2 { 31 }
    else if m == 3 { 59 }
    else if m == 4 { 90 }
    else if m == 5 { 120 }
    else if m == 6 { 151 }
    else if m == 7 { 181 }
    else if m == 8 { 212 }
    else if m == 9 { 243 }
    else if m == 10 { 273 }
    else if m == 11 { 304 }
    else { 334 }
}

/// The month that contains day-of-year `doy` (1 to 365).
pub open spec fn spec_month_of_doy(doy: int) -> int {
    if doy <= 31 { 1 }
    else if doy <= 59 { 2 }
    else if doy <= 90 { 3 }
    else if doy <= 120 { 4 }
    else if doy <= 151 { 5 }
    else if doy <= 181 { 6 }
    else if doy <= 212 { 7 }
    else if doy <= 243 { 8 }
    else if doy <= 273 { 9 }
    else if doy <= 304 { 10 }
    else if doy <= 334 { 11 }
    else { 12 }
}

/// A well-formed instant: a real calendar day and a time below one day.
pub open spec fn instant_wf(i: Instant) -> bool {
    &&& 1 <= i.month <= 12
    &&& 1 <= i.day <= spec_days_in_month(i.month as int)
    &&& (i.msec as int) < (MS_PER_DAY as int)
}

/// Offset of an instant from the start of the year, in milliseconds.
pub open spec fn spec_total_ms(i: Instant) -> int {
    (spec_month_offset(i.month as int) + i.day - 1) * (MS_PER_DAY as int) + i.msec
}

/// The instant at offset `t` milliseconds from the start of the year.
pub open spec fn spec_instant_of_total(t: int) -> Instant {
    let doy = t / (MS_PER_DAY as int) + 1;
    let m = spec_month_of_doy(doy);
    Instant {
        month: m as u8,
        day: (doy - spec_month_offset(m)) as u8,
        msec: (t % (MS_PER_DAY as int)) as u32,
    }
}

/// `a` is strictly later than `b` on the timeline.
pub open spec fn spec_is_later(a: Instant, b: Instant) -> bool {
    spec_total_ms(a) > spec_total_ms(b)
}

/// Days of the year that pass before `month` begins.
pub fn month_offset(month: u8) -> (off: u16)
    requires
        1 <= month <= 12,
    ensures
        off as int == spec_month_offset(month as int),
{
    if month == 1 { 0 }
    else if month == 2 { 31 }
    else if month == 3 { 59 }
    else if month == 4 { 90 }
    else if month == 5 { 120 }
    else if month == 6 { 151 }
    else if month == 7 { 181 }
    else if month == 8 { 212 }
    else if month == 9 { 243 }
    else if month == 10 { 273 }
    else if month == 11 { 304 }
    else { 334 }
}

/// The month that contains day-of-year `doy`.
pub fn month_of_doy(doy: u16) -> (m: u8)
    requires
        1 <= doy <= 365,
    ensures
        m as int == spec_month_of_doy(doy as int),
{
    if doy <= 31 { 1 }
    else if doy <= 59 { 2 }
    else if doy <= 90 { 3 }
    else if doy <= 120 { 4 }
    else if doy <= 151 { 5 }
    else if doy <= 181 { 6 }
    else if doy <= 212 { 7 }
    else if doy <= 243 { 8 }
    else if doy <= 273 { 9 }
    else if doy <= 304 { 10 }
    else if doy <= 334 { 11 }
    else { 12 }
}

/// Offset of a well-formed instant from the start of the year.
pub fn total_ms(i: Instant) -> (t: u64)
    requires
        instant_wf(i),
    ensures
        t as int == spec_total_ms(i),
        t < MS_PER_YEAR,
{
    let off = month_offset(i.month);
    (off as u64 + (i.day - 1) as u64) * MS_PER_DAY + i.msec as u64
}

/// The well-formed instant at offset `t` from the start of the year.
pub fn instant_from_total(t: u64) -> (i: Instant)
    requires
        t < MS_PER_YEAR,
    ensures
        i == spec_instant_of_total(t as int),
        instant_wf(i),
        spec_total_ms(i) == t as int,
{
    proof {
        lemma_fundamental_div_mod(t as int, MS_PER_DAY as int);
        lemma_total_of_instant_of_total(t as int);
    }
    let day_index = (t / MS_PER_DAY) as u16;
    let msec = (t % MS_PER_DAY) as u32;
    let doy = day_index + 1;
    let month = month_of_doy(doy);
    let day = (doy - month_offset(month)) as u8;
    Instant { month, day, msec }
}

/// The instant at offset `t` is well formed, and lies back at offset `t`.
pub proof fn lemma_total_of_instant_of_total(t: int)
    requires
        0 <= t < MS_PER_YEAR as int,
    ensures
        instant_wf(spec_instant_of_total(t)),
        spec_total_ms(spec_instant_of_total(t)) == t,
{
    lemma_fundamental_div_mod(t, MS_PER_DAY as int);
}

/// A well-formed instant is recovered from its own offset.
pub proof fn lemma_instant_of_total_of_instant(i: Instant)
    requires
        instant_wf(i),
    ensures
        0 <= spec_total_ms(i) < MS_PER_YEAR as int,
        spec_instant_of_total(spec_total_ms(i)) == i,
{
    let q = spec_month_offset(i.month as int) + i.day - 1;
    lemma_fundamental_div_mod_converse(
        spec_total_ms(i),
        MS_PER_DAY as int,
        q,
        i.msec as int,
    );
}

impl Instant {
    /// True when `self` is strictly later than `other` on the timeline.
    pub fn is_later(&self, other: &Instant) -> (r: bool)
        requires
            instant_wf(*self),
            instant_wf(*other),
        ensures
            r == spec_is_later(*self, *other),
    {
        total_ms(*self) > total_ms(*other)
    }
}

/// A run's resolution, in ticks per hour: positive, and dividing the hour
/// exactly so that the tick spacing is a whole number of milliseconds.
pub open spec fn valid_resolution(n: int) -> bool {
    &&& 1 <= n <= MS_PER_HOUR as int
    &&& (MS_PER_HOUR as int) % n == 0
}

/// Milliseconds between consecutive ticks at resolution `n`.
pub open spec fn spec_dt_ms(n: int) -> int {
    (MS_PER_HOUR as int) / n
}

/// How many ticks lie in `[start, end)` at resolution `n`: zero when the
/// range is empty or inverted, else the span divided by the tick spacing,
/// rounded up.
pub open spec fn spec_tick_count(start: Instant, end: Instant, n: int) -> int {
    let s = spec_total_ms(start);
    let e = spec_total_ms(end);
    if e <= s {
        0
    } else {
        (e - s + spec_dt_ms(n) - 1) / spec_dt_ms(n)
    }
}

/// The instant of tick `k` of a run beginning at `start` with resolution `n`.
pub open spec fn spec_tick_instant(start: Instant, n: int, k: int) -> Instant {
    spec_instant_of_total(spec_total_ms(start) + k * spec_dt_ms(n))
}

/// Milliseconds between consecutive ticks at resolution `n`.
pub fn dt_ms(n: usize) -> (dt: u64)
    requires
        valid_resolution(n as int),
    ensures
        dt as int == spec_dt_ms(n as int),
        1 <= dt <= MS_PER_HOUR,
        dt as int * n as int == MS_PER_HOUR as int,
{
    proof {
        lemma_spec_dt_ms_bounds(n as int);
    }
    MS_PER_HOUR / (n as u64)
}

/// At a valid resolution the tick spacing is a whole, positive number of
/// milliseconds, and `n` spacings make exactly one hour.
pub proof fn lemma_spec_dt_ms_bounds(n: int)
    requires
        valid_resolution(n),
    ensures
        1 <= spec_dt_ms(n) <= MS_PER_HOUR as int,
        spec_dt_ms(n) * n == MS_PER_HOUR as int,
{
    lemma_fundamental_div_mod(MS_PER_HOUR as int, n);
    let d = spec_dt_ms(n);
    assert(n * d == MS_PER_HOUR as int);
    assert(d * n == MS_PER_HOUR as int) by (nonlinear_arith)
        requires n * d == MS_PER_HOUR as int;
    assert(1 <= d <= MS_PER_HOUR as int) by (nonlinear_arith)
        requires
            n * d == MS_PER_HOUR as int,
            1 <= n <= MS_PER_HOUR as int;
}

/// The tick spacing divides the span `[start, end)` into
/// `spec_tick_count(start, end, n)` ticks: that many spacings cover the
/// span, and one fewer does not.
pub proof fn lemma_tick_count_bounds(start: Instant, end: Instant, n: int)
    requires
        instant_wf(start),
        instant_wf(end),
        valid_resolution(n),
        spec_total_ms(start) < spec_total_ms(end),
    ensures
        spec_tick_count(start, end, n) >= 1,
        spec_tick_count(start, end, n) * spec_dt_ms(n)
            >= spec_total_ms(end) - spec_total_ms(start),
        (spec_tick_count(start, end, n) - 1) * spec_dt_ms(n)
            < spec_total_ms(end) - spec_total_ms(start),
{
    let s = spec_total_ms(start);
    let e = spec_total_ms(end);
    let d = spec_dt_ms(n);
    let c = spec_tick_count(start, end, n);
    let span = e - s;
    lemma_spec_dt_ms_bounds(n);
    lemma_fundamental_div_mod(span + d - 1, d);
    lemma_mod_division_less_than_divisor(span + d - 1, d);
    let r = (span + d - 1) % d;
    assert(span + d - 1 == d * c + r);
    assert(d * c >= span);
    assert(c >= 1) by (nonlinear_arith)
        requires d >= 1 && d * c >= span && span >= 1;
    assert(c * d >= span) by (nonlinear_arith)
        requires d * c >= span;
    assert((c - 1) * d < span) by (nonlinear_arith)
        requires d * c == span + d - 1 - r && r >= 0;
}

/// Every tick of a run lies on the timeline at `start` plus `k` spacings,
/// strictly before `end`; tick 0 is `start` itself.  This is the
/// chronology of the result log: strictly increasing instants with
/// constant spacing.
pub proof fn lemma_tick_chronology(start: Instant, end: Instant, n: int, k: int)
    requires
        instant_wf(start),
        instant_wf(end),
        valid_resolution(n),
        spec_total_ms(start) < spec_total_ms(end),
        0 <= k < spec_tick_count(start, end, n),
    ensures
        instant_wf(spec_tick_instant(start, n, k)),
        spec_total_ms(spec_tick_instant(start, n, k))
            == spec_total_ms(start) + k * spec_dt_ms(n),
        spec_total_ms(spec_tick_instant(start, n, k)) < spec_total_ms(end),
        k == 0 ==> spec_tick_instant(start, n, k) == start,
{
    let s = spec_total_ms(start);
    let e = spec_total_ms(end);
    let d = spec_dt_ms(n);
    let c = spec_tick_count(start, end, n);
    lemma_spec_dt_ms_bounds(n);
    lemma_tick_count_bounds(start, end, n);
    lemma_mul_inequality(k, c - 1, d);
    assert(k * d <= (c - 1) * d);
    assert(k * d >= 0) by (nonlinear_arith)
        requires k >= 0 && d >= 1;
    lemma_total_of_instant_of_total(s + k * d);
    if k == 0 {
        assert(s + 0 * d == s);
        lemma_instant_of_total_of_instant(start);
    }
}

} // verus!

//! The timestamp scheduler: a number of instants spread evenly over a window
//! of time.
//!
//! For a window from `start` to `end` and a count `n > 0`, the interval is
//! the `n`-th part of the window in whole nanoseconds, rounded towards zero,
//! and the instant of index `i` is `start + interval * i`. The schedule is a
//! function of `start`, `end` and `n` alone.

use crate::time::{representable, Instant, Span};
use vstd::arithmetic::div_mod::lemma_fundamental_div_mod;
use vstd::prelude::*;

verus! {

/// The interval between two instants of a schedule of `count` instants over
/// the window from `start` to `end`: the `count`-th part of the window,
/// rounded towards zero. A window that runs backwards has a negative
/// interval.
pub open spec fn interval_between(start: int, end: int, count: int) -> int {
    if start <= end {
        (end - start) / count
    } else {
        -((start - end) / count)
    }
}

/// The instant of index `index` in the schedule that begins at `start` and
/// steps by `interval`.
pub open spec fn scheduled_nanos(start: int, interval: int, index: int) -> int {
    start + interval * index
}

/// Whether the `count` instants of a schedule can all be held: its last one
/// can, and with it those before.
pub open spec fn schedule_fits(start: int, interval: int, count: int) -> bool {
    count > 0 ==> representable(scheduled_nanos(start, interval, count - 1))
}

/// Whether `timestamps` is the schedule of `count` instants over the window
/// from `start` to `end`.
pub open spec fn is_schedule(timestamps: Seq<Instant>, start: Instant, end: Instant, count: int) -> bool {
    &&& timestamps.len() == count
    &&& forall|i: int|
        0 <= i < count ==> (#[trigger] timestamps[i])@ == scheduled_nanos(
            start@,
            interval_between(start@, end@, count),
            i,
        )
}

/// Some of the parts of a whole do not exceed the whole: the `count`-th part
/// of `total`, taken `index` times, lies between 0 and `total`, and below
/// `total` where not all parts are taken.
proof fn lemma_part_of_quotient(total: int, count: int, index: int)
    requires
        0 <= total,
        0 < count,
        0 <= index <= count,
    ensures
        0 <= total / count,
        0 <= (total / count) * index <= total,
        index < count && total > 0 ==> (total / count) * index < total,
{
    let q = total / count;
    lemma_fundamental_div_mod(total, count);
    assert(total == count * q + total % count);
    assert(0 <= q) by (nonlinear_arith)
        requires
            total == count * q + total % count,
            0 <= total % count < count,
            0 <= total,
            0 < count,
    ;
    assert(0 <= q * index <= q * count) by (nonlinear_arith)
        requires
            0 <= q,
            0 <= index <= count,
    ;
    assert(q * count == count * q) by (nonlinear_arith);
    if index < count && total > 0 {
        if q > 0 {
            assert(q * index <= q * count - q) by (nonlinear_arith)
                requires
                    0 < q,
                    0 <= index < count,
            ;
        } else {
            assert(q * index == 0) by (nonlinear_arith)
                requires
                    q == 0,
            ;
        }
    }
}

/// The schedule begins at the start of the window.
pub proof fn lemma_schedule_begins_at_start(start: int, interval: int)
    ensures
        scheduled_nanos(start, interval, 0) == start,
{
}

/// The instants of a schedule whose interval is not negative come in the
/// order of their indices.
pub proof fn lemma_schedule_is_non_decreasing(start: int, interval: int, i: int, j: int)
    requires
        0 <= interval,
        i <= j,
    ensures
        scheduled_nanos(start, interval, i) <= scheduled_nanos(start, interval, j),
{
    assert(interval * i <= interval * j) by (nonlinear_arith)
        requires
            0 <= interval,
            i <= j,
    ;
}

/// Every instant of the schedule over a window lies in the window: between
/// `start` and `end`, whichever way the window runs. Over a window that runs
/// forwards the interval is not negative, and where such a window is not
/// empty, every instant comes before `end`.
pub proof fn lemma_schedule_stays_in_window(start: int, end: int, count: int, index: int)
    requires
        0 < count,
        0 <= index < count,
    ensures
        start <= end ==> 0 <= interval_between(start, end, count),
        start <= end ==> start <= scheduled_nanos(
            start,
            interval_between(start, end, count),
            index,
        ) <= end,
        start < end ==> scheduled_nanos(start, interval_between(start, end, count), index) < end,
        end <= start ==> end <= scheduled_nanos(
            start,
            interval_between(start, end, count),
            index,
        ) <= start,
{
    if start <= end {
        lemma_part_of_quotient(end - start, count, index);
    } else {
        let q = (start - end) / count;
        lemma_part_of_quotient(start - end, count, index);
        assert((-q) * index == -(q * index)) by (nonlinear_arith);
    }
}

/// The schedule over a window between two instants fits: each of its
/// instants can be held.
pub proof fn lemma_window_schedule_fits(start: Instant, end: Instant, count: int)
    requires
        0 < count,
    ensures
        schedule_fits(start@, interval_between(start@, end@, count), count),
{
    lemma_schedule_stays_in_window(start@, end@, count, count - 1);
}

/// Where the last instant of a schedule can be held, each one can.
pub proof fn lemma_fitting_schedule_is_representable(
    start: Instant,
    interval: int,
    count: int,
    index: int,
)
    requires
        schedule_fits(start@, interval, count),
        0 <= index < count,
    ensures
        representable(scheduled_nanos(start@, interval, index)),
{
    let last = count - 1;
    if interval >= 0 {
        assert(0 <= interval * index <= interval * last) by (nonlinear_arith)
            requires
                0 <= interval,
                0 <= index <= last,
        ;
    } else {
        assert(interval * last <= interval * index <= 0) by (nonlinear_arith)
            requires
                interval < 0,
                0 <= index <= last,
        ;
    }
}

/// The schedule is a function of the window and the count: two schedules of
/// the same window and count hold the same instants, index by index.
pub proof fn lemma_schedule_is_deterministic(
    first: Seq<Instant>,
    second: Seq<Instant>,
    start: Instant,
    end: Instant,
    count: int,
)
    requires
        is_schedule(first, start, end, count),
        is_schedule(second, start, end, count),
    ensures
        first == second,
{
    assert forall|i: int| 0 <= i < count implies first[i] == second[i] by {
        assert(first[i]@ == second[i]@);
    }
    assert(first =~= second);
}

/// The interval of the schedule of `log_count` instants over the window from
/// `start` to `end`.
pub fn interval_per_log(start: Instant, end: Instant, log_count: u64) -> (interval: Span)
    requires
        log_count > 0,
    ensures
        interval@ == interval_between(start@, end@, log_count as int),
{
    let count: i128 = log_count as i128;
    let window: i128 = start.span_until(end).nanos();
    if window >= 0 {
        Span::from_nanos(window / count)
    } else {
        Span::from_nanos(-((-window) / count))
    }
}

/// The instant of index `counter` in the schedule that begins at `start` and
/// steps by `interval`.
pub fn scheduled_timestamp(start: Instant, interval: Span, counter: u64) -> (timestamp: Instant)
    requires
        representable(scheduled_nanos(start@, interval@, counter as int)),
    ensures
        timestamp@ == scheduled_nanos(start@, interval@, counter as int),
{
    let offset: i128 = interval.nanos * (counter as i128);
    Instant { unix_nanos: ((start.unix_nanos as i128) + offset) as i64 }
}

/// Whether the schedule of `log_count` instants that begins at `start` and
/// steps by `interval` fits.
pub fn schedule_is_representable(start: Instant, interval: Span, log_count: u64) -> (fits: bool)
    ensures
        fits == schedule_fits(start@, interval@, log_count as int),
{
    if log_count == 0 {
        return true;
    }
    let last: i128 = (log_count - 1) as i128;
    match interval.nanos.checked_mul(last) {
        Some(offset) => match (start.unix_nanos as i128).checked_add(offset) {
            Some(nanos) => (i64::MIN as i128) <= nanos && nanos <= (i64::MAX as i128),
            None => false,
        },
        None => false,
    }
}

/// The schedule of `log_count` instants over the window from `start` to
/// `end`. No instant is computed where `log_count` is 0.
pub fn timestamp_schedule(start: Instant, end: Instant, log_count: u64) -> (timestamps: Vec<Instant>)
    ensures
        is_schedule(timestamps@, start, end, log_count as int),
{
    let mut timestamps: Vec<Instant> = Vec::new();
    if log_count == 0 {
        return timestamps;
    }
    let interval = interval_per_log(start, end, log_count);
    let mut counter: u64 = 0;
    while counter < log_count
        invariant
            0 < log_count,
            counter <= log_count,
            interval@ == interval_between(start@, end@, log_count as int),
            timestamps@.len() == counter,
            forall|i: int|
                0 <= i < counter ==> (#[trigger] timestamps@[i])@ == scheduled_nanos(
                    start@,
                    interval@,
                    i,
                ),
        decreases log_count - counter,
    {
        proof {
            lemma_schedule_stays_in_window(start@, end@, log_count as int, counter as int);
        }
        timestamps.push(scheduled_timestamp(start, interval, counter));
        counter = counter + 1;
    }
    timestamps
}

} // verus!

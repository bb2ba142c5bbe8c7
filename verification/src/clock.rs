//! Monotonic clock with clock skew detection.
//!
//! The clock keeps the last timestamp it handed out. A reading below that one is not handed
//! out: the caller waits out the difference and reads again, or, where the difference is above
//! `MAX_CLOCK_SKEW`, gives up.
use vstd::prelude::*;

verus! {

/// Largest clock skew, in milliseconds, that is waited out.
pub const MAX_CLOCK_SKEW: i64 = 5000;

/// What to do with one reading of the wall clock.
#[derive(Debug, Clone, Copy, PartialEq, Eq, Structural)]
pub enum ClockStep {
    /// Hand out this timestamp and record it as the last one.
    Accept(i64),
    /// The reading is this many milliseconds behind the last timestamp: wait that long and
    /// read again.
    Wait(i64),
    /// The reading is this many milliseconds behind the last timestamp, more than
    /// `MAX_CLOCK_SKEW`: clock skew detected.
    Skew(i64),
}

/// The step that a reading `now` calls for, when `last` is the last timestamp handed out.
pub open spec fn clock_step(now: int, last: int) -> ClockStep {
    if now < last {
        if last - now > MAX_CLOCK_SKEW {
            ClockStep::Skew((last - now) as i64)
        } else {
            ClockStep::Wait((last - now) as i64)
        }
    } else {
        ClockStep::Accept(now as i64)
    }
}

/// Decides what to do with the reading `now` of the wall clock, in milliseconds, when `last`
/// is the last timestamp handed out.
pub fn check_reading(now: i64, last: i64) -> (step: ClockStep)
    requires
        now < last ==> last - now <= i64::MAX,
    ensures
        step == clock_step(now as int, last as int),
        now >= last ==> step == ClockStep::Accept(now),
        now < last && last - now <= MAX_CLOCK_SKEW ==> step == ClockStep::Wait(
            (last - now) as i64,
        ),
        now < last && last - now > MAX_CLOCK_SKEW ==> step == ClockStep::Skew(
            (last - now) as i64,
        ),
{
    if now < last {
        let skew = last - now;
        if skew > MAX_CLOCK_SKEW {
            return ClockStep::Skew(skew);
        }
        return ClockStep::Wait(skew);
    }
    let next = if now > last {
        now
    } else {
        last
    };
    ClockStep::Accept(next)
}

/// A reading is handed out exactly where it is not behind the last timestamp; one behind by at
/// most `MAX_CLOCK_SKEW` is waited out for exactly the difference, and only a larger
/// difference is reported as clock skew.
pub proof fn lemma_clock_step_cases(now: int, last: int)
    requires
        i64::MIN <= now <= i64::MAX,
        i64::MIN <= last <= i64::MAX,
        now < last ==> last - now <= i64::MAX,
    ensures
        clock_step(now, last) is Accept <==> now >= last,
        clock_step(now, last) is Accept ==> clock_step(now, last)->Accept_0 == now,
        clock_step(now, last) is Wait <==> now < last && last - now <= MAX_CLOCK_SKEW,
        clock_step(now, last) is Wait ==> clock_step(now, last)->Wait_0 == last - now,
        clock_step(now, last) is Skew <==> last - now > MAX_CLOCK_SKEW,
        clock_step(now, last) is Skew ==> clock_step(now, last)->Skew_0 == last - now,
{
}

/// Feeds the readings `nows` to the clock, starting from the last timestamp `last`; every
/// accepted reading becomes the last timestamp. Gives the final last timestamp and the
/// timestamps handed out, in order.
pub open spec fn clock_run(last: int, nows: Seq<i64>) -> (int, Seq<i64>)
    decreases nows.len(),
{
    if nows.len() == 0 {
        (last, Seq::empty())
    } else {
        let (before, handed_out) = clock_run(last, nows.drop_last());
        match clock_step(nows.last() as int, before) {
            ClockStep::Accept(t) => (t as int, handed_out.push(t)),
            _ => (before, handed_out),
        }
    }
}

/// The clock is monotonic: the timestamps it hands out never decrease, and none is below the
/// last timestamp it started from.
pub proof fn lemma_clock_is_monotonic(last: int, nows: Seq<i64>)
    ensures
        forall|i: int, j: int|
            0 <= i <= j < clock_run(last, nows).1.len() ==> clock_run(last, nows).1[i]
                <= clock_run(last, nows).1[j],
        forall|i: int|
            0 <= i < clock_run(last, nows).1.len() ==> last <= #[trigger] clock_run(
                last,
                nows,
            ).1[i] <= clock_run(last, nows).0,
        last <= clock_run(last, nows).0,
    decreases nows.len(),
{
    if nows.len() > 0 {
        lemma_clock_is_monotonic(last, nows.drop_last());
    }
}

/// Several callers share the last timestamp in one cell that only a compare-exchange changes.
/// Each attempt is a reading (`.0`) and the value the caller loaded from the cell (`.1`),
/// listed in the order in which the cell sees the compare-exchanges. An attempt hands out its
/// reading only where that reading is accepted against the loaded value and the cell still
/// holds that value, and the cell then takes the reading. Gives the final cell and the
/// timestamps handed out, in order.
pub open spec fn shared_clock_run(cell: int, attempts: Seq<(i64, i64)>) -> (int, Seq<i64>)
    decreases attempts.len(),
{
    if attempts.len() == 0 {
        (cell, Seq::empty())
    } else {
        let (before, handed_out) = shared_clock_run(cell, attempts.drop_last());
        let (now, loaded) = attempts.last();
        match clock_step(now as int, loaded as int) {
            ClockStep::Accept(t) => if loaded as int == before {
                (t as int, handed_out.push(t))
            } else {
                (before, handed_out)
            },
            _ => (before, handed_out),
        }
    }
}

/// The clock stays monotonic when shared: whatever readings the callers make and whatever
/// stale values they load, the timestamps handed out through the compare-exchange never
/// decrease, and none is below the cell's starting value.
pub proof fn lemma_shared_clock_is_monotonic(cell: int, attempts: Seq<(i64, i64)>)
    ensures
        forall|i: int, j: int|
            0 <= i <= j < shared_clock_run(cell, attempts).1.len() ==> shared_clock_run(
                cell,
                attempts,
            ).1[i] <= shared_clock_run(cell, attempts).1[j],
        forall|i: int|
            0 <= i < shared_clock_run(cell, attempts).1.len() ==> cell <= #[trigger] shared_clock_run(
                cell,
                attempts,
            ).1[i] <= shared_clock_run(cell, attempts).0,
        cell <= shared_clock_run(cell, attempts).0,
    decreases attempts.len(),
{
    if attempts.len() > 0 {
        lemma_shared_clock_is_monotonic(cell, attempts.drop_last());
    }
}

} // verus!

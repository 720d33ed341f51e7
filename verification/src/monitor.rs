//! The panel's status bookkeeping: fan averages, bounded metric histories
//! and the sampling interval's bounds.

use crate::liquidctl::Fan;
use std::collections::VecDeque;
use vstd::prelude::*;

verus! {

/// Trailing window of samples fed to the panel button's sparkline.
pub const PANEL_SPARK_SAMPLES: usize = 60;

/// Largest number of samples any metric history keeps (~15 min at 1 s).
pub const HISTORY_CAP: usize = 900;

pub const MIN_INTERVAL_MS: u64 = 1000;

pub const MAX_INTERVAL_MS: u64 = 10000;

/// Sum of the fans' duties.
pub open spec fn duty_sum(fans: Seq<Fan>) -> nat
    decreases fans.len(),
{
    if fans.len() == 0 {
        0
    } else {
        duty_sum(fans.drop_last()) + fans.last().duty_pct as nat
    }
}

/// Sum of the fans' speeds.
pub open spec fn speed_sum(fans: Seq<Fan>) -> nat
    decreases fans.len(),
{
    if fans.len() == 0 {
        0
    } else {
        speed_sum(fans.drop_last()) + fans.last().speed_rpm as nat
    }
}

proof fn lemma_duty_sum_bound(fans: Seq<Fan>)
    ensures
        duty_sum(fans) <= 255 * fans.len(),
    decreases fans.len(),
{
    if fans.len() > 0 {
        lemma_duty_sum_bound(fans.drop_last());
    }
}

proof fn lemma_speed_sum_bound(fans: Seq<Fan>)
    ensures
        speed_sum(fans) <= 0xffff_ffff * fans.len(),
    decreases fans.len(),
{
    if fans.len() > 0 {
        lemma_speed_sum_bound(fans.drop_last());
    }
}

/// Mean fan duty, truncated toward zero; `None` when no fan reports.
pub fn fan_duty_avg(fans: &[Fan]) -> (r: Option<u8>)
    requires
        fans@.len() <= 0xffff_ffffnat / 255,
    ensures
        fans@.len() == 0 ==> r is None,
        fans@.len() > 0 ==> r == Some((duty_sum(fans@) / fans@.len()) as u8),
        r matches Some(avg) ==> avg as nat == duty_sum(fans@) / fans@.len(),
{
    if fans.len() == 0 {
        return None;
    }
    let mut sum: u32 = 0;
    for i in 0..fans.len()
        invariant
            fans@.len() <= 0xffff_ffffnat / 255,
            sum as nat == duty_sum(fans@.take(i as int)),
    {
        proof {
            assert(fans@.take(i + 1).drop_last() =~= fans@.take(i as int));
            lemma_duty_sum_bound(fans@.take(i + 1));
        }
        sum = sum + fans[i].duty_pct as u32;
    }
    assert(fans@.take(fans@.len() as int) =~= fans@);
    proof {
        lemma_duty_sum_bound(fans@);
        assert(duty_sum(fans@) / fans@.len() <= 255) by (nonlinear_arith)
            requires
                duty_sum(fans@) <= 255 * fans@.len(),
                fans@.len() > 0,
        ;
    }
    Some((sum / fans.len() as u32) as u8)
}

/// Mean fan speed rounded to the nearest rpm (halves round up);
/// `None` when no fan reports.
pub fn fan_speed_avg(fans: &[Fan]) -> (r: Option<u32>)
    requires
        fans@.len() <= 0xffff_ffff,
    ensures
        fans@.len() == 0 ==> r is None,
        fans@.len() > 0 ==> r == Some(
            ((speed_sum(fans@) + fans@.len() / 2) / fans@.len()) as u32,
        ),
        r matches Some(avg) ==> avg as nat == (speed_sum(fans@) + fans@.len() / 2)
            / fans@.len(),
{
    if fans.len() == 0 {
        return None;
    }
    let mut sum: u64 = 0;
    for i in 0..fans.len()
        invariant
            fans@.len() <= 0xffff_ffff,
            sum as nat == speed_sum(fans@.take(i as int)),
    {
        proof {
            assert(fans@.take(i + 1).drop_last() =~= fans@.take(i as int));
            lemma_speed_sum_bound(fans@.take(i + 1));
            assert(0xffff_ffff * (i + 1) <= 0xffff_ffff * 0xffff_ffff) by (nonlinear_arith)
                requires
                    i + 1 <= 0xffff_ffff,
            ;
        }
        sum = sum + fans[i].speed_rpm as u64;
    }
    assert(fans@.take(fans@.len() as int) =~= fans@);
    let len: u64 = fans.len() as u64;
    proof {
        lemma_speed_sum_bound(fans@);
        assert(0xffff_ffff * len <= 0xffff_ffff * 0xffff_ffff) by (nonlinear_arith)
            requires
                len <= 0xffff_ffff,
        ;
        assert((speed_sum(fans@) + len / 2) / (len as int) <= 0xffff_ffff) by (nonlinear_arith)
            requires
                speed_sum(fans@) <= 0xffff_ffff * len,
                len > 0,
        ;
    }
    Some(((sum + len / 2) / len) as u32)
}

/// The history after appending `value` to `old`: the last `HISTORY_CAP`
/// samples of `old` followed by `value`, oldest first.
pub open spec fn spec_push_capped<T>(old: Seq<T>, value: T) -> Seq<T> {
    let s = old.push(value);
    if s.len() > HISTORY_CAP {
        s.skip(s.len() - HISTORY_CAP)
    } else {
        s
    }
}

/// Push a new sample onto a metric history, evicting from the front to keep
/// the buffer bounded at `HISTORY_CAP`.
pub fn push_capped<T>(buf: &mut VecDeque<T>, value: T)
    ensures
        final(buf)@ == spec_push_capped(old(buf)@, value),
{
    let ghost s = old(buf)@.push(value);
    buf.push_back(value);
    while buf.len() > HISTORY_CAP
        invariant
            buf@.len() <= s.len(),
            buf@.len() == s.len() || buf@.len() >= HISTORY_CAP,
            buf@ == s.skip(s.len() - buf@.len()),
        decreases buf@.len(),
    {
        let ghost before = buf@;
        let _ = buf.pop_front();
        assert(buf@ =~= s.skip(s.len() - buf@.len()));
    }
    assert(s.skip(0) =~= s);
}

/// The polling interval actually used for a configured one.
pub open spec fn spec_poll_interval_ms(configured: u64) -> u64 {
    if configured < MIN_INTERVAL_MS {
        MIN_INTERVAL_MS
    } else if configured > MAX_INTERVAL_MS {
        MAX_INTERVAL_MS
    } else {
        configured
    }
}

/// The configured sampling interval, held to `[MIN_INTERVAL_MS, MAX_INTERVAL_MS]`.
pub fn poll_interval_ms(configured: u64) -> (r: u64)
    ensures
        r == spec_poll_interval_ms(configured),
{
    if configured < MIN_INTERVAL_MS {
        MIN_INTERVAL_MS
    } else if configured > MAX_INTERVAL_MS {
        MAX_INTERVAL_MS
    } else {
        configured
    }
}

/// Every history stays within `HISTORY_CAP` samples, always ends with the
/// newest sample, and keeps the most recent ones in order.
pub proof fn lemma_history_bounded<T>(old: Seq<T>, value: T)
    ensures
        spec_push_capped(old, value).len() <= HISTORY_CAP,
        spec_push_capped(old, value).last() == value,
        old.len() < HISTORY_CAP ==> spec_push_capped(old, value) == old.push(value),
        forall|i: int|
            0 <= i < spec_push_capped(old, value).len() - 1 ==> #[trigger] spec_push_capped(
                old,
                value,
            )[i] == old[old.len() + 1 - spec_push_capped(old, value).len() + i],
{
}

} // verus!

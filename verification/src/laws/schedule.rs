//! Laws of the schedule.

use vstd::arithmetic::power2::{lemma2_to64, pow2};
use vstd::prelude::*;
use crate::clock::Moment;
use crate::sync::{due, failures_after, scheduled, SyncState};

verus! {

/// How often the interval is doubled after so many failures.
pub open spec fn doublings(failures: int) -> int {
    if failures <= 0 {
        1
    } else if failures == 1 {
        2
    } else if failures == 2 {
        4
    } else if failures == 3 {
        8
    } else if failures == 4 {
        16
    } else {
        32
    }
}

/// A success forgets the failures, and a failure counts one more, up to five.
pub proof fn how_failures_are_counted(failures: u8)
    ensures
        failures_after(failures, true) == 0,
        failures < 5 ==> failures_after(failures, false) == failures + 1,
        failures >= 5 ==> failures_after(failures, false) == 5,
{
}

/// A number as far as 64 bits hold it.
pub open spec fn held_in_64_bits(n: int) -> int {
    if n > 0xffff_ffff_ffff_ffff {
        0xffff_ffff_ffff_ffff
    } else {
        n
    }
}

/// The delay before the next fetch: after a success the interval, ten seconds at least, and
/// after failures in a row twice that for each of them, five minutes at most; so many percent of
/// it, and eight seconds at least.
pub open spec fn pause(interval: u64, failures: int, success: bool, percent: int) -> int {
    let kept = if interval < 10 {
        10int
    } else {
        interval as int
    };
    let doubled = kept * doublings(failures);
    let base = if success {
        kept
    } else if doubled > 300 {
        300
    } else {
        doubled
    };
    let spread = held_in_64_bits(base * percent) / 100;
    if spread < 8 {
        8
    } else {
        spread
    }
}

/// When the next fetch is due: after the interval where the last one was a success, after twice
/// that for each failure in a row otherwise, spread by 80 to 120 percent by the nanoseconds of the
/// clock, and not at all where the clock stands before the epoch.
pub proof fn when_the_next_fetch_is_due(
    sync: SyncState,
    interval: u64,
    success: bool,
    s: u64,
    n: u32,
)
    requires
        sync.failures <= 5,
    ensures
        ({
            let failures = if success {
                0int
            } else if sync.failures >= 5 {
                5
            } else {
                sync.failures + 1
            };
            let after = scheduled(sync, interval, success, Moment { since_epoch: Some((s, n)) });
            let early = scheduled(sync, interval, success, Moment { since_epoch: None });
            &&& after.failures == failures
            &&& after.next_sync_at == held_in_64_bits(
                s + pause(interval, failures, success, 80 + n % 41),
            )
            &&& after.synced_at == sync.synced_at
            &&& after.in_progress == sync.in_progress
            &&& early.failures == failures
            &&& early.next_sync_at == held_in_64_bits(pause(interval, failures, success, 100))
            &&& early.synced_at == sync.synced_at
            &&& early.in_progress == sync.in_progress
        }),
{
    lemma2_to64();
    let failures = failures_after(sync.failures, success);
    assert(pow2(failures as nat) == doublings(failures as int));
    let kept = if interval < 10 {
        10int
    } else {
        interval as int
    };
    let base = if success {
        kept
    } else if kept * doublings(failures as int) > 300 {
        300
    } else {
        kept * doublings(failures as int)
    };
    let percent = 80 + n % 41;
    assert(0 <= kept * doublings(failures as int)) by (nonlinear_arith)
        requires
            0 <= kept,
            0 <= doublings(failures as int),
    ;
    assert(0 <= base * percent && 0 <= base * 100) by (nonlinear_arith)
        requires
            0 <= base,
            0 <= percent,
    ;
}

/// A fetch is due from its time on, unless one is under way.
pub proof fn when_a_fetch_is_due(sync: SyncState, now: u64)
    ensures
        due(sync, now) <==> sync.next_sync_at <= now && !sync.in_progress,
{
}

} // verus!

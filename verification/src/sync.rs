//! When the policy is fetched again.

use vstd::arithmetic::power2::{lemma2_to64, pow2};
use vstd::bits::lemma_u64_shl_is_mul;
use vstd::prelude::*;
use crate::clock::{seconds, Moment};

verus! {

/// The shortest interval between two fetches that can be asked for, in seconds.
pub const MIN_INTERVAL_SECONDS: u64 = 10;

/// The ceiling of the interval after failures, in seconds.
pub const MAX_BACKOFF_SECONDS: u64 = 300;

/// The shortest delay before the next fetch, in seconds.
pub const MIN_DELAY_SECONDS: u64 = 8;

/// The most failures that are told apart.
pub const MAX_FAILURES: u8 = 5;

/// Where the fetching of the policy stands.
#[derive(Clone, Copy, Debug)]
pub struct SyncState {
    /// When a policy was last stored, in seconds since the epoch.
    pub synced_at: u64,
    /// When the next fetch is due, in seconds since the epoch.
    pub next_sync_at: u64,
    /// The fetches that have failed in a row, as far as they are counted.
    pub failures: u8,
    /// A fetch is under way.
    pub in_progress: bool,
}

// ---------------------------------------------------------------------------
// The schedule
// ---------------------------------------------------------------------------

/// The failures in a row after one more fetch.
pub open spec fn failures_after(failures: u8, success: bool) -> u8 {
    if success {
        0
    } else if failures >= MAX_FAILURES {
        MAX_FAILURES
    } else {
        (failures + 1) as u8
    }
}

/// The interval that is kept to: the one asked for, but not too short.
pub open spec fn interval_kept(interval: u64) -> int {
    if interval < MIN_INTERVAL_SECONDS {
        MIN_INTERVAL_SECONDS as int
    } else {
        interval as int
    }
}

/// The delay before jitter: the interval after a success, the interval doubled
/// for each failure, up to a ceiling, after failures.
pub open spec fn base_delay(interval: u64, failures: u8, success: bool) -> int {
    let doubled = interval_kept(interval) * pow2(failures as nat);
    if success {
        interval_kept(interval)
    } else if doubled > MAX_BACKOFF_SECONDS {
        MAX_BACKOFF_SECONDS as int
    } else {
        doubled
    }
}

/// The jitter at `at`, in percent: 80 to 120 by the nanoseconds of the clock,
/// and 100 where the clock stands before the epoch.
pub open spec fn jitter(at: Moment) -> int {
    match at.since_epoch {
        Some(t) => 80 + t.1 % 41,
        None => 100,
    }
}

/// A number as far as 64 bits hold it.
pub open spec fn saturated(n: int) -> int {
    if n > u64::MAX {
        u64::MAX as int
    } else {
        n
    }
}

/// The delay before the next fetch, in seconds.
pub open spec fn delay(interval: u64, failures: u8, success: bool, at: Moment) -> int {
    let spread = saturated(base_delay(interval, failures, success) * jitter(at)) / 100;
    if spread < MIN_DELAY_SECONDS {
        MIN_DELAY_SECONDS as int
    } else {
        spread
    }
}

/// The state after a fetch came to its end at `at`.
pub open spec fn scheduled(sync: SyncState, interval: u64, success: bool, at: Moment) -> SyncState {
    let failures = failures_after(sync.failures, success);
    SyncState {
        next_sync_at: saturated(seconds(at) + delay(interval, failures, success, at)) as u64,
        failures,
        ..sync
    }
}

/// A fetch is due at `now`, and none is under way.
pub open spec fn due(sync: SyncState, now: u64) -> bool {
    now >= sync.next_sync_at && !sync.in_progress
}

impl SyncState {
    /// The failures are within their count.
    pub open spec fn wf(&self) -> bool {
        self.failures <= MAX_FAILURES
    }

    /// Nothing was fetched yet, and a fetch is due.
    pub fn new() -> (r: SyncState)
        ensures
            r == (SyncState { synced_at: 0, next_sync_at: 0, failures: 0, in_progress: false }),
            r.wf(),
    {
        SyncState { synced_at: 0, next_sync_at: 0, failures: 0, in_progress: false }
    }

    /// Claims the next fetch, where one is due and nobody else has claimed it.
    pub fn claim(&mut self, now: u64) -> (r: bool)
        ensures
            r == due(*old(self), now),
            *final(self) == (SyncState { in_progress: old(self).in_progress || r, ..*old(self) }),
    {
        if now >= self.next_sync_at && !self.in_progress {
            self.in_progress = true;
            true
        } else {
            false
        }
    }

    /// Sets the time of the next fetch: after the interval where the last one
    /// was a success, later and later where it was not, and with jitter, so that
    /// a fleet that restarts together does not fetch together.
    pub fn schedule_next_sync(&mut self, interval: u64, success: bool, at: &Moment)
        requires
            old(self).wf(),
        ensures
            *final(self) == scheduled(*old(self), interval, success, *at),
            final(self).wf(),
    {
        let failures: u8 = if success {
            0
        } else if self.failures >= MAX_FAILURES {
            MAX_FAILURES
        } else {
            self.failures + 1
        };
        let kept: u64 = if interval < MIN_INTERVAL_SECONDS {
            MIN_INTERVAL_SECONDS
        } else {
            interval
        };
        let base: u64 = if success {
            kept
        } else {
            proof {
                lemma2_to64();
                lemma_u64_shl_is_mul(1, failures as u64);
            }
            let factor: u64 = 1u64 << (failures as u64);
            assert(factor == pow2(failures as nat));
            assert(kept * factor <= 0xffff_ffff_ffff_ffff * 32) by (nonlinear_arith)
                requires
                    0 <= kept <= 0xffff_ffff_ffff_ffff,
                    0 <= factor <= 32,
            ;
            let doubled: u128 = kept as u128 * factor as u128;
            if doubled > MAX_BACKOFF_SECONDS as u128 {
                MAX_BACKOFF_SECONDS
            } else {
                doubled as u64
            }
        };
        let percent: u64 = match at.since_epoch {
            Some(t) => 80 + t.1 as u64 % 41,
            None => 100,
        };
        assert(base * percent <= 0xffff_ffff_ffff_ffff * 120) by (nonlinear_arith)
            requires
                0 <= base <= 0xffff_ffff_ffff_ffff,
                0 <= percent <= 120,
        ;
        let product: u128 = base as u128 * percent as u128;
        let spread: u64 = if product > u64::MAX as u128 {
            u64::MAX / 100
        } else {
            product as u64 / 100
        };
        let wait: u64 = if spread < MIN_DELAY_SECONDS {
            MIN_DELAY_SECONDS
        } else {
            spread
        };
        let now: u64 = at.unix_seconds();
        self.failures = failures;
        self.next_sync_at = now.saturating_add(wait);
    }
}

// ---------------------------------------------------------------------------
// Laws
// ---------------------------------------------------------------------------

/// The delay keeps to 80 to 120 percent of the base, and is never under eight
/// seconds.
pub proof fn jitter_keeps_within_a_fifth(interval: u64, failures: u8, success: bool, at: Moment)
    requires
        base_delay(interval, failures, success) * 120 <= u64::MAX,
    ensures
        delay(interval, failures, success, at) >= MIN_DELAY_SECONDS,
        delay(interval, failures, success, at) >= base_delay(interval, failures, success) * 80
            / 100,
        delay(interval, failures, success, at) <= MIN_DELAY_SECONDS || delay(
            interval,
            failures,
            success,
            at,
        ) <= base_delay(interval, failures, success) * 120 / 100,
{
    let base = base_delay(interval, failures, success);
    let j = jitter(at);
    assert(base >= 0) by {
        assert(interval_kept(interval) * pow2(failures as nat) >= 0) by (nonlinear_arith)
            requires
                interval_kept(interval) >= 0,
                pow2(failures as nat) >= 0,
        ;
    }
    assert(base * 80 <= base * j <= base * 120) by (nonlinear_arith)
        requires
            base >= 0,
            80 <= j <= 120,
    ;
}

/// After failures the base delay stays under five minutes, and each further
/// failure makes it no shorter.
pub proof fn failures_back_off_up_to_a_ceiling(interval: u64, failures: u8)
    requires
        failures < MAX_FAILURES,
    ensures
        base_delay(interval, failures, false) <= MAX_BACKOFF_SECONDS,
        base_delay(interval, failures, false) <= base_delay(
            interval,
            failures_after(failures, false),
            false,
        ),
{
    lemma2_to64();
    let kept = interval_kept(interval);
    let a = pow2(failures as nat);
    let b = pow2(failures_after(failures, false) as nat);
    assert(kept * a <= kept * b) by (nonlinear_arith)
        requires
            kept >= 0,
            0 <= a <= b,
    ;
}

/// An interval under ten seconds counts as ten.
pub proof fn short_intervals_count_as_ten(
    sync: SyncState,
    interval: u64,
    success: bool,
    at: Moment,
)
    requires
        interval <= 10,
    ensures
        scheduled(sync, interval, success, at) == scheduled(sync, 10, success, at),
{
}

/// A success puts the schedule back to the interval, however many failures there
/// were before.
pub proof fn a_success_forgets_the_failures(sync: SyncState, interval: u64, at: Moment)
    ensures
        scheduled(sync, interval, true, at).failures == 0,
        scheduled(sync, interval, true, at).next_sync_at == scheduled(
            SyncState { failures: 0, ..sync },
            interval,
            true,
            at,
        ).next_sync_at,
{
}

/// Only one fetch is under way at a time: once it is claimed, none is due until
/// it has come to its end, and then none for eight seconds.
pub proof fn one_fetch_at_a_time(
    sync: SyncState,
    interval: u64,
    success: bool,
    at: Moment,
    now: u64,
)
    requires
        seconds(at) + MIN_DELAY_SECONDS <= u64::MAX,
    ensures
        !due(SyncState { in_progress: true, ..sync }, now),
        now < seconds(at) + MIN_DELAY_SECONDS ==> !due(
            scheduled(sync, interval, success, at),
            now,
        ),
{
}

} // verus!

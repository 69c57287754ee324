//! The wall clock.

use vstd::prelude::*;

verus! {

/// One reading of the wall clock: the seconds since the Unix epoch and the
/// nanoseconds within the second, or nothing where the clock stands before the
/// epoch.
#[derive(Clone, Copy, Debug)]
pub struct Moment {
    pub since_epoch: Option<(u64, u32)>,
}

/// `SystemTime::elapsed` of `UNIX_EPOCH`: the seconds and nanoseconds from the
/// epoch to now, or nothing where the clock stands before the epoch. Which time
/// it is depends on the machine; the nanoseconds are always less than a second.
#[verifier::external_body]
fn read_clock() -> (r: Option<(u64, u32)>)
    ensures
        r matches Some(t) ==> t.1 < 1_000_000_000,
{
    std::time::UNIX_EPOCH.elapsed().ok().map(|d| (d.as_secs(), d.subsec_nanos()))
}

/// The seconds since the epoch at `m`; zero before it.
pub open spec fn seconds(m: Moment) -> u64 {
    match m.since_epoch {
        Some(t) => t.0,
        None => 0,
    }
}

/// The nanoseconds since the epoch at `m`; zero before it.
pub open spec fn nanoseconds(m: Moment) -> nat {
    match m.since_epoch {
        Some(t) => (t.0 * 1_000_000_000 + t.1) as nat,
        None => 0,
    }
}

/// The seconds since the epoch at `m` as a signed number, as `u64` is cast to
/// `i64`.
pub open spec fn signed_seconds(m: Moment) -> i64 {
    seconds(m) as i64
}

impl Moment {
    /// Reads the clock.
    pub fn now() -> (r: Moment)
        ensures
            r.since_epoch matches Some(t) ==> t.1 < 1_000_000_000,
    {
        Moment { since_epoch: read_clock() }
    }

    /// The seconds since the epoch; zero before it.
    pub fn unix_seconds(&self) -> (r: u64)
        ensures
            r == seconds(*self),
    {
        match self.since_epoch {
            Some(t) => t.0,
            None => 0,
        }
    }

    /// The nanoseconds since the epoch; zero before it.
    pub fn unix_nanoseconds(&self) -> (r: u128)
        ensures
            r == nanoseconds(*self),
    {
        match self.since_epoch {
            Some(t) => t.0 as u128 * 1_000_000_000 + t.1 as u128,
            None => 0,
        }
    }

    /// The seconds since the epoch as a signed number.
    pub fn signed_seconds(&self) -> (r: i64)
        ensures
            r == signed_seconds(*self),
    {
        self.unix_seconds() as i64
    }
}

} // verus!

//! Wall-clock time for latency probes.
use vstd::prelude::*;

verus! {

/// The time since the Unix epoch in milliseconds, from `SystemTime::elapsed` of
/// `UNIX_EPOCH`; `None` when the clock stands before the epoch.
///
/// Trusted, and nothing is claimed of the value: it is the machine's clock.
#[verifier::external_body]
fn since_epoch() -> (elapsed: Option<u128>) {
    std::time::UNIX_EPOCH.elapsed().ok().map(|d| d.as_millis())
}

/// Whether the machine's clock can give this reading.
pub closed spec fn clock_gives(elapsed: Option<u128>) -> bool {
    call_ensures(since_epoch, (), elapsed)
}

/// The time stamp for the milliseconds since the epoch: their low 64 bits, or 0 for
/// a clock that stands before the epoch.
pub open spec fn stamp_of(elapsed: Option<u128>) -> i64 {
    match elapsed {
        Some(ms) => ms as i64,
        None => 0,
    }
}

/// The time stamp for the milliseconds since the epoch.
pub fn time_stamp(elapsed: Option<u128>) -> (ts: i64)
    ensures
        ts == stamp_of(elapsed),
        elapsed matches Some(ms) && ms <= i64::MAX ==> ts == elapsed->0,
{
    match elapsed {
        Some(ms) => #[verifier::truncate] (ms as i64),
        None => 0,
    }
}

/// The current Unix time in milliseconds: the stamp of what the machine's clock
/// gave. Of the clock itself nothing is known.
pub fn now_ms() -> (ts: i64)
    ensures
        exists|since: Option<u128>| #[trigger] clock_gives(since) && ts == stamp_of(since),
{
    let since = since_epoch();
    assert(clock_gives(since));
    time_stamp(since)
}

} // verus!

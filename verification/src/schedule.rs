//! How long to wait for the next scheduled search.
use vstd::prelude::*;

use crate::video::Timestamp;

verus! {

/// How long to sleep: whole seconds and the nanoseconds beyond them.
#[derive(Clone, Copy, Debug, PartialEq, Eq, Structural)]
pub struct Delay {
    pub secs: u64,
    pub nanos: u32,
}

/// The number of nanoseconds in a second.
pub const NANOS_PER_SEC: u32 = 1_000_000_000;

/// An instant as nanoseconds since the UNIX epoch.
pub open spec fn instant(t: Timestamp) -> int {
    t.secs * 1_000_000_000 + t.nanos
}

/// The nanoseconds in a delay.
pub open spec fn delay_nanos(d: Delay) -> int {
    d.secs * 1_000_000_000 + d.nanos
}

/// The time from `now` until `at`, where `at` is not past; `None` where
/// the scheduled time is already gone and the wait is skipped.
///
/// The times are those of `chrono`'s `DateTime<Utc>`, whose range keeps the
/// seconds between them far below `u64::MAX` and whose nanoseconds stay below
/// two billion.
pub fn wait_duration(at: Timestamp, now: Timestamp) -> (r: Option<Delay>)
    requires
        at.nanos < 2 * NANOS_PER_SEC,
        now.nanos < 2 * NANOS_PER_SEC,
        at.secs - now.secs < u64::MAX,
    ensures
        r.is_none() == (instant(at) < instant(now)),
        r matches Some(d) ==> d.nanos < NANOS_PER_SEC && delay_nanos(d) == instant(at) - instant(now),
{
    let w: i128 = at.secs as i128 * 1_000_000_000i128 + at.nanos as i128;
    let n: i128 = now.secs as i128 * 1_000_000_000i128 + now.nanos as i128;
    let diff: i128 = w - n;
    if diff < 0 {
        None
    } else {
        let secs: i128 = diff / 1_000_000_000i128;
        let nanos: i128 = diff % 1_000_000_000i128;
        assert(secs <= at.secs - now.secs + 1);
        Some(Delay { secs: secs as u64, nanos: nanos as u32 })
    }
}

} // verus!

//! The current time, as the tools record it.
use vstd::prelude::*;

verus! {

/// A UTC instant: whole seconds since the Unix epoch and the nanoseconds
/// within that second.
#[derive(PartialEq, Eq, Clone, Copy, Debug, Structural)]
pub struct UtcTime {
    pub secs: i64,
    pub nanos: u32,
}

/// `a` lies strictly before `b` (the order of `DateTime<Utc>`).
pub open spec fn earlier(a: UtcTime, b: UtcTime) -> bool {
    a.secs < b.secs || (a.secs == b.secs && a.nanos < b.nanos)
}

/// `a` lies strictly before `b`.
pub fn is_earlier(a: UtcTime, b: UtcTime) -> (r: bool)
    ensures
        r == earlier(a, b),
{
    a.secs < b.secs || (a.secs == b.secs && a.nanos < b.nanos)
}

/// `chrono::Utc::now`, as seconds and sub-second nanoseconds. It reads the
/// system clock, so nothing is claimed of the instant beyond the nanoseconds
/// staying below one second.
#[verifier::external_body]
pub(crate) fn utc_now() -> (r: UtcTime)
    ensures
        r.nanos < 1_000_000_000,
{
    let now = chrono::Utc::now();
    UtcTime { secs: now.timestamp(), nanos: now.timestamp_subsec_nanos() }
}

} // verus!

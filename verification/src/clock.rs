//! Reading the wall clock.
use vstd::prelude::*;

verus! {

/// An instant of UTC time: whole seconds since the Unix epoch and the
/// nanoseconds past that second.
#[derive(Debug, Clone, Copy, PartialEq, Eq, Structural)]
pub struct Timestamp {
    /// Seconds since 1970-01-01 00:00:00 UTC, leap seconds not counted.
    pub seconds: i64,
    /// Nanoseconds since the last whole second.
    pub nanos: u32,
}

impl Timestamp {
    /// The seconds of this instant as blocks and transactions record them:
    /// the low 64 bits of the signed count.
    pub open spec fn spec_block_seconds(&self) -> u64 {
        #[verifier::truncate]
        (self.seconds as u64)
    }

    /// The seconds of this instant as blocks and transactions record them.
    #[verifier::when_used_as_spec(spec_block_seconds)]
    pub fn block_seconds(&self) -> (seconds: u64)
        ensures
            seconds == self.spec_block_seconds(),
    {
        #[verifier::truncate]
        (self.seconds as u64)
    }
}

/// `chrono::Utc::now`, taken apart with `timestamp` and
/// `timestamp_subsec_nanos`. Nothing is claimed of the instant: it is
/// whatever the system clock says.
#[verifier::external_body]
pub(crate) fn utc_now() -> (now: Timestamp) {
    let now = chrono::Utc::now();
    Timestamp { seconds: now.timestamp(), nanos: now.timestamp_subsec_nanos() }
}

} // verus!

//! The wall clock, read as nanoseconds since the Unix epoch.
use vstd::prelude::*;

verus! {

/// Nanoseconds since the Unix epoch (`SystemTime::now` then
/// `duration_since(UNIX_EPOCH)`), truncated to `u64`; 0 when the clock is
/// before the epoch. Nothing is claimed of the value: it is the time.
#[verifier::external_body]
pub(crate) fn clock_nanos() -> u64 {
    match std::time::SystemTime::now().duration_since(std::time::UNIX_EPOCH) {
        Ok(d) => d.as_nanos() as u64,
        Err(_) => 0,
    }
}

} // verus!

use vstd::prelude::*;

verus! {

/// Milliseconds since the UNIX epoch by the system clock, or the clock's
/// error text when it reads earlier than the epoch. Calls
/// `std::time::SystemTime::now` and `duration_since`; nothing is promised of
/// the time read.
#[verifier::external_body]
pub(crate) fn unix_time_ms() -> (r: Result<u64, String>) {
    match std::time::SystemTime::now().duration_since(std::time::UNIX_EPOCH) {
        Ok(elapsed) => Ok(elapsed.as_millis() as u64),
        Err(error) => Err(error.to_string()),
    }
}

} // verus!

//! The one clock read the tracker needs, for default output filenames.

use vstd::prelude::*;

verus! {

/// Relies on std::time::SystemTime::now and duration_since(UNIX_EPOCH):
/// the current time as whole seconds since the UNIX epoch, or 0 if the
/// clock reads before the epoch. Nothing can be promised of a clock value.
#[verifier::external_body]
pub fn get_latest_unix_timestamp() -> u64 {
    match std::time::SystemTime::now().duration_since(std::time::UNIX_EPOCH) {
        Ok(d) => d.as_secs(),
        Err(_) => 0,
    }
}

} // verus!

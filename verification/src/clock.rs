//! The wall clock, in milliseconds since the Unix epoch.

use vstd::prelude::*;
use std::time::{SystemTime, UNIX_EPOCH};

verus! {

/// The current time in milliseconds since the Unix epoch
/// (`SystemTime::now`), zero when the clock reads earlier than the epoch.
/// Nothing is promised of the value: it is the clock's.
#[verifier::external_body]
pub fn now_ms() -> (r: i64) {
    match SystemTime::now().duration_since(UNIX_EPOCH) {
        Ok(duration) => duration.as_millis() as i64,
        Err(_) => 0,
    }
}

} // verus!

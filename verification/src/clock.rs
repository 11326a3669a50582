//! The one place the wall clock is read.

use vstd::prelude::*;

verus! {

/// Relies on chrono's `Utc::now`: the current wall-clock time, in
/// milliseconds since the Unix epoch. Nothing is assumed of the value:
/// every caller must hold for any stamp it may receive.
#[verifier::external_body]
pub fn now_millis() -> i64 {
    chrono::Utc::now().timestamp_millis()
}

} // verus!

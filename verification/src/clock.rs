//! The one place the server reads the clock.
use vstd::prelude::*;

verus! {

/// Relies on chrono's `Utc::now().timestamp()`: the current instant in
/// seconds since the epoch. The value depends on the clock, so nothing is
/// promised of it.
#[verifier::external_body]
pub fn now_seconds() -> i64 {
    chrono::Utc::now().timestamp()
}

} // verus!

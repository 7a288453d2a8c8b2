//! The one clock read of the crate.

use vstd::prelude::*;

verus! {

/// Relies on time's `OffsetDateTime::now_utc`: the current time as whole
/// seconds since the Unix epoch. Nothing is promised of the value.
#[verifier::external_body]
pub(crate) fn now_unix_seconds() -> i64 {
    time::OffsetDateTime::now_utc().unix_timestamp()
}

} // verus!

//! Small helpers for building responses.

use crate::idempotency::persistence::HeaderPairRecord;
use crate::idempotency::persistence::SavedResponse;
use vstd::prelude::*;
use vstd::string::StrSliceExecFns;
use vstd::string::StringSliceAdditionalSpecFns;

verus! {

/// A redirect: status 303 See Other with a single `location` header naming
/// the target, and an empty body.
pub fn see_other(location: &str) -> (r: SavedResponse)
    ensures
        r@.status == 303,
        r@.headers.len() == 1,
        r@.headers[0].name == "location"@,
        r@.headers[0].value == location.spec_bytes(),
        r@.body.len() == 0,
{
    let mut headers: Vec<HeaderPairRecord> = Vec::new();
    headers.push(
        HeaderPairRecord { name: "location".to_owned(), value: location.as_bytes_vec() },
    );
    SavedResponse { status_code: 303, headers, body: Vec::new() }
}

} // verus!

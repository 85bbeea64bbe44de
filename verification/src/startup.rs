//! Application-level wrapper types shared with the request-handling layer.

use vstd::prelude::*;

verus! {

/// The base URL the application is served under, as a wrapper type so that
/// retrieval from the application state is keyed by a distinct type rather
/// than a raw `String`.
pub struct ApplicationBaseUrl(pub String);

} // verus!

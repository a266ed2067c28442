//! A verified bridge between a user interface and a local-network service
//! that lists smart devices.
//!
//! The library owns everything that can be decided without touching the
//! network: building the request URL for a configured endpoint, judging an
//! HTTP status code, decoding a response body as a JSON array of device
//! records, and mapping every failure to a caller-visible error. The actual
//! transport (issuing the GET and awaiting the response) is left to the
//! surrounding application, which reports back a single [`fetch::FetchEvent`].

pub mod device;
pub mod endpoint;
pub mod fetch;
pub mod json;
pub mod text;

use vstd::prelude::*;

verus! {

/// A status code counts as a success exactly when it lies in the 2xx range.
pub open spec fn spec_is_success(status: u16) -> bool {
    200 <= status < 300
}

/// Decides whether a status code reports success.
pub fn is_success_status(status: u16) -> (r: bool)
    ensures
        r == spec_is_success(status),
{
    200 <= status && status < 300
}

} // verus!

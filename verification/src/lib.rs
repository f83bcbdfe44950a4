//! Verified core of a multi-tenant authenticating reverse proxy for
//! S3-compatible object storage.
//!
//! The library covers the request-routing and credential-injection pipeline:
//! parsing the `/<bucket>[/<key-path>]` request path, the bucket-to-endpoint
//! routing table, validation of the inbound `Authorization` header, the
//! per-bucket credential cache with single-flight refresh semantics, and the
//! upstream-selection / request-rewrite steps.  The transport runtime, the
//! identity-provider HTTP client and the host-language configuration bridge
//! are external collaborators and live outside this crate.

use vstd::prelude::*;

pub mod strutil;
pub mod errors;
pub mod path;
pub mod credentials;
pub mod validator;
pub mod routing;
pub mod secrets_proxy;
pub mod pipeline;

verus! {

/// Process-wide monotonic counter of requests handled, used only for
/// observability.  The embedding application wraps it in whatever
/// synchronization its runtime needs.
pub struct RequestCounter {
    hits: u64,
}

impl RequestCounter {
    /// The number of requests counted so far.
    pub closed spec fn spec_count(self) -> u64 {
        self.hits
    }

    /// A fresh counter starts at zero.
    pub fn new() -> (c: RequestCounter)
        ensures
            c.spec_count() == 0,
    {
        RequestCounter { hits: 0 }
    }

    pub fn count(&self) -> (n: u64)
        ensures
            n == self.spec_count(),
    {
        self.hits
    }

    /// Record one handled request.
    pub fn increment(&mut self)
        requires
            old(self).spec_count() < u64::MAX,
        ensures
            final(self).spec_count() == old(self).spec_count() + 1,
    {
        self.hits = self.hits + 1;
    }
}

} // verus!

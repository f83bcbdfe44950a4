//! Error taxonomy of the proxy core.

use vstd::prelude::*;

verus! {

/// Fatal, request-scoped errors of the routing and rewrite pipeline.
///
/// `MalformedPath` is client-caused: the request is aborted before any
/// upstream contact is made.  `NoCredentialConfigured` marks a configuration
/// gap: the resolved bucket carries no API key reference, so the request
/// cannot be proxied with injected credentials.
#[derive(Clone, Copy, Debug, PartialEq, Eq, Structural)]
pub enum ProxyError {
    MalformedPath,
    NoCredentialConfigured,
}

/// Diagnostic errors of the inbound `Authorization` header validator.
///
/// Validation is audit-only: a failing validation is reported but does not by
/// itself abort the request.
#[derive(Clone, Copy, Debug, PartialEq, Eq, Structural)]
pub enum ValidationError {
    /// The header value is empty.
    EmptyHeader,
    /// The header does not carry the expected signed-request scheme.
    UnrecognizedScheme,
    /// The credential sub-parser could not extract a caller token.
    TokenExtractionFailed,
    /// The extracted caller token is the empty string.
    EmptyToken,
}

} // verus!

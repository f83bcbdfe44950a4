//! The inbound request validator.
//!
//! The validator inspects the original caller's `Authorization` header for
//! the signed-request scheme this gateway expects and checks that a caller
//! token can be extracted from it.  Validation is purely diagnostic: its
//! outcome is reported for audit and does not gate forwarding.

use vstd::prelude::*;

use crate::credentials::{credential_prefix, parse_token_from_header, spec_token};
use crate::errors::ValidationError;
use crate::strutil::spec_has_prefix;

verus! {

/// The validation verdict for a header value.
pub open spec fn spec_validate(h: Seq<char>) -> Result<bool, ValidationError> {
    if h.len() == 0 {
        Err(ValidationError::EmptyHeader)
    } else if !spec_has_prefix(h, credential_prefix()) {
        Err(ValidationError::UnrecognizedScheme)
    } else if spec_token(h).len() == 0 {
        Err(ValidationError::EmptyToken)
    } else {
        Ok(true)
    }
}

/// Validate an inbound `Authorization` header value.
///
/// Fails with `EmptyHeader` when the value is empty, with
/// `UnrecognizedScheme` when it does not begin with
/// `AWS4-HMAC-SHA256 Credential=`, and with `EmptyToken` when the embedded
/// caller token is empty; otherwise succeeds.
pub fn validate_request(header: &str) -> (r: Result<bool, ValidationError>)
    ensures
        r == spec_validate(header@),
{
    if header.unicode_len() == 0 {
        return Err(ValidationError::EmptyHeader);
    }
    let prefix = "AWS4-HMAC-SHA256 Credential=";
    if !crate::strutil::has_prefix(header, prefix) {
        return Err(ValidationError::UnrecognizedScheme);
    }
    match parse_token_from_header(header) {
        Err(_) => Err(ValidationError::TokenExtractionFailed),
        Ok((_remaining, token)) => {
            if token.unicode_len() == 0 {
                Err(ValidationError::EmptyToken)
            } else {
                Ok(true)
            }
        },
    }
}

} // verus!

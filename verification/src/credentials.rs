//! The credential-header sub-parser.
//!
//! Inbound callers authenticate with an AWS-style signed-request header of
//! the shape `AWS4-HMAC-SHA256 Credential=<token>/<scope...>, ...`.  The
//! sub-parser strips the scheme prefix and extracts the embedded caller
//! token: the run of characters after `Credential=` up to the first `/`.

use vstd::prelude::*;

use crate::errors::ValidationError;
use crate::path::{seg_end, lemma_seg_end_is};
use crate::strutil::{has_prefix, spec_has_prefix};

verus! {

/// The signed-request scheme this gateway expects from callers.
pub open spec fn credential_prefix() -> Seq<char> {
    "AWS4-HMAC-SHA256 Credential="@
}

/// The caller token embedded in a recognized header: the characters between
/// the scheme prefix and the first `/` after it.
pub open spec fn spec_token(h: Seq<char>) -> Seq<char> {
    h.subrange(credential_prefix().len() as int, seg_end(h, credential_prefix().len() as int))
}

/// What is left of the header once the prefix and the token are consumed.
pub open spec fn spec_remaining(h: Seq<char>) -> Seq<char> {
    h.subrange(seg_end(h, credential_prefix().len() as int), h.len() as int)
}

/// Extract the caller token from a signed-request `Authorization` header.
///
/// Returns `(remaining, token)` on success; fails exactly when the header
/// does not carry the `AWS4-HMAC-SHA256 Credential=` prefix.
pub fn parse_token_from_header(header: &str) -> (r: Result<(String, String), ValidationError>)
    ensures
        r is Ok <==> spec_has_prefix(header@, credential_prefix()),
        r is Ok ==> r->Ok_0.0@ == spec_remaining(header@) && r->Ok_0.1@ == spec_token(header@),
        r is Err ==> r->Err_0 == ValidationError::TokenExtractionFailed,
{
    let prefix = "AWS4-HMAC-SHA256 Credential=";
    if !has_prefix(header, prefix) {
        return Err(ValidationError::TokenExtractionFailed);
    }
    let len: usize = header.unicode_len();
    let plen: usize = prefix.unicode_len();
    let mut end: usize = plen;
    while end < len && header.get_char(end) != '/'
        invariant
            len == header@.len(),
            plen == credential_prefix().len(),
            plen <= end <= len,
            forall|j: int| plen <= j < end ==> header@[j] != '/',
        decreases len - end,
    {
        end = end + 1;
    }
    proof {
        lemma_seg_end_is(header@, plen as int, end as int);
    }
    let token = String::from_str(header.substring_char(plen, end));
    let remaining = String::from_str(header.substring_char(end, len));
    Ok((remaining, token))
}

} // verus!

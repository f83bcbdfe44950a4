//! The inbound request-path parser.
//!
//! A request path has the form `/<bucket>[/<key-path>]`: the bucket is the
//! maximal run of non-`/` characters after the leading slash, and the
//! forwarded path is the remainder starting at the slash that ends the bucket
//! segment, or `/` when nothing follows.

use vstd::prelude::*;

use crate::errors::ProxyError;

verus! {

/// The first index at or after `i` holding `/`, or the length of `s` when no
/// such index exists.
pub open spec fn seg_end(s: Seq<char>, i: int) -> int
    decreases s.len() - i,
{
    if i < 0 || i >= s.len() {
        i
    } else if s[i] == '/' {
        i
    } else {
        seg_end(s, i + 1)
    }
}

/// `seg_end` is pinned by a slash-free run followed by a slash or the end.
pub proof fn lemma_seg_end_is(s: Seq<char>, i: int, e: int)
    requires
        0 <= i <= e <= s.len(),
        forall|j: int| i <= j < e ==> s[j] != '/',
        e < s.len() ==> s[e] == '/',
    ensures
        seg_end(s, i) == e,
    decreases e - i,
{
    if i < e {
        lemma_seg_end_is(s, i + 1, e);
    }
}

/// A path is parseable when it starts with `/` and the bucket segment is
/// non-empty.
pub open spec fn path_is_valid(s: Seq<char>) -> bool {
    s.len() >= 2 && s[0] == '/' && s[1] != '/'
}

/// The bucket segment of a valid path.
pub open spec fn spec_bucket(s: Seq<char>) -> Seq<char> {
    s.subrange(1, seg_end(s, 1))
}

/// The forwarded path of a valid path: everything from the slash that ends
/// the bucket segment on, or `/` when nothing follows the bucket.
pub open spec fn spec_forwarded(s: Seq<char>) -> Seq<char> {
    if seg_end(s, 1) == s.len() {
        seq!['/']
    } else {
        s.subrange(seg_end(s, 1), s.len() as int)
    }
}

/// Split a request path into `(bucket, forwarded-path)`.
///
/// Fails with `MalformedPath` exactly when the input does not start with `/`
/// or the bucket segment is empty (for example `""`, `"/"` or `"//key"`).
pub fn parse_path(input: &str) -> (r: Result<(String, String), ProxyError>)
    ensures
        r is Ok <==> path_is_valid(input@),
        r is Ok ==> r->Ok_0.0@ == spec_bucket(input@) && r->Ok_0.1@ == spec_forwarded(input@),
        r is Err ==> r->Err_0 == ProxyError::MalformedPath,
{
    let len: usize = input.unicode_len();
    if len < 2 {
        return Err(ProxyError::MalformedPath);
    }
    if input.get_char(0) != '/' {
        return Err(ProxyError::MalformedPath);
    }
    if input.get_char(1) == '/' {
        return Err(ProxyError::MalformedPath);
    }
    let mut end: usize = 1;
    while end < len && input.get_char(end) != '/'
        invariant
            len == input@.len(),
            1 <= end <= len,
            forall|j: int| 1 <= j < end ==> input@[j] != '/',
        decreases len - end,
    {
        end = end + 1;
    }
    proof {
        lemma_seg_end_is(input@, 1, end as int);
    }
    let bucket = String::from_str(input.substring_char(1, end));
    let forwarded = if end == len {
        let slash = String::from_str("/");
        proof {
            reveal_strlit("/");
            assert(slash@ =~= seq!['/']);
        }
        slash
    } else {
        String::from_str(input.substring_char(end, len))
    };
    Ok((bucket, forwarded))
}

/// For every non-empty slash-free `bucket` and every `rest`, the path
/// `/<bucket>/<rest>` parses to `(bucket, /<rest>)`, and the path `/<bucket>`
/// parses to `(bucket, /)`.
pub proof fn lemma_parse_path_of_segments(bucket: Seq<char>, rest: Seq<char>)
    requires
        bucket.len() > 0,
        forall|j: int| 0 <= j < bucket.len() ==> bucket[j] != '/',
    ensures
        path_is_valid(seq!['/'] + bucket + seq!['/'] + rest),
        spec_bucket(seq!['/'] + bucket + seq!['/'] + rest) == bucket,
        spec_forwarded(seq!['/'] + bucket + seq!['/'] + rest) == seq!['/'] + rest,
        path_is_valid(seq!['/'] + bucket),
        spec_bucket(seq!['/'] + bucket) == bucket,
        spec_forwarded(seq!['/'] + bucket) == seq!['/'],
{
    let s1 = seq!['/'] + bucket + seq!['/'] + rest;
    assert(s1[0] == '/');
    assert(s1[1] == bucket[0]);
    assert forall|j: int| 1 <= j < 1 + bucket.len() implies s1[j] != '/' by {
        assert(s1[j] == bucket[j - 1]);
    }
    assert(s1[1 + bucket.len() as int] == '/');
    lemma_seg_end_is(s1, 1, 1 + bucket.len() as int);
    assert(spec_bucket(s1) =~= bucket);
    assert(spec_forwarded(s1) =~= seq!['/'] + rest);

    let s2 = seq!['/'] + bucket;
    assert(s2[0] == '/');
    assert(s2[1] == bucket[0]);
    assert forall|j: int| 1 <= j < s2.len() implies s2[j] != '/' by {
        assert(s2[j] == bucket[j - 1]);
    }
    lemma_seg_end_is(s2, 1, s2.len() as int);
    assert(spec_bucket(s2) =~= bucket);
}

} // verus!

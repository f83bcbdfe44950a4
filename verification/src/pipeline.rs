//! The proxy filter pipeline: upstream-peer selection and request rewrite.
//!
//! Per request the pipeline parses the path, resolves the bucket in the
//! routing table, and computes the outbound wire-level metadata: the peer to
//! connect to, the rewritten authority, path and query, the overwritten
//! `Host` header and the injected `Authorization: Bearer <token>` header.
//! The bearer token itself is obtained by the embedding application through
//! the credential cache and handed in as a plain value.

use vstd::prelude::*;

use crate::errors::ProxyError;
use crate::path::{parse_path, path_is_valid, spec_bucket, spec_forwarded};
use crate::routing::{CosMap, CosMapItemV};

verus! {

/// The upstream peer a request is forwarded to.
///
/// `verify_cert` is `false`: upstream TLS certificate verification is
/// disabled by design.  This is a documented security weakness of the
/// design; deployments should reconsider the default.
#[derive(Clone, Debug)]
pub struct UpstreamPeer {
    pub host: String,
    pub port: u16,
    pub use_tls: bool,
    pub verify_cert: bool,
}

/// The mathematical value of an upstream peer.
pub struct UpstreamPeerV {
    pub host: Seq<char>,
    pub port: u16,
    pub use_tls: bool,
    pub verify_cert: bool,
}

impl View for UpstreamPeer {
    type V = UpstreamPeerV;

    open spec fn view(&self) -> UpstreamPeerV {
        UpstreamPeerV {
            host: self.host@,
            port: self.port,
            use_tls: self.use_tls,
            verify_cert: self.verify_cert,
        }
    }
}

/// The rewritten outbound request metadata.
#[derive(Clone, Debug)]
pub struct RewrittenRequest {
    /// Outbound scheme: the inbound one, or `https` when none was given.
    pub scheme: String,
    /// Outbound authority `<bucket>.<resolved-host>`.
    pub authority: String,
    /// Forwarded path with the original query string appended verbatim.
    pub path_and_query: String,
    /// Value the `Host` header is overwritten with (equals the authority).
    pub host_header: String,
    /// Value the `Authorization` header is overwritten with.
    pub authorization: String,
}

/// The mathematical value of a rewritten request.
pub struct RewrittenRequestV {
    pub scheme: Seq<char>,
    pub authority: Seq<char>,
    pub path_and_query: Seq<char>,
    pub host_header: Seq<char>,
    pub authorization: Seq<char>,
}

impl View for RewrittenRequest {
    type V = RewrittenRequestV;

    open spec fn view(&self) -> RewrittenRequestV {
        RewrittenRequestV {
            scheme: self.scheme@,
            authority: self.authority@,
            path_and_query: self.path_and_query@,
            host_header: self.host_header@,
            authorization: self.authorization@,
        }
    }
}

/// The view of an optional string argument.
pub open spec fn opt_view(o: Option<&str>) -> Option<Seq<char>> {
    match o {
        Some(s) => Some(s@),
        None => None,
    }
}

/// The host the upstream peer is selected for: the descriptor's host on a
/// routing hit, `<bucket>.<default-endpoint>` on a miss.
pub open spec fn spec_peer_host(path: Seq<char>, table: CosMap, default_endpoint: Seq<char>) -> Seq<
    char,
> {
    match table.lookup_spec(spec_bucket(path)) {
        Some(item) => item.host,
        None => spec_bucket(path) + "."@ + default_endpoint,
    }
}

/// Stage one, upstream-peer selection: parse the path, resolve the bucket,
/// and emit the peer the transport opens a connection to: port 443 with TLS
/// on and certificate verification off.
///
/// Fails with `MalformedPath` exactly when the path does not parse; the
/// request is then aborted before any upstream contact.
pub fn select_upstream_peer(path: &str, table: &CosMap, default_endpoint: &str) -> (r: Result<
    UpstreamPeer,
    ProxyError,
>)
    ensures
        r is Ok <==> path_is_valid(path@),
        r is Err ==> r->Err_0 == ProxyError::MalformedPath,
        r is Ok ==> r->Ok_0@.host == spec_peer_host(path@, *table, default_endpoint@)
            && r->Ok_0@.port == 443 && r->Ok_0@.use_tls && !r->Ok_0@.verify_cert,
{
    match parse_path(path) {
        Err(e) => Err(e),
        Ok((bucket, _forwarded)) => {
            let host = match table.resolve(bucket.as_str()) {
                Some(item) => item.host.clone(),
                None => bucket.concat(".").concat(default_endpoint),
            };
            Ok(UpstreamPeer { host, port: 443, use_tls: true, verify_cert: false })
        },
    }
}

/// The API key reference configured for the path's bucket, or the error the
/// request is aborted with: `MalformedPath` when the path does not parse,
/// `NoCredentialConfigured` when the bucket has no entry or its entry has no
/// API key.
pub open spec fn spec_credential_ref(path: Seq<char>, table: CosMap) -> Result<
    Seq<char>,
    ProxyError,
> {
    if !path_is_valid(path) {
        Err(ProxyError::MalformedPath)
    } else {
        match table.lookup_spec(spec_bucket(path)) {
            None => Err(ProxyError::NoCredentialConfigured),
            Some(item) => match item.api_key {
                None => Err(ProxyError::NoCredentialConfigured),
                Some(k) => Ok(k),
            },
        }
    }
}

/// Look up the API key reference the bearer token for this request is
/// fetched with.
pub fn credential_ref(path: &str, table: &CosMap) -> (r: Result<String, ProxyError>)
    ensures
        r is Ok <==> spec_credential_ref(path@, *table) is Ok,
        r is Ok ==> r->Ok_0@ == spec_credential_ref(path@, *table)->Ok_0,
        r is Err ==> r->Err_0 == spec_credential_ref(path@, *table)->Err_0,
{
    match parse_path(path) {
        Err(e) => Err(e),
        Ok((bucket, _forwarded)) => match table.resolve(bucket.as_str()) {
            None => Err(ProxyError::NoCredentialConfigured),
            Some(item) => match &item.api_key {
                None => Err(ProxyError::NoCredentialConfigured),
                Some(k) => Ok(k.clone()),
            },
        },
    }
}

/// The query suffix appended to the forwarded path: `?<query>` for a
/// non-empty query, nothing otherwise.
pub open spec fn spec_query_suffix(query: Option<Seq<char>>) -> Seq<char> {
    match query {
        Some(q) => if q.len() > 0 {
            "?"@ + q
        } else {
            Seq::<char>::empty()
        },
        None => Seq::<char>::empty(),
    }
}

/// Stage two, request rewrite, as a function of the request's inputs and the
/// bearer token: either the full set of outbound wire-level fields or the
/// error the request is aborted with.
pub open spec fn spec_rewrite(
    path: Seq<char>,
    query: Option<Seq<char>>,
    scheme: Option<Seq<char>>,
    table: CosMap,
    token: Seq<char>,
) -> Result<RewrittenRequestV, ProxyError> {
    if !path_is_valid(path) {
        Err(ProxyError::MalformedPath)
    } else {
        match table.lookup_spec(spec_bucket(path)) {
            None => Err(ProxyError::NoCredentialConfigured),
            Some(item) => if item.api_key is None {
                Err(ProxyError::NoCredentialConfigured)
            } else {
                let authority = spec_bucket(path) + "."@ + item.host;
                Ok(
                    RewrittenRequestV {
                        scheme: match scheme {
                            Some(sch) => sch,
                            None => "https"@,
                        },
                        authority: authority,
                        path_and_query: spec_forwarded(path) + spec_query_suffix(query),
                        host_header: authority,
                        authorization: "Bearer "@ + token,
                    },
                )
            },
        }
    }
}

/// Rewrite the outbound request.
///
/// The authority becomes `<bucket>.<host>` for the bucket's configured host;
/// the original query string is preserved verbatim; the `Host` header is
/// overwritten with the authority and the `Authorization` header with
/// `Bearer <token>`, discarding the inbound caller's signature.  Fails with
/// `MalformedPath` when the path does not parse and with
/// `NoCredentialConfigured` when the bucket has no entry or no API key, the
/// cases in which no token could have been fetched for it.
pub fn rewrite_request(
    path: &str,
    query: Option<&str>,
    scheme: Option<&str>,
    table: &CosMap,
    token: &str,
) -> (r: Result<RewrittenRequest, ProxyError>)
    ensures
        r is Ok <==> spec_rewrite(path@, opt_view(query), opt_view(scheme), *table, token@) is Ok,
        r is Ok ==> r->Ok_0@ == spec_rewrite(
            path@,
            opt_view(query),
            opt_view(scheme),
            *table,
            token@,
        )->Ok_0,
        r is Err ==> r->Err_0 == spec_rewrite(
            path@,
            opt_view(query),
            opt_view(scheme),
            *table,
            token@,
        )->Err_0,
{
    match parse_path(path) {
        Err(e) => Err(e),
        Ok((bucket, forwarded)) => match table.resolve(bucket.as_str()) {
            None => Err(ProxyError::NoCredentialConfigured),
            Some(item) => {
                if item.api_key.is_none() {
                    return Err(ProxyError::NoCredentialConfigured);
                }
                let authority = bucket.concat(".").concat(item.host.as_str());
                let scheme_out = match scheme {
                    Some(sch) => String::from_str(sch),
                    None => String::from_str("https"),
                };
                let path_and_query = match query {
                    Some(q) => if q.unicode_len() > 0 {
                        forwarded.concat("?").concat(q)
                    } else {
                        forwarded
                    },
                    None => forwarded,
                };
                proof {
                    assert(path_and_query@ =~= spec_forwarded(path@) + spec_query_suffix(
                        opt_view(query),
                    ));
                }
                let authorization = String::from_str("Bearer ").concat(token);
                Ok(
                    RewrittenRequest {
                        scheme: scheme_out,
                        authority: authority.clone(),
                        path_and_query,
                        host_header: authority,
                        authorization,
                    },
                )
            },
        },
    }
}

/// Rewriting is a pure function of its inputs: two rewrites of the same
/// request with the same cached token agree on every outbound field, in
/// particular on authority, path and query.
pub proof fn lemma_rewrite_deterministic(
    path: Seq<char>,
    query: Option<Seq<char>>,
    scheme: Option<Seq<char>>,
    table: CosMap,
    token: Seq<char>,
    r1: Result<RewrittenRequestV, ProxyError>,
    r2: Result<RewrittenRequestV, ProxyError>,
)
    requires
        r1 == spec_rewrite(path, query, scheme, table, token),
        r2 == spec_rewrite(path, query, scheme, table, token),
    ensures
        r1 == r2,
        r1 is Ok ==> r1->Ok_0.authority == r2->Ok_0.authority
            && r1->Ok_0.path_and_query == r2->Ok_0.path_and_query
            && r1->Ok_0.scheme == r2->Ok_0.scheme,
{
}

} // verus!

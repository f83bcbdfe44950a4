use object_storage_proxy::credentials::parse_token_from_header;
use object_storage_proxy::errors::ValidationError;
use object_storage_proxy::validator::validate_request;

#[test]
fn empty_header_fails_empty_header() {
    assert_eq!(validate_request(""), Err(ValidationError::EmptyHeader));
}

#[test]
fn bearer_header_fails_unrecognized_scheme() {
    assert_eq!(validate_request("Bearer xyz"), Err(ValidationError::UnrecognizedScheme));
}

#[test]
fn well_formed_header_succeeds() {
    let header = "AWS4-HMAC-SHA256 Credential=AKIDEXAMPLE/20130524/us-east-1/s3/aws4_request, \
                  SignedHeaders=host;range, Signature=fe5f80f77d5fa3beca038a248ff027";
    assert_eq!(validate_request(header), Ok(true));
}

#[test]
fn well_formed_header_yields_nonempty_token() {
    let header = "AWS4-HMAC-SHA256 Credential=AKIDEXAMPLE/20130524/us-east-1/s3/aws4_request, \
                  SignedHeaders=host;range, Signature=fe5f80f77d5fa3beca038a248ff027";
    let (remaining, token) = parse_token_from_header(header).unwrap();
    assert_eq!(token, "AKIDEXAMPLE");
    assert!(!token.is_empty());
    assert!(remaining.starts_with("/20130524/"));
}

#[test]
fn empty_token_fails_empty_token() {
    assert_eq!(
        validate_request("AWS4-HMAC-SHA256 Credential=/scope"),
        Err(ValidationError::EmptyToken)
    );
}

#[test]
fn prefix_only_header_fails_empty_token() {
    assert_eq!(
        validate_request("AWS4-HMAC-SHA256 Credential="),
        Err(ValidationError::EmptyToken)
    );
}

#[test]
fn sub_parser_rejects_missing_prefix() {
    assert_eq!(
        parse_token_from_header("Basic dXNlcjpwYXNz"),
        Err(ValidationError::TokenExtractionFailed)
    );
}

#[test]
fn token_without_scope_runs_to_end_of_header() {
    let (remaining, token) = parse_token_from_header("AWS4-HMAC-SHA256 Credential=AKID").unwrap();
    assert_eq!(token, "AKID");
    assert_eq!(remaining, "");
}

use object_storage_proxy::errors::ProxyError;
use object_storage_proxy::path::parse_path;

#[test]
fn parses_bucket_and_key_path() {
    let r = parse_path("/mybucket/a/b.txt").unwrap();
    assert_eq!(r.0, "mybucket");
    assert_eq!(r.1, "/a/b.txt");
}

#[test]
fn parses_bare_bucket_to_root_path() {
    let r = parse_path("/mybucket").unwrap();
    assert_eq!(r.0, "mybucket");
    assert_eq!(r.1, "/");
}

#[test]
fn parses_bucket_with_trailing_slash() {
    let r = parse_path("/bucket/").unwrap();
    assert_eq!(r.0, "bucket");
    assert_eq!(r.1, "/");
}

#[test]
fn parses_single_character_bucket() {
    let r = parse_path("/b").unwrap();
    assert_eq!(r.0, "b");
    assert_eq!(r.1, "/");
}

#[test]
fn preserves_query_free_percent_encoding() {
    let r = parse_path("/data/a%20b/c.txt").unwrap();
    assert_eq!(r.0, "data");
    assert_eq!(r.1, "/a%20b/c.txt");
}

#[test]
fn rejects_empty_path() {
    assert_eq!(parse_path("").unwrap_err(), ProxyError::MalformedPath);
}

#[test]
fn rejects_root_path() {
    assert_eq!(parse_path("/").unwrap_err(), ProxyError::MalformedPath);
}

#[test]
fn rejects_empty_bucket_segment() {
    assert_eq!(parse_path("//x").unwrap_err(), ProxyError::MalformedPath);
}

#[test]
fn rejects_path_without_leading_slash() {
    assert_eq!(parse_path("bucket/key").unwrap_err(), ProxyError::MalformedPath);
}

use object_storage_proxy::pipeline::select_upstream_peer;
use object_storage_proxy::routing::{build_cos_map, CosMapItem};

fn item(host: &str, api_key: Option<&str>) -> CosMapItem {
    CosMapItem {
        host: host.to_string(),
        port: 443,
        instance: "instance-1".to_string(),
        api_key: api_key.map(|k| k.to_string()),
    }
}

#[test]
fn resolving_configured_bucket_yields_its_host() {
    let table = build_cos_map(&vec![("b1".to_string(), item("h1", Some("key1")))]);
    let hit = table.resolve("b1").unwrap();
    assert_eq!(hit.host, "h1");
    assert_eq!(hit.port, 443);
    assert_eq!(hit.instance, "instance-1");
    assert_eq!(hit.api_key.as_deref(), Some("key1"));
}

#[test]
fn resolving_unknown_bucket_misses() {
    let table = build_cos_map(&vec![("b1".to_string(), item("h1", None))]);
    assert!(table.resolve("unknown").is_none());
    assert!(!table.contains("unknown"));
    assert!(table.contains("b1"));
}

#[test]
fn unknown_bucket_falls_back_to_default_suffix() {
    let table = build_cos_map(&vec![("b1".to_string(), item("h1", None))]);
    let peer = select_upstream_peer("/unknown/key", &table, "default.example.com").unwrap();
    assert_eq!(peer.host, "unknown.default.example.com");
    assert_eq!(peer.port, 443);
    assert!(peer.use_tls);
    assert!(!peer.verify_cert);
}

#[test]
fn configured_bucket_selects_its_host_as_peer() {
    let table = build_cos_map(&vec![("b1".to_string(), item("h1", None))]);
    let peer = select_upstream_peer("/b1/key", &table, "default.example.com").unwrap();
    assert_eq!(peer.host, "h1");
}

#[test]
fn later_entries_overwrite_earlier_ones() {
    let table = build_cos_map(&vec![
        ("b1".to_string(), item("old-host", None)),
        ("b2".to_string(), item("other", None)),
        ("b1".to_string(), item("new-host", Some("k"))),
    ]);
    let hit = table.resolve("b1").unwrap();
    assert_eq!(hit.host, "new-host");
    assert_eq!(hit.api_key.as_deref(), Some("k"));
    assert_eq!(table.resolve("b2").unwrap().host, "other");
}

#[test]
fn empty_table_resolves_nothing() {
    let table = build_cos_map(&Vec::new());
    assert!(table.resolve("b1").is_none());
}

#[test]
fn bucket_names_are_case_sensitive() {
    let table = build_cos_map(&vec![("Data".to_string(), item("h1", None))]);
    assert!(table.resolve("data").is_none());
    assert!(table.resolve("Data").is_some());
}

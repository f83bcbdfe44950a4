use object_storage_proxy::secrets_proxy::{CacheDecision, SecretsCache};

/// Drive one caller's `getOrFetch` against the cache, counting how often the
/// fetch operation would be invoked, as an instrumented fetch function would.
fn get_or_fetch(
    cache: &mut SecretsCache,
    bucket: &str,
    fetch_outcome: Result<String, String>,
    fetch_count: &mut usize,
) -> Option<Result<String, String>> {
    match cache.acquire(bucket) {
        CacheDecision::UseToken(t) => Some(Ok(t)),
        CacheDecision::AwaitFetch => None,
        CacheDecision::StartFetch => {
            *fetch_count += 1;
            cache.complete_fetch(bucket, &fetch_outcome);
            Some(fetch_outcome)
        }
    }
}

#[test]
fn overlapping_callers_share_one_fetch() {
    let mut cache = SecretsCache::new();
    let mut fetch_count: usize = 0;

    // First caller wins the flight.
    let d1 = cache.acquire("bucket-x");
    assert!(matches!(d1, CacheDecision::StartFetch));
    fetch_count += 1;

    // Callers that overlap with the in-flight fetch are told to wait and do
    // not invoke the fetch function.
    for _ in 0..8 {
        let d = cache.acquire("bucket-x");
        assert!(matches!(d, CacheDecision::AwaitFetch));
    }
    assert_eq!(fetch_count, 1);

    // The flight completes; every waiter and every later caller observes the
    // same token.
    cache.complete_fetch("bucket-x", &Ok("tok-abc".to_string()));
    for _ in 0..8 {
        match cache.acquire("bucket-x") {
            CacheDecision::UseToken(t) => assert_eq!(t, "tok-abc"),
            _ => panic!("expected the cached token"),
        }
    }
    assert_eq!(fetch_count, 1);
}

#[test]
fn cache_hit_skips_the_fetch_function() {
    let mut cache = SecretsCache::new();
    let mut fetch_count: usize = 0;

    let first = get_or_fetch(&mut cache, "b", Ok("tok".to_string()), &mut fetch_count);
    assert_eq!(first, Some(Ok("tok".to_string())));
    assert_eq!(fetch_count, 1);

    let second = get_or_fetch(&mut cache, "b", Ok("other".to_string()), &mut fetch_count);
    assert_eq!(second, Some(Ok("tok".to_string())));
    assert_eq!(fetch_count, 1);
}

#[test]
fn failed_fetch_is_retried_not_cached() {
    let mut cache = SecretsCache::new();
    let mut fetch_count: usize = 0;

    let first = get_or_fetch(&mut cache, "b", Err("boom".to_string()), &mut fetch_count);
    assert_eq!(first, Some(Err("boom".to_string())));
    assert_eq!(fetch_count, 1);

    // The failure is not a poison value: the next caller retries and the
    // fetch-invocation count increases.
    let second = get_or_fetch(&mut cache, "b", Ok("tok".to_string()), &mut fetch_count);
    assert_eq!(second, Some(Ok("tok".to_string())));
    assert_eq!(fetch_count, 2);
}

#[test]
fn buckets_do_not_interfere() {
    let mut cache = SecretsCache::new();

    assert!(matches!(cache.acquire("b1"), CacheDecision::StartFetch));
    // A fetch in flight for b1 does not block b2.
    assert!(matches!(cache.acquire("b2"), CacheDecision::StartFetch));

    cache.complete_fetch("b1", &Ok("tok-1".to_string()));
    // b2's flight is still in progress.
    assert!(matches!(cache.acquire("b2"), CacheDecision::AwaitFetch));

    cache.complete_fetch("b2", &Ok("tok-2".to_string()));
    match cache.acquire("b1") {
        CacheDecision::UseToken(t) => assert_eq!(t, "tok-1"),
        _ => panic!("expected b1's token"),
    }
    match cache.acquire("b2") {
        CacheDecision::UseToken(t) => assert_eq!(t, "tok-2"),
        _ => panic!("expected b2's token"),
    }
}

#[test]
fn completion_without_flight_changes_nothing() {
    let mut cache = SecretsCache::new();
    cache.complete_fetch("b", &Ok("spurious".to_string()));
    // The spurious completion is ignored: the next caller still starts the
    // first real fetch.
    assert!(matches!(cache.acquire("b"), CacheDecision::StartFetch));
}

#[test]
fn waiters_of_a_failed_flight_observe_the_failure_then_retry() {
    let mut cache = SecretsCache::new();

    assert!(matches!(cache.acquire("b"), CacheDecision::StartFetch));
    assert!(matches!(cache.acquire("b"), CacheDecision::AwaitFetch));

    cache.complete_fetch("b", &Err("identity provider unreachable".to_string()));

    // A caller arriving after the failure starts a fresh flight.
    assert!(matches!(cache.acquire("b"), CacheDecision::StartFetch));
}

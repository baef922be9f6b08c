use weld::errors::ResolveError;
use weld::resolver::{Cache, CachingStrategy, FetchPlan, ResolveAction};

const URL: &str = "https://example.com/pb.wasm";

fn stored(strategy: CachingStrategy) -> Cache {
    let mut cache = Cache::with_strategy(strategy);
    let body = vec![1u8, 2, 3];
    let r = cache.store_response(URL, 200, Some("\"etag-1\""), body);
    assert!(matches!(r, Ok(ref b) if b == &vec![1u8, 2, 3]));
    cache
}

#[test]
fn never_strategy_downloads_every_time() {
    let mut cache = Cache::with_strategy(CachingStrategy::Never);
    assert!(matches!(cache.lookup(URL), FetchPlan::Download));
    let r = cache.store_response(URL, 200, Some("\"etag-1\""), vec![1, 2, 3]);
    assert!(r.is_ok());
    // even immediately repeated, the same URL is downloaded again
    assert!(matches!(cache.lookup(URL), FetchPlan::Download));
    assert!(matches!(cache.lookup(URL), FetchPlan::Download));
}

#[test]
fn url_strategy_serves_after_one_download() {
    let cache = stored(CachingStrategy::Url);
    // the second resolution is served from the cache: one request total
    match cache.lookup(URL) {
        FetchPlan::Serve(bytes) => assert_eq!(bytes, vec![1, 2, 3]),
        other => panic!("expected the cached bytes, got {:?}", kind(&other)),
    }
}

#[test]
fn url_strategy_refetches_when_no_etag_was_stored() {
    let mut cache = Cache::with_strategy(CachingStrategy::Url);
    let r = cache.store_response(URL, 200, None, vec![1, 2, 3]);
    assert!(r.is_ok());
    // a response without an entity tag is never cached
    assert!(matches!(cache.lookup(URL), FetchPlan::Download));
}

#[test]
fn etags_strategy_revalidates_and_304_serves_stored_bytes() {
    let cache = stored(CachingStrategy::Etags);
    match cache.lookup(URL) {
        FetchPlan::Revalidate(etag) => assert_eq!(etag, "\"etag-1\""),
        other => panic!("expected a conditional request, got {:?}", kind(&other)),
    }
    // 304 Not Modified: the bytes of the first download come back
    let bytes = cache.check_etag(URL, Some(304));
    assert_eq!(bytes, Some(vec![1, 2, 3]));
}

#[test]
fn etags_strategy_other_status_forces_full_fetch() {
    let cache = stored(CachingStrategy::Etags);
    assert_eq!(cache.check_etag(URL, Some(200)), None);
    assert_eq!(cache.check_etag(URL, None), None);
}

#[test]
fn non_success_status_is_a_transport_error() {
    let mut cache = Cache::with_strategy(CachingStrategy::Url);
    let r = cache.store_response(URL, 404, Some("\"e\""), vec![9]);
    assert!(matches!(r, Err(ResolveError::Transport(_))));
    assert!(matches!(cache.lookup(URL), FetchPlan::Download));
}

#[test]
fn overwriting_a_bucket_keeps_one_entry_per_url() {
    let mut cache = stored(CachingStrategy::Url);
    let r = cache.store_response(URL, 200, Some("\"etag-2\""), vec![7, 8]);
    assert!(r.is_ok());
    assert_eq!(cache.entries.len(), 1);
    match cache.lookup(URL) {
        FetchPlan::Serve(bytes) => assert_eq!(bytes, vec![7, 8]),
        other => panic!("expected the fresh bytes, got {:?}", kind(&other)),
    }
}

#[test]
fn file_reads_never_touch_the_remote_cache() {
    let cache = Cache::with_strategy(CachingStrategy::Url);
    match cache.read("file:///tmp/x.bin") {
        Ok(ResolveAction::ReadLocalFile(path)) => assert_eq!(path, "/tmp/x.bin"),
        _ => panic!("expected a local read"),
    }
    assert_eq!(cache.entries.len(), 0);
}

#[test]
fn read_dispatches_package_references_to_the_cdn() {
    let cache = Cache::with_strategy(CachingStrategy::Url);
    match cache.read("wapm://hotg-ai/softmax?version=0.12.0") {
        Ok(ResolveAction::Fetch { url, plan }) => {
            assert_eq!(
                url,
                "https://registry-cdn.wapm.io/contents/hotg-ai/softmax/0.12.0/softmax.wasm"
            );
            assert!(matches!(plan, FetchPlan::Download));
        }
        _ => panic!("expected a fetch"),
    }
}

#[test]
fn read_refuses_unknown_schemes() {
    let cache = Cache::with_strategy(CachingStrategy::Url);
    assert!(matches!(
        cache.read("gopher://x/y"),
        Err(ResolveError::UnsupportedScheme(_))
    ));
}

#[test]
fn caching_strategy_from_kebab_names() {
    assert_eq!(CachingStrategy::from_kebab("etags"), Some(CachingStrategy::Etags));
    assert_eq!(CachingStrategy::from_kebab("url"), Some(CachingStrategy::Url));
    assert_eq!(CachingStrategy::from_kebab("never"), Some(CachingStrategy::Never));
    assert_eq!(CachingStrategy::from_kebab("always"), None);
}

fn kind(plan: &FetchPlan) -> &'static str {
    match plan {
        FetchPlan::Serve(_) => "serve",
        FetchPlan::Revalidate(_) => "revalidate",
        FetchPlan::Download => "download",
    }
}

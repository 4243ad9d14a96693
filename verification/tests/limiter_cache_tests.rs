use memvid_export_api::cache::{new_query_cache, QueryCache};
use memvid_export_api::rate_limit::RateLimiter;

#[test]
fn rate_limit_bucket_exhaustion() {
    // per-minute 1, burst 1: capacity is one token, refilled once a minute
    let mut limiter = RateLimiter::new(1, 1);
    let key = "client".to_string();
    let first = limiter.check(&key, 0);
    assert!(first.allowed);
    assert_eq!(first.headers.limit, 1);
    assert_eq!(first.headers.remaining, 0);
    let second = limiter.check(&key, 500);
    assert!(!second.allowed);
    assert_eq!(second.headers.remaining, 0);
    assert!(second.headers.reset_seconds >= 1);
}

#[test]
fn rate_limit_capacity_is_max_of_burst_and_rate() {
    // with per-minute 60 and burst 1 the capacity is sixty tokens, so two
    // calls within the same second are both allowed
    let mut limiter = RateLimiter::new(60, 1);
    let key = "client".to_string();
    let first = limiter.check(&key, 0);
    assert!(first.allowed);
    assert_eq!(first.headers.limit, 60);
    assert_eq!(first.headers.remaining, 59);
    let second = limiter.check(&key, 0);
    assert!(second.allowed);
    assert_eq!(second.headers.remaining, 58);
}

#[test]
fn rate_limit_refills_over_time() {
    let mut limiter = RateLimiter::new(60, 1);
    let key = "client".to_string();
    // drain the bucket
    let mut last_allowed = true;
    for _ in 0..60 {
        last_allowed = limiter.check(&key, 0).allowed;
    }
    assert!(last_allowed);
    assert!(!limiter.check(&key, 0).allowed);
    // one token refills per second at sixty per minute
    let after = limiter.check(&key, 1000);
    assert!(after.allowed);
    assert_eq!(after.headers.remaining, 0);
}

#[test]
fn rate_limit_keys_are_independent(){
    let mut limiter = RateLimiter::new(1, 1);
    let a = "a".to_string();
    let b = "b".to_string();
    assert!(limiter.check(&a, 0).allowed);
    assert!(!limiter.check(&a, 0).allowed);
    assert!(limiter.check(&b, 0).allowed);
}

#[test]
fn cache_bounded_lru_eviction() {
    let mut cache: QueryCache = new_query_cache(2);
    cache.set("a".to_string(), "1".to_string());
    cache.set("b".to_string(), "2".to_string());
    // touching `a` makes `b` the least recently used
    assert_eq!(cache.get(&"a".to_string()).unwrap().as_str(), "1");
    cache.set("c".to_string(), "3".to_string());
    assert!(cache.get(&"b".to_string()).is_none());
    assert_eq!(cache.get(&"a".to_string()).unwrap().as_str(), "1");
    assert_eq!(cache.get(&"c".to_string()).unwrap().as_str(), "3");
}

#[test]
fn cache_set_refreshes_existing_key() {
    let mut cache: QueryCache = new_query_cache(2);
    cache.set("a".to_string(), "1".to_string());
    cache.set("a".to_string(), "9".to_string());
    assert_eq!(cache.get(&"a".to_string()).unwrap().as_str(), "9");
    cache.set("b".to_string(), "2".to_string());
    cache.set("c".to_string(), "3".to_string());
    // `a` was the least recently used entry once `b` and `c` arrived
    assert!(cache.get(&"a".to_string()).is_none());
    assert_eq!(cache.get(&"b".to_string()).unwrap().as_str(), "2");
    assert_eq!(cache.get(&"c".to_string()).unwrap().as_str(), "3");
}

#[test]
fn cache_capacity_floor_is_one() {
    let mut cache: QueryCache = new_query_cache(0);
    cache.set("a".to_string(), "1".to_string());
    cache.set("b".to_string(), "2".to_string());
    assert!(cache.get(&"a".to_string()).is_none());
    assert_eq!(cache.get(&"b".to_string()).unwrap().as_str(), "2");
}

use saelora::api::rate_limit::{
    allow_attempt, check_auth_attempt, client_fingerprint, limiter_key, prune_stale,
    rule_for_path, RateLimitBuckets, Rule,
};

#[test]
fn allow_attempt_blocks_after_limit_and_resets_after_window() {
    let mut buckets = RateLimitBuckets::new();
    let key = "k";
    let rule = Rule {
        max_attempts: 2,
        window_ms: 1000,
    };
    assert!(allow_attempt(&mut buckets, key, 100, rule));
    assert!(allow_attempt(&mut buckets, key, 200, rule));
    assert!(!allow_attempt(&mut buckets, key, 300, rule));
    assert!(allow_attempt(&mut buckets, key, 1200, rule));
}

#[test]
fn rule_is_defined_for_auth_paths() {
    assert!(rule_for_path("/v1/auth/login").is_some());
    assert!(rule_for_path("/v1/auth/request-password-link").is_some());
    assert!(rule_for_path("/v1/auth/setup").is_some());
    assert!(rule_for_path("/invite").is_some());
    assert!(rule_for_path("/v1/chat/completions").is_none());
}

#[test]
fn rule_values_per_path() {
    let r = rule_for_path("/v1/auth/login").unwrap();
    assert_eq!((r.max_attempts, r.window_ms), (24, 300_000));
    let r = rule_for_path("/v1/auth/register").unwrap();
    assert_eq!((r.max_attempts, r.window_ms), (12, 600_000));
    let r = rule_for_path("/invite").unwrap();
    assert_eq!((r.max_attempts, r.window_ms), (20, 3_600_000));
}

#[test]
fn attempts_on_other_keys_do_not_interfere() {
    let mut buckets = RateLimitBuckets::new();
    let rule = Rule {
        max_attempts: 1,
        window_ms: 1000,
    };
    assert!(allow_attempt(&mut buckets, "a", 0, rule));
    assert!(!allow_attempt(&mut buckets, "a", 10, rule));
    assert!(allow_attempt(&mut buckets, "b", 20, rule));
    assert_eq!(buckets.len(), 2);
    let a = buckets.get("a").unwrap();
    assert_eq!(a.attempts, 2);
    assert_eq!(a.window_start_ms, 0);
    assert_eq!(a.last_seen_ms, 10);
    assert!(buckets.get("c").is_none());
}

#[test]
fn prune_drops_only_stale_buckets() {
    let mut buckets = RateLimitBuckets::new();
    let rule = Rule {
        max_attempts: 5,
        window_ms: 1000,
    };
    allow_attempt(&mut buckets, "old", 0, rule);
    allow_attempt(&mut buckets, "new", 21_000_000, rule);
    prune_stale(&mut buckets, 21_600_001);
    assert!(buckets.get("old").is_none());
    assert!(buckets.get("new").is_some());
    assert_eq!(buckets.len(), 1);
}

#[test]
fn fingerprint_prefers_forwarded_then_real_ip() {
    assert_eq!(
        client_fingerprint(Some(" 1.2.3.4 , 5.6.7.8"), Some("9.9.9.9")),
        "1.2.3.4"
    );
    assert_eq!(client_fingerprint(Some("  ,x"), Some(" 9.9.9.9 ")), "9.9.9.9");
    assert_eq!(client_fingerprint(None, None), "unknown-client");
    assert_eq!(client_fingerprint(None, Some("   ")), "unknown-client");
}

#[test]
fn auth_attempts_are_keyed_by_path_and_client() {
    assert_eq!(limiter_key("/invite", "1.2.3.4"), "/invite|1.2.3.4");
    let mut buckets = RateLimitBuckets::new();
    assert!(check_auth_attempt(&mut buckets, "/v1/chat/completions", "c", 0));
    assert_eq!(buckets.len(), 0);
    for i in 0..12 {
        assert!(check_auth_attempt(&mut buckets, "/v1/auth/register", "c", i));
    }
    assert!(!check_auth_attempt(&mut buckets, "/v1/auth/register", "c", 20));
    assert!(check_auth_attempt(&mut buckets, "/v1/auth/register", "d", 20));
    assert!(check_auth_attempt(&mut buckets, "/v1/auth/register", "c", 600_000));
}

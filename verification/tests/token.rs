use calendar_sync::token::TokenCache;

#[test]
fn token_reuse_with_long_lifetime() {
    let mut cache = TokenCache::new();
    cache.install_token("tok-a".to_string(), Some(3600), 1_000);
    // remaining lifetime 3600s > 10s: the cached secret comes back, no refresh
    assert_eq!(cache.get_valid_token(1_000).unwrap(), "tok-a");
    // still reusable one second before the margin bites
    assert_eq!(cache.get_valid_token(4_589).unwrap(), "tok-a");
}

#[test]
fn token_refresh_at_exact_margin() {
    let mut cache = TokenCache::new();
    cache.install_token("tok-a".to_string(), Some(3600), 1_000);
    // expires at 4600; at 4590 the remaining lifetime is exactly 10s: refresh
    assert!(cache.get_valid_token(4_590).is_none());
    // and past the margin as well
    assert!(cache.get_valid_token(4_600).is_none());
    assert!(cache.get_valid_token(10_000).is_none());
}

#[test]
fn token_refresh_with_unknown_lifetime() {
    let mut cache = TokenCache::new();
    cache.install_token("tok-a".to_string(), None, 1_000);
    assert!(cache.get_valid_token(1_000).is_none());
}

#[test]
fn empty_cache_demands_refresh() {
    let cache = TokenCache::new();
    assert!(cache.get_valid_token(0).is_none());
    assert!(cache.get_valid_token(u64::MAX).is_none());
}

#[test]
fn install_replaces_cached_token() {
    let mut cache = TokenCache::new();
    cache.install_token("tok-a".to_string(), Some(3600), 1_000);
    let handed_back = cache.install_token("tok-b".to_string(), Some(3600), 2_000);
    assert_eq!(handed_back, "tok-b");
    // the old token is gone wholesale
    assert_eq!(cache.get_valid_token(2_000).unwrap(), "tok-b");
}

#[test]
fn install_clamps_overflowing_expiry() {
    let mut cache = TokenCache::new();
    cache.install_token("tok-a".to_string(), Some(u64::MAX), u64::MAX - 5);
    // clamped to the largest representable instant: still far beyond the margin
    assert_eq!(cache.get_valid_token(1_000).unwrap(), "tok-a");
    // at the end of representable time the margin can no longer be honoured
    assert!(cache.get_valid_token(u64::MAX).is_none());
}

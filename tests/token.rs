use omi_store::token::{assertion_claims, AuthError, CachedToken, TokenCache, TokenStep};

#[test]
fn empty_cache_refreshes_by_credential_or_metadata() {
    let cache = TokenCache::new();
    assert!(matches!(cache.next_step(1000, true), TokenStep::ExchangeAssertion));
    assert!(matches!(cache.next_step(1000, false), TokenStep::AskMetadataServer));
    assert_eq!(cache.fresh_token(1000), None);
}

#[test]
fn token_is_handed_out_only_with_more_than_a_minute_left() {
    let cache = TokenCache { cached: Some(CachedToken { token: "tok".to_string(), expires_at: 5000 }) };
    assert_eq!(cache.fresh_token(4939), Some("tok".to_string()));
    assert_eq!(cache.fresh_token(4940), None);
    assert!(matches!(cache.next_step(4000, true), TokenStep::Ready(t) if t == "tok"));
    assert!(matches!(cache.next_step(4940, true), TokenStep::ExchangeAssertion));
}

#[test]
fn refresh_keeps_token_for_cache_lifetime() {
    let mut cache = TokenCache::new();
    let r = cache.finish_refresh(Ok("new".to_string()), 1000);
    assert_eq!(r, Ok("new".to_string()));
    let c = cache.cached.as_ref().unwrap();
    assert_eq!(c.expires_at, 4300);
    assert_eq!(cache.fresh_token(4239), Some("new".to_string()));
    assert_eq!(cache.fresh_token(4240), None);
}

#[test]
fn failed_refresh_caches_nothing() {
    let mut cache = TokenCache::new();
    let r = cache.finish_refresh(Err(AuthError::NoMethod), 1000);
    assert_eq!(r, Err(AuthError::NoMethod));
    assert!(cache.cached.is_none());
    let r = cache.finish_refresh(Err(AuthError::Exchange("denied".to_string())), 1000);
    assert_eq!(r, Err(AuthError::Exchange("denied".to_string())));
}

#[test]
fn clearing_forces_a_refresh() {
    let mut cache = TokenCache { cached: Some(CachedToken { token: "tok".to_string(), expires_at: 9000 }) };
    cache.clear();
    assert!(matches!(cache.next_step(0, true), TokenStep::ExchangeAssertion));
}

#[test]
fn assertion_claims_expire_after_an_hour() {
    let c = assertion_claims(&"svc@example.com".to_string(), &None, 100);
    assert_eq!(c.iss, "svc@example.com");
    assert_eq!(c.aud, "https://oauth2.googleapis.com/token");
    assert_eq!(c.iat, 100);
    assert_eq!(c.exp, 3700);
    assert!(c.scope.contains("datastore"));
    let d = assertion_claims(&"x".to_string(), &Some("https://t.example/token".to_string()), 0);
    assert_eq!(d.aud, "https://t.example/token");
}

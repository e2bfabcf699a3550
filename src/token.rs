//! Bearer-token cache decisions. The cache holds at most one token; a token
//! is handed out only while it has more than a minute of validity left.
use vstd::prelude::*;

verus! {

/// Seconds of validity a cached token must still have to be handed out.
pub const FRESHNESS_MARGIN: i64 = 60;

/// Seconds a fetched token is kept: five minutes short of its real hour.
pub const CACHE_LIFETIME: i64 = 3300;

/// Seconds between a signed assertion's issue time and its expiry.
pub const ASSERTION_LIFETIME: i64 = 3600;

/// The endpoint that signed assertions are exchanged at when the
/// credential names none.
pub const DEFAULT_TOKEN_URI: &'static str = "https://oauth2.googleapis.com/token";

/// The scopes that the exchanged token is asked for.
pub const TOKEN_SCOPE: &'static str = "https://www.googleapis.com/auth/datastore https://www.googleapis.com/auth/cloud-platform";

/// A bearer token and the instant (seconds since the epoch) it stops being
/// handed out.
pub struct CachedToken {
    pub token: String,
    pub expires_at: i64,
}

/// The process-wide token cache.
pub struct TokenCache {
    pub cached: Option<CachedToken>,
}

/// What the caller of the cache has to do next.
pub enum TokenStep {
    /// Use this token.
    Ready(String),
    /// Sign an assertion with the configured credential and exchange it.
    ExchangeAssertion,
    /// Ask the platform's metadata service for a token.
    AskMetadataServer,
}

/// Why no token could be had.
#[derive(Debug, PartialEq)]
pub enum AuthError {
    /// Neither a credential nor the metadata service gave a token.
    NoMethod,
    /// The token endpoint refused the assertion; its answer is kept.
    Exchange(String),
}

/// The claims of the assertion that is signed and exchanged for a token.
pub struct AssertionClaims {
    pub iss: String,
    pub scope: String,
    pub aud: String,
    pub iat: i64,
    pub exp: i64,
}

/// A cached token may be handed out at `now`.
pub open spec fn is_fresh(c: CachedToken, now: int) -> bool {
    c.expires_at > now + FRESHNESS_MARGIN
}

impl TokenCache {
    /// An empty cache.
    pub fn new() -> (r: TokenCache)
        ensures
            r.cached is None,
    {
        TokenCache { cached: None }
    }

    /// The cached token, if there is one with more than a minute left at `now`.
    pub fn fresh_token(&self, now: i64) -> (r: Option<String>)
        ensures
            r is Some <==> (self.cached is Some && is_fresh(self.cached->0, now as int)),
            r is Some ==> r->0@ == self.cached->0.token@,
    {
        match &self.cached {
            Some(c) => {
                if c.expires_at as i128 > now as i128 + FRESHNESS_MARGIN as i128 {
                    Some(c.token.clone())
                } else {
                    None
                }
            },
            None => None,
        }
    }

    /// The next step towards a token at `now`: the cached one while it is
    /// fresh, otherwise a refresh by the configured credential if there is
    /// one, or else by the metadata service.
    pub fn next_step(&self, now: i64, has_credential: bool) -> (r: TokenStep)
        ensures
            (self.cached is Some && is_fresh(self.cached->0, now as int)) ==> (r is Ready
                && r->Ready_0@ == self.cached->0.token@),
            !(self.cached is Some && is_fresh(self.cached->0, now as int)) ==> (if has_credential {
                r is ExchangeAssertion
            } else {
                r is AskMetadataServer
            }),
    {
        match self.fresh_token(now) {
            Some(t) => TokenStep::Ready(t),
            None => if has_credential {
                TokenStep::ExchangeAssertion
            } else {
                TokenStep::AskMetadataServer
            },
        }
    }

    /// Keeps a token fetched at `now` for the cache lifetime and hands it out.
    /// A failed fetch leaves the cache as it was.
    pub fn finish_refresh(&mut self, fetched: Result<String, AuthError>, now: i64) -> (r: Result<
        String,
        AuthError,
    >)
        requires
            now <= i64::MAX - CACHE_LIFETIME,
        ensures
            match fetched {
                Ok(t) => {
                    &&& r is Ok
                    &&& r->Ok_0@ == t@
                    &&& final(self).cached is Some
                    &&& final(self).cached->0.token@ == t@
                    &&& final(self).cached->0.expires_at == now + CACHE_LIFETIME
                },
                Err(e) => r == Err::<String, AuthError>(e) && final(self).cached == old(self).cached,
            },
    {
        match fetched {
            Ok(t) => {
                self.cached = Some(CachedToken { token: t.clone(), expires_at: now + CACHE_LIFETIME });
                Ok(t)
            },
            Err(e) => Err(e),
        }
    }

    /// Drops the cached token, so that the next request refreshes.
    pub fn clear(&mut self)
        ensures
            final(self).cached is None,
    {
        self.cached = None;
    }
}

/// The claims for an assertion issued at `now` by `client_email`, addressed
/// to `token_uri` or, without one, to the default endpoint.
pub fn assertion_claims(client_email: &String, token_uri: &Option<String>, now: i64) -> (r:
    AssertionClaims)
    requires
        now <= i64::MAX - ASSERTION_LIFETIME,
    ensures
        r.iss@ == client_email@,
        r.scope@ == TOKEN_SCOPE@,
        r.aud@ == (match token_uri {
            Some(u) => u@,
            None => DEFAULT_TOKEN_URI@,
        }),
        r.iat == now,
        r.exp == now + ASSERTION_LIFETIME,
{
    let aud = match token_uri {
        Some(u) => u.clone(),
        None => String::from_str(DEFAULT_TOKEN_URI),
    };
    AssertionClaims {
        iss: client_email.clone(),
        scope: String::from_str(TOKEN_SCOPE),
        aud,
        iat: now,
        exp: now + ASSERTION_LIFETIME,
    }
}

/// A token is handed out only with more than a minute of validity left, and
/// one kept by a refresh at `fetched_at` is handed out until that minute
/// before the end of its cache lifetime.
pub proof fn law_token_freshness(t: CachedToken, fetched_at: int, now: int)
    requires
        t.expires_at == fetched_at + CACHE_LIFETIME,
    ensures
        is_fresh(t, now) ==> t.expires_at - now > FRESHNESS_MARGIN,
        is_fresh(t, now) <==> now < fetched_at + CACHE_LIFETIME - FRESHNESS_MARGIN,
{
}

} // verus!

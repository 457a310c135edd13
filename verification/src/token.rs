//! The per-session OAuth token cache: holds at most one bearer token and
//! decides, against the clock, whether it may be reused or must be replaced.

use vstd::prelude::*;

verus! {

/// Remaining lifetime, in seconds, at or below which a cached token is
/// discarded rather than reused. The margin absorbs the latency of the HTTP
/// call the token is about to authorize, so the token cannot expire
/// mid-request.
pub const REFRESH_MARGIN_SECS: u64 = 10;

/// A bearer token together with the instant (seconds since the Unix epoch) at
/// which the provider stops accepting it, when the provider said so.
pub struct OAuthToken {
    pub secret: String,
    pub expires_at: Option<u64>,
}

/// Holds at most one token. A cache is owned by a single sync session: it
/// offers no synchronization for concurrent refresh, so two sessions must
/// never share one.
pub struct TokenCache {
    token: Option<OAuthToken>,
}

/// The absolute expiry instant of a token issued at `now` with the given
/// remaining lifetime; an expiry beyond the representable range is clamped.
pub open spec fn spec_expiry(expires_in: Option<u64>, now: u64) -> Option<u64> {
    match expires_in {
        None => None,
        Some(d) => Some(
            if now + d > u64::MAX {
                u64::MAX
            } else {
                (now + d) as u64
            },
        ),
    }
}

impl TokenCache {
    /// The token currently held, if any.
    pub closed spec fn cached(self) -> Option<OAuthToken> {
        self.token
    }

    /// A cached token may be reused at `now` only if its expiry is known and
    /// lies more than the safety margin ahead; with no token, an unknown
    /// expiry, or a remaining lifetime at most the margin, a fresh token is
    /// required.
    pub open spec fn must_refresh(self, now: u64) -> bool {
        match self.cached() {
            None => true,
            Some(t) => match t.expires_at {
                None => true,
                Some(e) => e <= now + REFRESH_MARGIN_SECS,
            },
        }
    }

    /// A new cache holds no token, so its first use always refreshes.
    pub fn new() -> (c: Self)
        ensures
            c.cached() is None,
    {
        TokenCache { token: None }
    }

    /// Returns the cached secret exactly when the cached token is still safe
    /// to use at `now`; `None` demands that the caller obtain a fresh token
    /// from the token source and install it.
    pub fn get_valid_token(&self, now: u64) -> (r: Option<String>)
        ensures
            match r {
                Some(s) => !self.must_refresh(now) && s == self.cached()->Some_0.secret,
                None => self.must_refresh(now),
            },
    {
        match &self.token {
            None => None,
            Some(t) => match t.expires_at {
                None => None,
                Some(e) => {
                    if e > REFRESH_MARGIN_SECS && e - REFRESH_MARGIN_SECS > now {
                        Some(t.secret.clone())
                    } else {
                        None
                    }
                },
            },
        }
    }

    /// Installs a token just obtained from the token source, unconditionally
    /// replacing whatever was cached, and hands the secret back for immediate
    /// use. `expires_in` is the remaining lifetime the source reported, if
    /// any; `now` is the instant of issuance.
    pub fn install_token(&mut self, secret: String, expires_in: Option<u64>, now: u64) -> (r:
        String)
        ensures
            r == secret,
            final(self).cached() matches Some(t) && t.secret == secret && t.expires_at
                == spec_expiry(expires_in, now),
    {
        let expires_at = match expires_in {
            None => None,
            Some(d) => Some(
                if d > u64::MAX - now {
                    u64::MAX
                } else {
                    now + d
                },
            ),
        };
        let r = secret.clone();
        self.token = Some(OAuthToken { secret, expires_at });
        r
    }
}

/// Token reuse: a cached token whose known expiry lies more than the safety
/// margin beyond `now` is reused as it stands; no call to the token source is
/// needed.
pub proof fn lemma_token_reuse(c: TokenCache, now: u64)
    requires
        c.cached() matches Some(t) && t.expires_at matches Some(e) && e > now
            + REFRESH_MARGIN_SECS,
    ensures
        !c.must_refresh(now),
{
}

/// Token refresh boundary: with no cached token, an unknown expiry, or a
/// remaining lifetime at most the safety margin (the margin itself included),
/// the cache demands exactly one exchange with the token source, whose result
/// then replaces the cached token wholesale.
pub proof fn lemma_token_refresh_boundary(c: TokenCache, now: u64)
    requires
        c.cached() matches Some(t) ==> (t.expires_at is None || t.expires_at->Some_0 <= now
            + REFRESH_MARGIN_SECS),
    ensures
        c.must_refresh(now),
{
}

} // verus!

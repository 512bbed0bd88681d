//! The credential manager: sole owner of the current access/refresh token
//! pair and its expiry. Expiry is tested before every calendar access;
//! a refreshed pair replaces the old one in place, atomically — the stale
//! access token is discarded, never copied. The token-endpoint exchange
//! itself is a network call and happens outside; on its failure the
//! caller aborts the sync cycle without touching the event store.

use vstd::prelude::*;

verus! {

/// The process-lifetime credential: access token, refresh token, and the
/// access token's expiry as a civil timestamp in seconds.
pub struct Credential {
    pub access_token: String,
    pub refresh_token: String,
    pub expires_at: i64,
}

pub struct CredentialManager {
    cred: Credential,
}

impl CredentialManager {
    pub closed spec fn spec_access(&self) -> Seq<char> {
        self.cred.access_token@
    }

    pub closed spec fn spec_refresh(&self) -> Seq<char> {
        self.cred.refresh_token@
    }

    pub closed spec fn spec_expires_at(&self) -> int {
        self.cred.expires_at as int
    }

    pub fn new(access_token: String, refresh_token: String, expires_at: i64) -> (r: Self)
        ensures
            r.spec_access() == access_token@,
            r.spec_refresh() == refresh_token@,
            r.spec_expires_at() == expires_at,
    {
        CredentialManager { cred: Credential { access_token, refresh_token, expires_at } }
    }

    /// Whether the access token must be refreshed before use at `now`.
    pub fn is_expired(&self, now: i64) -> (r: bool)
        ensures
            r == (self.spec_expires_at() <= now),
    {
        self.cred.expires_at <= now
    }

    /// The access token to present to the calendar source.
    pub fn access_token(&self) -> (r: &String)
        ensures
            r@ == self.spec_access(),
    {
        &self.cred.access_token
    }

    /// The refresh token to present to the token endpoint.
    pub fn refresh_token(&self) -> (r: &String)
        ensures
            r@ == self.spec_refresh(),
    {
        &self.cred.refresh_token
    }

    /// Replaces the credential with a freshly exchanged one, atomically.
    /// The old access token is discarded; when the endpoint returned no
    /// new refresh token, the old refresh token is kept.
    pub fn install(&mut self, access_token: String, refresh_token: Option<String>, expires_at: i64)
        ensures
            final(self).spec_access() == access_token@,
            final(self).spec_expires_at() == expires_at,
            match refresh_token {
                Some(rt) => final(self).spec_refresh() == rt@,
                None => final(self).spec_refresh() == old(self).spec_refresh(),
            },
    {
        match refresh_token {
            Some(rt) => {
                self.cred = Credential { access_token, refresh_token: rt, expires_at };
            },
            None => {
                self.cred.access_token = access_token;
                self.cred.expires_at = expires_at;
            },
        }
    }
}

} // verus!

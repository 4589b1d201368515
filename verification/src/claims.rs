//! The claims carried by a session token. Signing and verifying the token
//! is the caller's job; the engine only fixes what the claims say.

use vstd::prelude::*;

verus! {

/// How long a session token stays valid, in seconds.
pub const TOKEN_TTL_SECS: usize = 3600;

/// Subject, role and expiry of a session token.
pub struct Claims {
    pub sub: String,
    pub role: String,
    pub exp: usize,
}

impl Claims {
    /// Claims for `sub` acting as `role`, issued at `now` (seconds since
    /// the epoch) and expiring one TTL later.
    pub fn new(sub: String, role: String, now: usize) -> (r: Claims)
        requires
            now + TOKEN_TTL_SECS <= usize::MAX,
        ensures
            r.sub == sub,
            r.role == role,
            r.exp == now + TOKEN_TTL_SECS,
    {
        Claims { sub, role, exp: now + TOKEN_TTL_SECS }
    }
}

impl Clone for Claims {
    fn clone(&self) -> (r: Self)
        ensures
            r == *self,
    {
        Claims { sub: self.sub.clone(), role: self.role.clone(), exp: self.exp }
    }
}

} // verus!

//! Runtime configuration of the services around the engine. Loading it
//! from the environment is the caller's job; the engine itself reads
//! nothing from it.

use vstd::prelude::*;

verus! {

/// Connection strings, signing secret and listening ports.
pub struct Config {
    pub database_url: String,
    pub redis_url: String,
    pub jwt_secret: String,
    pub port_auth: u16,
    pub port_room_management: u16,
}

impl Clone for Config {
    fn clone(&self) -> (r: Self)
        ensures
            r == *self,
    {
        Config {
            database_url: self.database_url.clone(),
            redis_url: self.redis_url.clone(),
            jwt_secret: self.jwt_secret.clone(),
            port_auth: self.port_auth,
            port_room_management: self.port_room_management,
        }
    }
}

} // verus!

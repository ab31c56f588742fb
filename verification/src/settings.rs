use vstd::prelude::*;

verus! {

/// Process configuration, loaded once at startup by the surrounding
/// application and immutable thereafter.
pub struct Settings {
    pub database_url: String,
    pub redis_url: String,
    pub jwt_secret: String,
    pub server_host: String,
    pub server_port: u16,
}

impl Settings {
    /// Builds a configuration record from already-loaded plain values.
    pub fn new(
        database_url: String,
        redis_url: String,
        jwt_secret: String,
        server_host: String,
        server_port: u16,
    ) -> (r: Settings)
        ensures
            r.database_url@ == database_url@,
            r.redis_url@ == redis_url@,
            r.jwt_secret@ == jwt_secret@,
            r.server_host@ == server_host@,
            r.server_port == server_port,
    {
        Settings { database_url, redis_url, jwt_secret, server_host, server_port }
    }
}

} // verus!

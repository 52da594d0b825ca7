//! The configuration that the service runs under. Every issue and every
//! check of a token is handed the part it needs; nothing reads it from the
//! surroundings.

use vstd::prelude::*;

verus! {

/// Where the tables live.
#[derive(Debug, Clone)]
pub struct DatabaseConfig {
    pub url: String,
}

/// Where the service listens, and the origin that may call it from a
/// browser.
#[derive(Debug, Clone)]
pub struct WebConfig {
    pub addr: String,
    pub port: u16,
    pub cors_origin: String,
}

/// The signing secret and the lifetimes of the two tokens.
#[derive(Debug, Clone)]
pub struct JwtConfig {
    pub secret: String,
    pub access_token_expires_minutes: i64,
    pub refresh_token_expires_days: i64,
}

/// How many requests one client may send to the public routes.
#[derive(Debug, Clone)]
pub struct RateLimitConfig {
    pub per_second: u64,
    pub burst_size: u32,
}

/// The whole configuration.
#[derive(Debug, Clone)]
pub struct AppConfig {
    pub web: WebConfig,
    pub database: DatabaseConfig,
    pub jwt: JwtConfig,
    pub ratelimit: RateLimitConfig,
}

} // verus!

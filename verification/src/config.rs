//! Application configuration, with the defaults the server falls back
//! to. Loading from files and the environment is the boundary's job; the
//! shapes and defaults live here.

use vstd::prelude::*;

verus! {

/// Where the server listens.
#[derive(Debug)]
pub struct ServerConfig {
    /// The bind address.
    pub host: String,
    /// The TCP port.
    pub port: u16,
}

impl Default for ServerConfig {
    /// Listen on every interface, port 8000.
    fn default() -> (r: ServerConfig)
        ensures
            r.host@ == "0.0.0.0"@,
            r.port == 8000,
    {
        ServerConfig { host: String::from_str("0.0.0.0"), port: 8000 }
    }
}

/// Logging configuration.
#[derive(Debug)]
pub struct LogConfig {
    /// The minimum level to emit.
    pub level: String,
}

impl Default for LogConfig {
    /// Log at debug level.
    fn default() -> (r: LogConfig)
        ensures
            r.level@ == "debug"@,
    {
        LogConfig { level: String::from_str("debug") }
    }
}

/// Database configuration.
#[derive(Debug)]
pub struct DatabaseConfig {
    /// The connection URL.
    pub url: String,
}

impl Default for DatabaseConfig {
    /// A local default database.
    fn default() -> (r: DatabaseConfig)
        ensures
            r.url@ == "postgres://postgres:@localhost:5432/db"@,
    {
        DatabaseConfig { url: String::from_str("postgres://postgres:@localhost:5432/db") }
    }
}

/// Session configuration.
#[derive(Debug)]
pub struct SessionConfig {
    /// Seconds of inactivity after which a session expires.
    pub inactivity_timeout: u64,
}

impl Default for SessionConfig {
    /// Fourteen days of inactivity.
    fn default() -> (r: SessionConfig)
        ensures
            r.inactivity_timeout == 1209600,
    {
        SessionConfig { inactivity_timeout: 14 * 24 * 60 * 60 }
    }
}

impl SessionConfig {
    /// The inactivity timeout as signed seconds, the form duration
    /// builders take; timeouts beyond the signed range are clamped.
    pub fn inactivity_timeout_seconds(&self) -> (r: i64)
        ensures
            self.inactivity_timeout <= i64::MAX ==> r == self.inactivity_timeout,
            self.inactivity_timeout > i64::MAX ==> r == i64::MAX,
    {
        if self.inactivity_timeout > i64::MAX as u64 {
            i64::MAX
        } else {
            self.inactivity_timeout as i64
        }
    }
}

/// The application configuration.
#[derive(Debug)]
pub struct AppConfig {
    /// Where the server listens.
    pub server: ServerConfig,
    /// Logging configuration.
    pub log: LogConfig,
    /// Database configuration.
    pub database: DatabaseConfig,
    /// Session configuration.
    pub session: SessionConfig,
}

impl Default for AppConfig {
    /// Every section at its default.
    fn default() -> (r: AppConfig)
        ensures
            r.server.host@ == "0.0.0.0"@,
            r.server.port == 8000,
            r.log.level@ == "debug"@,
            r.database.url@ == "postgres://postgres:@localhost:5432/db"@,
            r.session.inactivity_timeout == 1209600,
    {
        AppConfig {
            server: Default::default(),
            log: Default::default(),
            database: Default::default(),
            session: Default::default(),
        }
    }
}

} // verus!

//! The relay server's configuration: listen address, storage paths and
//! retention, optional TLS, TURN settings, the admin master key, and limits.
//! Loading and saving the file is the host program's business; the defaults
//! are specified here.

use vstd::prelude::*;

verus! {

/// Where the server listens.
#[derive(Debug)]
pub struct ServerConfig {
    pub host: String,
    pub port: u16,
}

/// Where state lives and how long it is retained.
#[derive(Debug)]
pub struct StorageConfig {
    pub database_path: String,
    pub files_path: String,
    pub max_message_age_hours: u64,
    pub max_file_age_hours: u64,
    pub cleanup_interval_minutes: u64,
}

/// Certificate and key paths when TLS terminates here.
#[derive(Debug)]
pub struct TlsConfig {
    pub cert_path: String,
    pub key_path: String,
}

/// The TURN relay settings used to mint media credentials.
#[derive(Debug)]
pub struct TurnConfig {
    pub enabled: bool,
    pub urls: Vec<String>,
    pub username: String,
    pub credential: String,
    pub credential_type: String,
    pub ttl_seconds: u64,
}

/// The admin surface's master key.
#[derive(Debug)]
pub struct AdminConfig {
    pub master_key: String,
}

/// Size and rate limits.
#[derive(Debug)]
pub struct LimitsConfig {
    pub max_file_size_mb: u64,
    pub max_message_size_kb: u64,
    pub max_pending_messages: u64,
    pub rate_limit_messages_per_minute: u64,
}

/// The whole configuration.
#[derive(Debug)]
pub struct Config {
    pub server: ServerConfig,
    pub storage: StorageConfig,
    pub tls: Option<TlsConfig>,
    pub turn: TurnConfig,
    pub admin: AdminConfig,
    pub limits: LimitsConfig,
}

impl Default for Config {
    /// The defaults a fresh installation starts from: messages are kept a
    /// week, files three days, cleanup runs hourly, and the placeholder
    /// TURN and admin secrets must be changed.
    fn default() -> (r: Config)
        ensures
            r.server.port == 9443,
            r.storage.max_message_age_hours == 168,
            r.storage.max_file_age_hours == 72,
            r.storage.cleanup_interval_minutes == 60,
            r.tls is None,
            r.turn.enabled,
            r.turn.ttl_seconds == 86400,
            r.limits.max_file_size_mb == 100,
            r.limits.max_message_size_kb == 64,
            r.limits.max_pending_messages == 10000,
            r.limits.rate_limit_messages_per_minute == 120,
    {
        let mut turn_urls: Vec<String> = Vec::new();
        turn_urls.push("turn:turn.example.com:3478".to_owned());
        turn_urls.push("turns:turn.example.com:5349".to_owned());
        Config {
            server: ServerConfig { host: "0.0.0.0".to_owned(), port: 9443 },
            storage: StorageConfig {
                database_path: "./data/privmsg.db".to_owned(),
                files_path: "./data/files".to_owned(),
                max_message_age_hours: 168,
                max_file_age_hours: 72,
                cleanup_interval_minutes: 60,
            },
            tls: None,
            turn: TurnConfig {
                enabled: true,
                urls: turn_urls,
                username: "privmsg".to_owned(),
                credential: "change-this-secret".to_owned(),
                credential_type: "password".to_owned(),
                ttl_seconds: 86400,
            },
            admin: AdminConfig { master_key: "CHANGE-THIS-ADMIN-KEY-IMMEDIATELY".to_owned() },
            limits: LimitsConfig {
                max_file_size_mb: 100,
                max_message_size_kb: 64,
                max_pending_messages: 10000,
                rate_limit_messages_per_minute: 120,
            },
        }
    }
}

} // verus!

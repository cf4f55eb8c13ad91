//! Configuration of the web server: built-in defaults, overridden by the
//! values of a configuration file, overridden in turn by environment
//! variables. Reading the file and the environment is the caller's part.
use vstd::prelude::*;
use crate::strings::{parse_bounded, to_owned_string, unsigned_value};

verus! {

/// Configuration structure for the web server.
#[derive(Debug)]
pub struct Config {
    /// Host address for the server.
    pub host: String,
    /// Port of the server.
    pub port: u16,
    /// Log level for the server.
    pub log_level: String,
    /// URL for the database.
    pub database_url: String,
    /// Number of connections in the pool.
    pub database_pool: u8,
}

/// The values a configuration file sets; absent ones keep their value.
#[derive(Debug)]
pub struct ConfigFile {
    pub host: Option<String>,
    pub port: Option<u16>,
    pub log_level: Option<String>,
    pub database_url: Option<String>,
    pub database_pool: Option<u8>,
}

/// The environment variables `WS_HOST`, `WS_PORT`, `WS_LOG_LEVEL`,
/// `WS_DATABASE_URL` and `WS_DATABASE_POOL`, as far as they are set.
#[derive(Debug)]
pub struct ConfigEnv {
    pub host: Option<String>,
    pub port: Option<String>,
    pub log_level: Option<String>,
    pub database_url: Option<String>,
    pub database_pool: Option<String>,
}

/// The configuration file read when `WS_CONFIG_FILE` is not set.
pub const DEFAULT_CONFIG_FN: &'static str = "config.toml";

/// Default host.
pub const DEFAULT_HOST: &'static str = "0.0.0.0";

/// Default port.
pub const DEFAULT_PORT: u16 = 7878;

/// Default log level.
pub const DEFAULT_LOG_LEVEL: &'static str = "info";

/// Default database URL.
pub const DEFAULT_DATABASE_URL: &'static str = "sqlite.db";

/// Default database pool size.
pub const DEFAULT_DATABASE_POOL: u8 = 5;

/// The value of an optional setting over a current value.
pub open spec fn over<T>(given: Option<T>, current: T) -> T {
    match given {
        Some(v) => v,
        None => current,
    }
}

/// The view of an optional string.
pub open spec fn opt_string(o: Option<String>) -> Option<Seq<char>> {
    match o {
        Some(s) => Some(s@),
        None => None,
    }
}

/// The number an environment value gives a setting whose largest value is
/// `max`: its value when it reads as one, else `default`.
pub open spec fn env_number(text: Seq<char>, max: nat, default: nat) -> nat {
    match unsigned_value(text) {
        Some(v) => if v <= max {
            v
        } else {
            default
        },
        None => default,
    }
}

impl Config {
    /// The built-in configuration.
    pub fn defaults() -> (r: Config)
        ensures
            r.host@ == DEFAULT_HOST@,
            r.port == DEFAULT_PORT,
            r.log_level@ == DEFAULT_LOG_LEVEL@,
            r.database_url@ == DEFAULT_DATABASE_URL@,
            r.database_pool == DEFAULT_DATABASE_POOL,
    {
        Config {
            host: to_owned_string(DEFAULT_HOST),
            port: DEFAULT_PORT,
            log_level: to_owned_string(DEFAULT_LOG_LEVEL),
            database_url: to_owned_string(DEFAULT_DATABASE_URL),
            database_pool: DEFAULT_DATABASE_POOL,
        }
    }

    /// Takes over every value the configuration file sets.
    pub fn apply_file(&mut self, file: ConfigFile)
        ensures
            final(self).host@ == over(opt_string(file.host), old(self).host@),
            final(self).port == over(file.port, old(self).port),
            final(self).log_level@ == over(opt_string(file.log_level), old(self).log_level@),
            final(self).database_url@ == over(
                opt_string(file.database_url),
                old(self).database_url@,
            ),
            final(self).database_pool == over(file.database_pool, old(self).database_pool),
    {
        if let Some(host) = file.host {
            self.host = host;
        }
        if let Some(port) = file.port {
            self.port = port;
        }
        if let Some(log_level) = file.log_level {
            self.log_level = log_level;
        }
        if let Some(database_url) = file.database_url {
            self.database_url = database_url;
        }
        if let Some(database_pool) = file.database_pool {
            self.database_pool = database_pool;
        }
    }

    /// Takes over every value the environment sets; a port or pool size that
    /// does not read as a number of its type falls back to the default.
    pub fn apply_env(&mut self, env: ConfigEnv)
        ensures
            final(self).host@ == over(opt_string(env.host), old(self).host@),
            final(self).port == (match env.port {
                Some(p) => env_number(p@, u16::MAX as nat, DEFAULT_PORT as nat),
                None => old(self).port as nat,
            }),
            final(self).log_level@ == over(opt_string(env.log_level), old(self).log_level@),
            final(self).database_url@ == over(
                opt_string(env.database_url),
                old(self).database_url@,
            ),
            final(self).database_pool == (match env.database_pool {
                Some(p) => env_number(p@, u8::MAX as nat, DEFAULT_DATABASE_POOL as nat),
                None => old(self).database_pool as nat,
            }),
    {
        if let Some(host) = env.host {
            self.host = host;
        }
        if let Some(port) = env.port {
            self.port = match parse_bounded(port.as_str(), u16::MAX as u64) {
                Some(v) => v as u16,
                None => DEFAULT_PORT,
            };
        }
        if let Some(log_level) = env.log_level {
            self.log_level = log_level;
        }
        if let Some(database_url) = env.database_url {
            self.database_url = database_url;
        }
        if let Some(database_pool) = env.database_pool {
            self.database_pool = match parse_bounded(database_pool.as_str(), u8::MAX as u64) {
                Some(v) => v as u8,
                None => DEFAULT_DATABASE_POOL,
            };
        }
    }

    /// The configuration from the defaults, the file's values when a file was
    /// read and parsed, and the environment's values, each overriding the one
    /// before.
    pub fn new(file: Option<ConfigFile>, env: ConfigEnv) -> (r: Config)
        ensures
            r.host@ == over(
                opt_string(env.host),
                match file {
                    Some(f) => over(opt_string(f.host), DEFAULT_HOST@),
                    None => DEFAULT_HOST@,
                },
            ),
            r.port == (match env.port {
                Some(p) => env_number(p@, u16::MAX as nat, DEFAULT_PORT as nat),
                None => (match file {
                    Some(f) => over(f.port, DEFAULT_PORT),
                    None => DEFAULT_PORT,
                }) as nat,
            }),
            r.log_level@ == over(
                opt_string(env.log_level),
                match file {
                    Some(f) => over(opt_string(f.log_level), DEFAULT_LOG_LEVEL@),
                    None => DEFAULT_LOG_LEVEL@,
                },
            ),
            r.database_url@ == over(
                opt_string(env.database_url),
                match file {
                    Some(f) => over(opt_string(f.database_url), DEFAULT_DATABASE_URL@),
                    None => DEFAULT_DATABASE_URL@,
                },
            ),
            r.database_pool == (match env.database_pool {
                Some(p) => env_number(p@, u8::MAX as nat, DEFAULT_DATABASE_POOL as nat),
                None => (match file {
                    Some(f) => over(f.database_pool, DEFAULT_DATABASE_POOL),
                    None => DEFAULT_DATABASE_POOL,
                }) as nat,
            }),
    {
        let mut config = Config::defaults();
        if let Some(f) = file {
            config.apply_file(f);
        }
        config.apply_env(env);
        config
    }
}

} // verus!

//! Service configuration.
use vstd::prelude::*;

verus! {

/// Where the database is.
#[derive(Clone, Debug)]
pub struct MongoConfig {
    pub uri: String,
    pub db_name: String,
}

/// Where the HTTP server listens.
#[derive(Clone, Debug)]
pub struct ServerConfig {
    pub host: String,
    pub port: u16,
}

/// The whole configuration.
#[derive(Clone, Debug)]
pub struct AppConfig {
    pub mongo: MongoConfig,
    pub server: ServerConfig,
}

impl AppConfig {
    /// The configuration made of the database and server settings read from
    /// the environment.
    pub fn from_env(mongo: MongoConfig, server: ServerConfig) -> (cfg: AppConfig)
        ensures
            cfg.mongo == mongo,
            cfg.server == server,
    {
        AppConfig { mongo, server }
    }
}

} // verus!

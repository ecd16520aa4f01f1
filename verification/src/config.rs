use vstd::prelude::*;

verus! {

/// Network parameters supplied by the configuration loader.
pub struct NetworkingConfig {
    pub interface: String,
    pub port: u16,
}

/// Storage parameters supplied by the configuration loader.
///
/// When `use_internal` is set the store lives in a local database file;
/// otherwise `url` names an external storage location.
pub struct DatabaseConfig {
    pub use_internal: bool,
    pub url: Option<String>,
}

/// The validated configuration object handed to the core at startup.
pub struct Config {
    pub network: NetworkingConfig,
    pub db: DatabaseConfig,
}

/// A configuration names a usable storage location: either the internal
/// database is selected, or an external location is given.
pub open spec fn config_storage_valid(c: &Config) -> bool {
    c.db.use_internal || c.db.url is Some
}

impl Config {
    /// True iff the configuration names a usable storage location.
    pub fn has_storage_location(&self) -> (r: bool)
        ensures
            r == config_storage_valid(self),
    {
        self.db.use_internal || self.db.url.is_some()
    }
}

} // verus!

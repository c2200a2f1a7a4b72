//! Configuration: data model, defaults and the in-memory configuration
//! holder.

pub mod schema;

pub use schema::{Config, ConfigView, I18nConfig, NetworkConfig, PresetConfig, ThemeConfig, UIConfig};

use crate::error::Error;
use vstd::prelude::*;

verus! {

/// Holder of the current configuration.
pub struct ConfigManager {
    config: Config,
}

impl ConfigManager {
    /// Holds the given configuration.
    pub fn new(config: Config) -> (r: Self)
        ensures
            r.current()@ == config@,
    {
        ConfigManager { config }
    }

    /// The held configuration.
    pub closed spec fn current(&self) -> Config {
        self.config
    }

    /// The current configuration.
    pub fn get_config(&self) -> (r: &Config)
        ensures
            r@ == self.current()@,
    {
        &self.config
    }

    /// Replaces the configuration.
    pub fn update(&mut self, config: Config)
        ensures
            final(self).current()@ == config@,
    {
        self.config = config;
    }

    /// Watches the configuration file for changes. Watching is not wired
    /// yet: the call succeeds and changes nothing.
    pub fn watch_config(&self, _config_path: &str) -> (r: Result<(), Error>)
        ensures
            r is Ok,
    {
        Ok(())
    }
}

/// Whether saving `updated` over `previous` requires a restart.
pub fn requires_restart(previous: &NetworkConfig, updated: &NetworkConfig) -> (r: bool)
    ensures
        r == (previous.port != updated.port || previous.bind_address@ != updated.bind_address@),
{
    previous.port != updated.port || !crate::text::same_text(
        previous.bind_address.as_str(),
        updated.bind_address.as_str(),
    )
}

} // verus!

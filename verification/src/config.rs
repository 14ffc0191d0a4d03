//! The basic configuration: a user name, with its defaults.

use vstd::prelude::*;
use crate::room_core::Error;
use crate::text::string_from;

verus! {

/// Application settings.
#[derive(Debug, Clone)]
pub struct Settings {
    /// The user's display name.
    pub username: String,
}

impl Default for Settings {
    fn default() -> (s: Self)
        ensures
            s.username@ == "Anonymous"@,
    {
        Settings { username: string_from("Anonymous") }
    }
}

/// Holds the settings.
pub struct ConfigManager {
    settings: Settings,
}

impl ConfigManager {
    /// The settings held.
    pub closed spec fn held(&self) -> Settings {
        self.settings
    }

    /// A manager with the default settings.
    pub fn new() -> (r: Result<Self, Error>)
        ensures
            r matches Ok(m) && m.held().username@ == "Anonymous"@,
    {
        Ok(ConfigManager { settings: Settings::default() })
    }

    /// The current settings.
    pub fn settings(&self) -> (r: &Settings)
        ensures
            *r == self.held(),
    {
        &self.settings
    }
}

} // verus!

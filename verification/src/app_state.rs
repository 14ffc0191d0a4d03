//! The application object of the session client: whether it is initialized, its
//! configuration, whether its session manager exists, and the messages its session
//! operations report.
//!
//! The session manager itself, with its sockets and tasks, belongs to the caller; this
//! state says whether it exists.

use vstd::prelude::*;
use crate::app_config::{config_text, parse_config, Config, ConfigModel};
use crate::session::{session_error_text, SessionError};
use crate::text::{push_str, string_from};

verus! {

/// The application: initialized or shut down, its configuration, and whether a session
/// manager has been made.
pub struct App {
    initialized: bool,
    config: Config,
    has_session_manager: bool,
}

/// The message of an operation asked of a session manager that does not exist.
pub open spec fn manager_missing_text() -> Seq<char> {
    "Session manager not initialized"@
}

impl App {
    /// Whether the application is initialized.
    pub closed spec fn ready(&self) -> bool {
        self.initialized
    }

    /// The configuration.
    pub closed spec fn settings(&self) -> ConfigModel {
        self.config@
    }

    /// Whether the session manager exists.
    pub closed spec fn has_manager(&self) -> bool {
        self.has_session_manager
    }

    /// An initialized application with the default configuration and no session manager.
    pub fn new() -> (a: Self)
        ensures
            a.ready(),
            a.settings() == crate::app_config::default_model(),
            !a.has_manager(),
    {
        App { initialized: true, config: Config::default(), has_session_manager: false }
    }

    /// An initialized application with `config` and no session manager.
    pub fn with_config(config: Config) -> (a: Self)
        ensures
            a.ready(),
            a.settings() == config@,
            !a.has_manager(),
    {
        App { initialized: true, config, has_session_manager: false }
    }

    /// Makes the session manager if there is none yet: gives whether the caller must make
    /// one now. Always succeeds.
    pub fn initialize(&mut self) -> (make_manager: bool)
        ensures
            make_manager == !old(self).has_manager(),
            final(self).has_manager(),
            final(self).ready() == old(self).ready(),
            final(self).settings() == old(self).settings(),
    {
        let make = !self.has_session_manager;
        self.has_session_manager = true;
        make
    }

    /// Whether the application is initialized.
    pub fn is_initialized(&self) -> (b: bool)
        ensures
            b == self.ready(),
    {
        self.initialized
    }

    /// The configuration.
    pub fn config(&self) -> (r: &Config)
        ensures
            r@ == self.settings(),
    {
        &self.config
    }

    /// Replaces the configuration.
    pub fn update_config(&mut self, config: Config)
        ensures
            final(self).settings() == config@,
            final(self).ready() == old(self).ready(),
            final(self).has_manager() == old(self).has_manager(),
    {
        self.config = config;
    }

    /// Replaces the configuration with the one the text of a configuration file gives; an
    /// error, which changes nothing, when the text does not parse.
    pub fn load_config_text(&mut self, content: &str) -> (r: Result<(), String>)
        ensures
            final(self).ready() == old(self).ready(),
            final(self).has_manager() == old(self).has_manager(),
            match parse_config(content@) {
                Ok(c) => r is Ok && final(self).settings() == c,
                Err(m) => (r matches Err(e) && e@ == "Failed to parse config: "@
                    + "Configuration error: "@ + m) && final(self).settings() == old(
                    self,
                ).settings(),
            },
    {
        match Config::from_str(content) {
            Ok(c) => {
                self.config = c;
                Ok(())
            },
            Err(e) => {
                let mut m = string_from("Failed to parse config: ");
                let t = e.to_display_string();
                push_str(&mut m, t.as_str());
                Err(m)
            },
        }
    }

    /// The text of the configuration file to save.
    pub fn config_file_text(&self) -> (s: String)
        ensures
            s@ == config_text(self.settings()),
    {
        self.config.to_string()
    }

    /// Shuts the application down: the session manager is dropped (the caller leaves its
    /// session first) and the application is no longer initialized.
    pub fn shutdown(&mut self)
        ensures
            !final(self).ready(),
            !final(self).has_manager(),
            final(self).settings() == old(self).settings(),
    {
        self.has_session_manager = false;
        self.initialized = false;
    }
}

/// The message of a session manager that does not exist.
pub fn manager_missing() -> (s: String)
    ensures
        s@ == manager_missing_text(),
{
    string_from("Session manager not initialized")
}

/// The message a failed session creation reports.
pub fn create_failure(e: &SessionError) -> (s: String)
    ensures
        s@ == "Failed to create P2P session: "@ + session_error_text(*e),
{
    let mut s = string_from("Failed to create P2P session: ");
    let t = e.to_display_string();
    push_str(&mut s, t.as_str());
    s
}

/// The message a failed join reports.
pub fn join_failure(e: &SessionError) -> (s: String)
    ensures
        s@ == "Failed to join P2P session: "@ + session_error_text(*e),
{
    let mut s = string_from("Failed to join P2P session: ");
    let t = e.to_display_string();
    push_str(&mut s, t.as_str());
    s
}

/// The message a failed leave reports: plain for no active session.
pub fn leave_failure(e: &SessionError) -> (s: String)
    ensures
        *e == SessionError::NoActiveSession ==> s@ == "No active session"@,
        *e != SessionError::NoActiveSession ==> s@ == "Failed to leave session: "@
            + session_error_text(*e),
{
    match e {
        SessionError::NoActiveSession => string_from("No active session"),
        _ => {
            let mut s = string_from("Failed to leave session: ");
            let t = e.to_display_string();
            push_str(&mut s, t.as_str());
            s
        },
    }
}

} // verus!

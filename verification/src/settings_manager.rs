//! Settings kept in a TOML file: the user name, the audio devices and the ICE servers. The
//! manager holds the settings and the file's path; reading, writing and (de)serializing the
//! file belong to the caller.

use vstd::prelude::*;
use crate::room_core::Error;
use crate::text::string_from;

verus! {

/// Application settings.
#[derive(Debug, Clone)]
pub struct Settings {
    /// The user's display name.
    pub username: String,
    /// Preferred audio input device (empty for the system default).
    pub audio_input_device: String,
    /// Preferred audio output device (empty for the system default).
    pub audio_output_device: String,
    /// STUN and TURN servers for WebRTC connectivity.
    pub ice_servers: Vec<String>,
}

/// The default ICE servers.
pub open spec fn default_ice_servers() -> Seq<Seq<char>> {
    seq![
        "stun:stun.l.google.com:19302"@,
        "stun:stun.l.google.com:5349"@,
        "stun:stun1.l.google.com:3478"@,
        "stun:stun1.l.google.com:5349"@,
        "stun:stun2.l.google.com:19302"@,
        "stun:stun2.l.google.com:5349"@,
        "stun:stun3.l.google.com:3478"@,
        "stun:stun3.l.google.com:5349"@,
        "stun:stun4.l.google.com:19302"@,
        "stun:stun4.l.google.com:5349"@,
    ]
}

/// Whether `s` holds the default settings.
pub open spec fn is_default(s: Settings) -> bool {
    &&& s.username@ == "Anonymous"@
    &&& s.audio_input_device@ == Seq::<char>::empty()
    &&& s.audio_output_device@ == Seq::<char>::empty()
    &&& s.ice_servers@.map_values(|x: String| x@) == default_ice_servers()
}

impl Default for Settings {
    fn default() -> (s: Self)
        ensures
            is_default(s),
    {
        let mut ice_servers: Vec<String> = Vec::new();
        ice_servers.push(string_from("stun:stun.l.google.com:19302"));
        ice_servers.push(string_from("stun:stun.l.google.com:5349"));
        ice_servers.push(string_from("stun:stun1.l.google.com:3478"));
        ice_servers.push(string_from("stun:stun1.l.google.com:5349"));
        ice_servers.push(string_from("stun:stun2.l.google.com:19302"));
        ice_servers.push(string_from("stun:stun2.l.google.com:5349"));
        ice_servers.push(string_from("stun:stun3.l.google.com:3478"));
        ice_servers.push(string_from("stun:stun3.l.google.com:5349"));
        ice_servers.push(string_from("stun:stun4.l.google.com:19302"));
        ice_servers.push(string_from("stun:stun4.l.google.com:5349"));
        assert(ice_servers@.map_values(|x: String| x@) =~= default_ice_servers());
        Settings {
            username: string_from("Anonymous"),
            audio_input_device: String::new(),
            audio_output_device: String::new(),
            ice_servers,
        }
    }
}

/// Holds the settings and the path of the file they are kept in.
pub struct ConfigManager {
    settings: Settings,
    config_file: String,
}

impl ConfigManager {
    /// The settings held.
    pub closed spec fn held(&self) -> Settings {
        self.settings
    }

    /// The path of the settings file.
    pub closed spec fn path(&self) -> Seq<char> {
        self.config_file@
    }

    /// A manager for the file at `path`. `loaded` is what reading the file gave: `None`
    /// when there is no such file (the settings are then the defaults), the settings read,
    /// or the error reading or parsing them, which is returned.
    pub fn with_file(path: String, loaded: Option<Result<Settings, Error>>) -> (r: Result<
        Self,
        Error,
    >)
        ensures
            loaded is None ==> (r matches Ok(m) && is_default(m.held()) && m.path() == path@),
            loaded matches Some(Ok(s)) ==> (r matches Ok(m) && m.held() == s && m.path()
                == path@),
            loaded matches Some(Err(e)) ==> r == Err::<Self, Error>(e),
    {
        let settings = match loaded {
            None => Settings::default(),
            Some(Ok(s)) => s,
            Some(Err(e)) => {
                return Err(e);
            },
        };
        Ok(ConfigManager { settings, config_file: path })
    }

    /// The path of the settings file.
    pub fn config_file(&self) -> (r: &String)
        ensures
            r@ == self.path(),
    {
        &self.config_file
    }

    /// The current settings.
    pub fn settings(&self) -> (r: &Settings)
        ensures
            *r == self.held(),
    {
        &self.settings
    }

    /// The current settings, to change in place.
    pub fn settings_mut(&mut self) -> (r: &mut Settings)
        ensures
            *r == old(self).held(),
            final(self).held() == *final(r),
            final(self).path() == old(self).path(),
    {
        &mut self.settings
    }

    /// Replaces the settings.
    pub fn update_settings(&mut self, new_settings: Settings)
        ensures
            final(self).held() == new_settings,
            final(self).path() == old(self).path(),
    {
        self.settings = new_settings;
    }
}

} // verus!

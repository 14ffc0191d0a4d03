//! The audio side that carries no signal processing: audio devices and which of them are
//! selected, the audio error type, the spatial mixer and the visualizer, and the WebRTC
//! codec registration.

use vstd::prelude::*;
use crate::room_core::Error;
use crate::text::{push_str, string_from};

verus! {

/// An audio error, with its message.
#[derive(Debug, Clone)]
pub struct AudioError {
    message: String,
}

/// The text an audio error displays as.
pub open spec fn audio_error_text(message: Seq<char>) -> Seq<char> {
    "Audio Error: "@ + message
}

impl AudioError {
    /// The error's message.
    pub closed spec fn message(&self) -> Seq<char> {
        self.message@
    }

    /// An error with `message`.
    pub fn new(message: &str) -> (e: Self)
        ensures
            e.message() == message@,
    {
        AudioError { message: string_from(message) }
    }

    /// The text `Display` shows: `Audio Error: ` and the message.
    pub fn to_display_string(&self) -> (s: String)
        ensures
            s@ == audio_error_text(self.message()),
    {
        let mut s = string_from("Audio Error: ");
        push_str(&mut s, self.message.as_str());
        s
    }
}

/// An audio device, by identifier and name, for input or output.
#[derive(Debug, Clone)]
pub struct AudioDevice {
    pub id: String,
    pub name: String,
    pub is_input: bool,
}

/// The text a device displays as: its name and its direction.
pub open spec fn device_text(d: AudioDevice) -> Seq<char> {
    d.name@ + " ("@ + (if d.is_input {
        "Input"@
    } else {
        "Output"@
    }) + ")"@
}

/// A copy of a device.
pub fn copy_device(d: &AudioDevice) -> (c: AudioDevice)
    ensures
        c.id@ == d.id@,
        c.name@ == d.name@,
        c.is_input == d.is_input,
{
    AudioDevice { id: d.id.clone(), name: d.name.clone(), is_input: d.is_input }
}

impl AudioDevice {
    /// The text `Display` shows for this device.
    pub fn to_display_string(&self) -> (s: String)
        ensures
            s@ == device_text(*self),
    {
        let mut s = string_from(self.name.as_str());
        push_str(&mut s, " (");
        if self.is_input {
            push_str(&mut s, "Input");
        } else {
            push_str(&mut s, "Output");
        }
        push_str(&mut s, ")");
        s
    }
}

/// The devices offered when the host reports none: a default microphone and default
/// speakers.
pub open spec fn fallback_devices(v: Seq<AudioDevice>) -> bool {
    &&& v.len() == 2
    &&& v[0].id@ == "input1"@ && v[0].name@ == "Default Microphone"@ && v[0].is_input
    &&& v[1].id@ == "output1"@ && v[1].name@ == "Default Speakers"@ && !v[1].is_input
}

/// The devices to offer: those the host reported, or the two defaults when it reported
/// none.
pub fn devices_or_defaults(found: Vec<AudioDevice>) -> (v: Vec<AudioDevice>)
    ensures
        found@.len() > 0 ==> v@ == found@,
        found@.len() == 0 ==> fallback_devices(v@),
{
    if found.len() > 0 {
        return found;
    }
    let mut v: Vec<AudioDevice> = Vec::new();
    v.push(
        AudioDevice {
            id: string_from("input1"),
            name: string_from("Default Microphone"),
            is_input: true,
        },
    );
    v.push(
        AudioDevice {
            id: string_from("output1"),
            name: string_from("Default Speakers"),
            is_input: false,
        },
    );
    v
}

/// The devices selected for input and output.
pub struct AudioDeviceManager {
    current_input_device: Option<AudioDevice>,
    current_output_device: Option<AudioDevice>,
}

impl AudioDeviceManager {
    /// The selected input device.
    pub closed spec fn input(&self) -> Option<AudioDevice> {
        self.current_input_device
    }

    /// The selected output device.
    pub closed spec fn output(&self) -> Option<AudioDevice> {
        self.current_output_device
    }

    /// No device selected.
    pub fn new() -> (m: Self)
        ensures
            m.input() is None,
            m.output() is None,
    {
        AudioDeviceManager { current_input_device: None, current_output_device: None }
    }

    /// Selects `device` for input; an error for an output device, which changes nothing.
    pub fn select_input_device(&mut self, device: &AudioDevice) -> (r: Result<(), AudioError>)
        ensures
            final(self).output() == old(self).output(),
            device.is_input ==> r is Ok && (final(self).input() matches Some(d) && d.id@
                == device.id@ && d.name@ == device.name@ && d.is_input),
            !device.is_input ==> (r matches Err(e) && e.message()
                == "Attempted to select an output device as input"@) && final(self).input()
                == old(self).input(),
    {
        if !device.is_input {
            return Err(AudioError::new("Attempted to select an output device as input"));
        }
        self.current_input_device = Some(copy_device(device));
        Ok(())
    }

    /// Selects `device` for output; an error for an input device, which changes nothing.
    pub fn select_output_device(&mut self, device: &AudioDevice) -> (r: Result<(), AudioError>)
        ensures
            final(self).input() == old(self).input(),
            !device.is_input ==> r is Ok && (final(self).output() matches Some(d) && d.id@
                == device.id@ && d.name@ == device.name@ && !d.is_input),
            device.is_input ==> (r matches Err(e) && e.message()
                == "Attempted to select an input device as output"@) && final(self).output()
                == old(self).output(),
    {
        if device.is_input {
            return Err(AudioError::new("Attempted to select an input device as output"));
        }
        self.current_output_device = Some(copy_device(device));
        Ok(())
    }

    /// The selected input device.
    pub fn current_input_device(&self) -> (r: Option<&AudioDevice>)
        ensures
            r == match self.input() {
                Some(d) => Some(&d),
                None => None::<&AudioDevice>,
            },
    {
        self.current_input_device.as_ref()
    }

    /// The selected output device.
    pub fn current_output_device(&self) -> (r: Option<&AudioDevice>)
        ensures
            r == match self.output() {
                Some(d) => Some(&d),
                None => None::<&AudioDevice>,
            },
    {
        self.current_output_device.as_ref()
    }
}

/// Spatial audio mixer; it holds nothing yet.
pub struct SpatialMixer {}

impl SpatialMixer {
    /// A new mixer; always succeeds.
    pub fn new() -> (r: Result<Self, Error>)
        ensures
            r is Ok,
    {
        Ok(SpatialMixer {})
    }
}

/// Audio visualization processor; it holds nothing yet.
pub struct Visualizer {}

impl Visualizer {
    /// A new visualizer; always succeeds.
    pub fn new() -> (r: Result<Self, Error>)
        ensures
            r is Ok,
    {
        Ok(Visualizer {})
    }
}

/// Registers the audio codecs of a WebRTC setup; there is nothing to register yet, and it
/// always succeeds.
pub fn register_audio_codecs() -> (r: Result<(), Error>)
    ensures
        r is Ok,
{
    Ok(())
}

} // verus!

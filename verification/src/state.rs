//! The application's runtime state: the configuration in use, what Glide is
//! doing, the microphones, the hotkey being recorded, the overlay phase and
//! the app dictation goes to. The app keeps one value of it behind a lock.
use vstd::prelude::*;

use crate::config::{same_config, GlideConfig};
use crate::text::{copy_strings, str_eq};

verus! {

/// What Glide is doing.
#[derive(Debug, Clone, Copy, PartialEq, Eq, Structural)]
pub enum RuntimeStatus {
    Starting,
    Idle,
    Recording,
    Processing,
    Error,
}

impl RuntimeStatus {
    /// The status as the interface names it.
    pub fn label(self) -> (r: &'static str)
        ensures
            r@ == match self {
                RuntimeStatus::Starting => "Starting"@,
                RuntimeStatus::Idle => "Idle"@,
                RuntimeStatus::Recording => "Recording"@,
                RuntimeStatus::Processing => "Processing"@,
                RuntimeStatus::Error => "Error"@,
            },
    {
        match self {
            RuntimeStatus::Starting => "Starting",
            RuntimeStatus::Idle => "Idle",
            RuntimeStatus::Recording => "Recording",
            RuntimeStatus::Processing => "Processing",
            RuntimeStatus::Error => "Error",
        }
    }
}

/// Where the overlay is in its show-and-dismiss cycle.
#[derive(Debug, Clone, Copy, PartialEq, Eq, Structural)]
pub enum OverlayPhase {
    Hidden,
    Recording,
    Processing,
    Dismissed,
}

/// The number a phase is stored as.
pub open spec fn phase_code(p: OverlayPhase) -> u8 {
    match p {
        OverlayPhase::Hidden => 0,
        OverlayPhase::Recording => 1,
        OverlayPhase::Processing => 2,
        OverlayPhase::Dismissed => 3,
    }
}

impl OverlayPhase {
    /// The number this phase is stored as.
    pub fn code(self) -> (r: u8)
        ensures
            r == phase_code(self),
    {
        match self {
            OverlayPhase::Hidden => 0,
            OverlayPhase::Recording => 1,
            OverlayPhase::Processing => 2,
            OverlayPhase::Dismissed => 3,
        }
    }

    /// The phase stored as `code`, if `code` is one.
    pub fn from_repr(code: u8) -> (r: Option<OverlayPhase>)
        ensures
            match r {
                Some(p) => phase_code(p) == code,
                None => code > 3,
            },
    {
        match code {
            0 => Some(OverlayPhase::Hidden),
            1 => Some(OverlayPhase::Recording),
            2 => Some(OverlayPhase::Processing),
            3 => Some(OverlayPhase::Dismissed),
            _ => None,
        }
    }
}

/// Storing a phase as its number and reading it back gives the phase.
pub proof fn law_phase_code_round_trip(p: OverlayPhase, q: OverlayPhase)
    ensures
        phase_code(p) <= 3,
        phase_code(p) == phase_code(q) ==> p == q,
{
}

/// The hotkey settings' "record a key" mode.
#[derive(Debug, Clone, Copy, PartialEq, Eq, Structural)]
pub enum HotkeyRecordingState {
    Idle,
    Recording,
    Recorded(u16),
}

/// A copy of the state the settings window shows.
#[derive(Debug, Clone)]
pub struct AppSnapshot {
    pub config: GlideConfig,
    pub status: RuntimeStatus,
    pub input_devices: Vec<String>,
}

/// The application's runtime state.
#[derive(Debug, Clone)]
pub struct SharedAppState {
    pub config: GlideConfig,
    pub status: RuntimeStatus,
    pub input_devices: Vec<String>,
    pub hotkey_recording: HotkeyRecordingState,
    pub overlay_phase: OverlayPhase,
    pub frontmost_app: Option<String>,
}

/// The microphones offered after a listing: those listed, or the system
/// default alone when the listing failed or found none.
pub open spec fn offered_devices(listed: Option<Seq<String>>) -> Seq<Seq<char>> {
    match listed {
        Some(v) => if v.len() > 0 {
            device_names(v)
        } else {
            seq!["default"@]
        },
        None => seq!["default"@],
    }
}

/// The names of listed microphones.
pub open spec fn device_names(devices: Seq<String>) -> Seq<Seq<char>> {
    devices.map_values(|d: String| d@)
}

/// A microphone listing by its elements.
pub open spec fn listing_view(listed: Option<Vec<String>>) -> Option<Seq<String>> {
    match listed {
        Some(v) => Some(v@),
        None => None,
    }
}

impl SharedAppState {
    /// Starting, with `config`, no microphones listed yet, no key being
    /// recorded, the overlay hidden and no target app.
    pub fn new(config: GlideConfig) -> (r: SharedAppState)
        ensures
            r.config == config,
            r.status == RuntimeStatus::Starting,
            r.input_devices@.len() == 0,
            r.hotkey_recording == HotkeyRecordingState::Idle,
            r.overlay_phase == OverlayPhase::Hidden,
            r.frontmost_app is None,
    {
        SharedAppState {
            config,
            status: RuntimeStatus::Starting,
            input_devices: Vec::new(),
            hotkey_recording: HotkeyRecordingState::Idle,
            overlay_phase: OverlayPhase::Hidden,
            frontmost_app: None,
        }
    }

    pub fn snapshot(&self) -> (r: AppSnapshot)
        ensures
            same_config(r.config, self.config),
            r.status == self.status,
            r.input_devices@ == self.input_devices@,
    {
        AppSnapshot {
            config: self.config.duplicate(),
            status: self.status,
            input_devices: copy_strings(&self.input_devices),
        }
    }

    /// A copy of the configuration in use.
    pub fn config(&self) -> (r: GlideConfig)
        ensures
            same_config(r, self.config),
    {
        self.config.duplicate()
    }

    /// Takes in a fresh microphone listing (`None` when listing failed). A
    /// chosen microphone that is no longer offered falls back to the system
    /// default; the result says whether the configuration changed, so that
    /// it is saved.
    pub fn refresh_input_devices(&mut self, listed: Option<Vec<String>>) -> (changed: bool)
        ensures
            device_names(final(self).input_devices@) == offered_devices(listing_view(listed)),
            changed == (old(self).config.audio.device@ != "default"@ && !offered_devices(
                listing_view(listed),
            ).contains(old(self).config.audio.device@)),
            changed ==> final(self).config.audio.device@ == "default"@,
            !changed ==> final(self).config.audio == old(self).config.audio,
            final(self).config.app == old(self).config.app,
            final(self).config.hotkey == old(self).config.hotkey,
            final(self).config.providers == old(self).config.providers,
            final(self).config.dictation == old(self).config.dictation,
            final(self).config.dictionary == old(self).config.dictionary,
            final(self).config.overlay == old(self).config.overlay,
            final(self).config.paste == old(self).config.paste,
            final(self).status == old(self).status,
            final(self).hotkey_recording == old(self).hotkey_recording,
            final(self).overlay_phase == old(self).overlay_phase,
            final(self).frontmost_app == old(self).frontmost_app,
    {
        let ghost listed_view = listing_view(listed);
        let devices = match listed {
            Some(v) => if v.len() > 0 {
                v
            } else {
                let mut d = Vec::new();
                d.push(String::from_str("default"));
                d
            },
            None => {
                let mut d = Vec::new();
                d.push(String::from_str("default"));
                d
            },
        };
        proof {
            assert(device_names(devices@) =~= offered_devices(listed_view));
        }
        self.input_devices = devices;
        let device_is_default = str_eq(self.config.audio.device.as_str(), "default");
        let mut offered = false;
        let mut i: usize = 0;
        while i < self.input_devices.len()
            invariant
                i <= self.input_devices@.len(),
                offered == exists|k: int| 0 <= k < i && (#[trigger] self.input_devices@[k])@ == self.config.audio.device@,
            decreases self.input_devices@.len() - i,
        {
            if str_eq(self.input_devices[i].as_str(), self.config.audio.device.as_str()) {
                offered = true;
            }
            i = i + 1;
        }
        proof {
            let offered_view = device_names(self.input_devices@);
            assert(offered_view =~= offered_devices(listed_view));
            if offered {
                let k = choose|k: int| 0 <= k < self.input_devices@.len() && (#[trigger] self.input_devices@[k])@ == self.config.audio.device@;
                assert(offered_view[k] == self.config.audio.device@);
            }
            if offered_view.contains(self.config.audio.device@) {
                let k = choose|k: int| 0 <= k < offered_view.len() && offered_view[k] == self.config.audio.device@;
                assert(self.input_devices@[k]@ == self.config.audio.device@);
            }
        }
        if !device_is_default && !offered {
            self.config.audio.device = String::from_str("default");
            true
        } else {
            false
        }
    }

    pub fn set_status(&mut self, status: RuntimeStatus)
        ensures
            *final(self) == (SharedAppState { status, ..*old(self) }),
    {
        self.status = status;
    }

    pub fn set_error(&mut self)
        ensures
            *final(self) == (SharedAppState { status: RuntimeStatus::Error, ..*old(self) }),
    {
        self.status = RuntimeStatus::Error;
    }

    /// Starts recording a hotkey: the next key press is captured.
    pub fn start_hotkey_recording(&mut self)
        ensures
            *final(self) == (SharedAppState { hotkey_recording: HotkeyRecordingState::Recording, ..*old(self) }),
    {
        self.hotkey_recording = HotkeyRecordingState::Recording;
    }

    pub fn is_hotkey_recording(&self) -> (r: bool)
        ensures
            r == (self.hotkey_recording == HotkeyRecordingState::Recording),
    {
        match self.hotkey_recording {
            HotkeyRecordingState::Recording => true,
            _ => false,
        }
    }

    /// Captures the key pressed while recording.
    pub fn record_keycode(&mut self, code: u16)
        ensures
            *final(self) == (SharedAppState { hotkey_recording: HotkeyRecordingState::Recorded(code), ..*old(self) }),
    {
        self.hotkey_recording = HotkeyRecordingState::Recorded(code);
    }

    /// The captured key, handed out once: taking it ends the recording.
    pub fn poll_recorded_keycode(&mut self) -> (r: Option<u16>)
        ensures
            match old(self).hotkey_recording {
                HotkeyRecordingState::Recorded(code) => {
                    &&& r == Some(code)
                    &&& *final(self) == (SharedAppState {
                        hotkey_recording: HotkeyRecordingState::Idle,
                        ..*old(self)
                    })
                },
                _ => r is None && *final(self) == *old(self),
            },
    {
        match self.hotkey_recording {
            HotkeyRecordingState::Recorded(code) => {
                self.hotkey_recording = HotkeyRecordingState::Idle;
                Some(code)
            },
            _ => None,
        }
    }

    pub fn set_overlay_phase(&mut self, phase: OverlayPhase)
        ensures
            *final(self) == (SharedAppState { overlay_phase: phase, ..*old(self) }),
    {
        self.overlay_phase = phase;
    }

    pub fn overlay_phase(&self) -> (r: OverlayPhase)
        ensures
            r == self.overlay_phase,
    {
        self.overlay_phase
    }

    /// Records the app that was frontmost when the hotkey was pressed.
    pub fn set_frontmost_app(&mut self, app: Option<String>)
        ensures
            *final(self) == (SharedAppState { frontmost_app: app, ..*old(self) }),
    {
        self.frontmost_app = app;
    }

    pub fn frontmost_app(&self) -> (r: Option<String>)
        ensures
            r == self.frontmost_app,
    {
        match &self.frontmost_app {
            Some(a) => Some(a.clone()),
            None => None,
        }
    }
}

} // verus!

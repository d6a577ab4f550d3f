//! User configuration: what Glide stores between runs, and the rules that
//! keep it consistent.
pub mod app;
pub mod hotkey;
pub mod models;
pub mod overlay;
pub mod storage;

use vstd::prelude::*;

use crate::config::app::AppConfig;
use crate::config::hotkey::HotkeyConfig;
use crate::config::models::{same_dictation, same_dictionary, DictationConfig, DictionaryConfig};
use crate::config::overlay::{opacity_in_range, OverlayConfig};
use crate::error::GlideError;
use crate::provider::ProvidersConfig;

verus! {

/// The microphone to record from, by name.
#[derive(Debug, Clone)]
pub struct AudioConfig {
    pub device: String,
}

impl Default for AudioConfig {
    /// The system default input.
    fn default() -> (r: AudioConfig)
        ensures
            r.device@ == "default"@,
    {
        AudioConfig { device: String::from_str("default") }
    }
}

/// How the transcript is pasted.
#[derive(Debug, Clone, Copy, PartialEq, Eq, Structural)]
pub struct PasteConfig {
    pub restore_clipboard: bool,
    pub restore_delay_ms: u64,
}

impl Default for PasteConfig {
    /// Restore the clipboard 750 ms after pasting.
    fn default() -> (r: PasteConfig)
        ensures
            r.restore_clipboard,
            r.restore_delay_ms == 750,
    {
        PasteConfig { restore_clipboard: true, restore_delay_ms: 750 }
    }
}

/// Everything Glide stores.
#[derive(Debug, Clone)]
pub struct GlideConfig {
    pub app: AppConfig,
    pub hotkey: HotkeyConfig,
    pub audio: AudioConfig,
    pub providers: ProvidersConfig,
    pub dictation: DictationConfig,
    pub dictionary: DictionaryConfig,
    pub overlay: OverlayConfig,
    pub paste: PasteConfig,
}

/// The first rule a configuration breaks, if any: the overlay must have a
/// positive width and height and an opacity between 0 and 1.
pub open spec fn config_error(overlay: OverlayConfig) -> Option<GlideError> {
    if overlay.width == 0 {
        Some(GlideError::OverlayWidthNotPositive)
    } else if overlay.height == 0 {
        Some(GlideError::OverlayHeightNotPositive)
    } else if !opacity_in_range(overlay.opacity_bits) {
        Some(GlideError::OverlayOpacityOutOfRange)
    } else {
        None
    }
}

impl GlideConfig {
    /// Checks the rules a stored configuration must meet.
    pub fn validate(&self) -> (r: Result<(), GlideError>)
        ensures
            match config_error(self.overlay) {
                Some(e) => r == Err::<(), GlideError>(e),
                None => r is Ok,
            },
    {
        if self.overlay.width == 0 {
            return Err(GlideError::OverlayWidthNotPositive);
        }
        if self.overlay.height == 0 {
            return Err(GlideError::OverlayHeightNotPositive);
        }
        let bits = self.overlay.opacity_bits;
        if !(bits <= 0x3F800000 || bits == 0x80000000) {
            return Err(GlideError::OverlayOpacityOutOfRange);
        }
        Ok(())
    }
}

impl AudioConfig {
    /// A copy with the same device.
    pub fn duplicate(&self) -> (r: AudioConfig)
        ensures
            r == *self,
    {
        AudioConfig { device: self.device.clone() }
    }
}

/// Two configurations that agree part by part (lists by their elements).
pub open spec fn same_config(a: GlideConfig, b: GlideConfig) -> bool {
    &&& a.app == b.app
    &&& a.hotkey == b.hotkey
    &&& a.audio == b.audio
    &&& a.providers == b.providers
    &&& same_dictation(a.dictation, b.dictation)
    &&& same_dictionary(a.dictionary, b.dictionary)
    &&& a.overlay == b.overlay
    &&& a.paste == b.paste
}

impl GlideConfig {
    /// A copy with the same settings.
    pub fn duplicate(&self) -> (r: GlideConfig)
        ensures
            same_config(r, *self),
    {
        GlideConfig {
            app: self.app,
            hotkey: self.hotkey,
            audio: self.audio.duplicate(),
            providers: self.providers.duplicate(),
            dictation: self.dictation.duplicate(),
            dictionary: self.dictionary.duplicate(),
            overlay: self.overlay,
            paste: self.paste,
        }
    }
}

impl Default for GlideConfig {
    /// Every part at its default.
    fn default() -> (r: GlideConfig)
        ensures
            r.app == AppConfig::default_spec(),
            r.hotkey.trigger == Some(crate::config::hotkey::HotkeyTrigger::F8),
            r.hotkey.toggle_trigger is None,
            r.audio.device@ == "default"@,
            r.dictation.stt.provider == crate::provider::Provider::OpenAi,
            r.dictation.stt.model@ == "whisper-1"@,
            r.dictation.llm is None,
            r.dictation.system_prompt@ == crate::config::models::default_prompt_spec(),
            r.dictation.system_prompt_uses_default,
            r.dictation.styles@.len() == 3,
            !r.dictation.smart_defaults_applied,
            r.dictionary.vocabulary@.len() == 0,
            r.dictionary.replacements@.len() == 0,
            r.overlay.width == 300,
            r.overlay.height == 80,
            r.overlay.opacity_bits == crate::config::overlay::DEFAULT_OPACITY_BITS,
            r.paste.restore_clipboard,
            r.paste.restore_delay_ms == 750,
    {
        GlideConfig {
            app: AppConfig::default(),
            hotkey: HotkeyConfig::default(),
            audio: AudioConfig::default(),
            providers: ProvidersConfig::default(),
            dictation: DictationConfig::default(),
            dictionary: DictionaryConfig::default(),
            overlay: OverlayConfig::default(),
            paste: PasteConfig::default(),
        }
    }
}

} // verus!

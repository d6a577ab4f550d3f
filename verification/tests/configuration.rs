use glide::config::app::{AppConfig, ColorAccent, ThemePreference};
use glide::config::hotkey::{keycode_label, modifier_flag_for_keycode, HotkeyConfig, HotkeyTrigger};
use glide::config::models::{DictationConfig, STYLE_PROMPT_PLACEHOLDER};
use glide::config::overlay::{OverlayPosition, OverlayStyle};
use glide::config::storage::{
    apply_provider_keys, backup_file_name, insert_provider_key, keyring_action, mirror_after_write,
    normalize_provider_keys, provider_keys_from_config, provider_keys_to_store, KeyringAction, KeyringMirror,
    KeyringReply,
};
use glide::config::GlideConfig;
use glide::error::GlideError;
use glide::provider::ProvidersConfig;

#[test]
fn default_prompt_contains_cleanup_contract_and_style_placeholder() {
    let config = DictationConfig::default();
    assert!(config.system_prompt_uses_default);
    assert!(config.system_prompt.contains("CORE TASK:"));
    assert!(config.system_prompt.contains(STYLE_PROMPT_PLACEHOLDER));
    assert!(config.system_prompt.contains("Preserve spoken questions as questions"));

    for style in &config.styles {
        assert!(!style.prompt.contains("CORE TASK:"), "{} style", style.name);
        assert!(!style.prompt.contains("raw transcript"), "{} style", style.name);
        assert!(style.prompt.len() < 400, "{} style should be short", style.name);
    }
}

#[test]
fn refresh_builtin_prompt_defaults_preserves_custom_prompt() {
    let mut config = DictationConfig::default();
    config.system_prompt = "custom prompt".to_string();
    config.system_prompt_uses_default = true;

    config.refresh_builtin_prompt_defaults();

    assert_eq!(config.system_prompt, "custom prompt");
    assert!(!config.system_prompt_uses_default);
}

#[test]
fn sync_system_prompt_default_flag_tracks_current_default() {
    let mut config = DictationConfig::default();
    config.system_prompt = "custom prompt".to_string();
    config.sync_system_prompt_default_flag();
    assert!(!config.system_prompt_uses_default);

    config.system_prompt = DictationConfig::default_system_prompt().to_string();
    config.sync_system_prompt_default_flag();
    assert!(config.system_prompt_uses_default);
}

#[test]
fn refresh_restores_unedited_prompts_and_settles() {
    let mut config = DictationConfig::default();
    config.system_prompt = format!("{}\n\n", DictationConfig::default_system_prompt());
    config.system_prompt_uses_default = false;
    let professional = config.styles[0].prompt.clone();
    config.styles[0].prompt = format!("{professional}  \n");
    config.styles[1].prompt = "my own messaging prompt".to_string();

    config.refresh_builtin_prompt_defaults();
    assert_eq!(config.system_prompt, DictationConfig::default_system_prompt());
    assert!(config.system_prompt_uses_default);
    assert_eq!(config.styles[0].prompt, professional);
    assert_eq!(config.styles[1].prompt, "my own messaging prompt");

    let before = config.clone();
    config.refresh_builtin_prompt_defaults();
    assert_eq!(config.system_prompt, before.system_prompt);
    assert_eq!(config.system_prompt_uses_default, before.system_prompt_uses_default);
    config.sync_system_prompt_default_flag();
    assert!(config.system_prompt_uses_default);
}

#[test]
fn default_styles_are_the_built_in_three() {
    let config = DictationConfig::default();
    let names: Vec<&str> = config.styles.iter().map(|s| s.name.as_str()).collect();
    assert_eq!(names, ["Professional", "Messaging", "Coding"]);
    assert!(config.styles.iter().all(|s| s.apps.is_empty() && s.stt.is_none() && s.llm.is_none()));
}

#[test]
fn labels_are_exact() {
    assert_eq!(ThemePreference::Dark.label(), "Dark");
    assert_eq!(ColorAccent::Orange.label(), "Orange");
    assert_eq!(ColorAccent::Blue.icon_asset(), "assets/icons/AppIcon-Blue.png");
    assert_eq!(OverlayStyle::Glow.label(), "Glow");
    assert_eq!(OverlayStyle::Hidden.label(), "None");
    assert_eq!(OverlayPosition::Notch.label(), "Notch");
    assert_eq!(HotkeyTrigger::Option.label(), "⌥ Option");
    assert_eq!(HotkeyTrigger::Custom(49).label(), "Space");
    assert_eq!(HotkeyTrigger::Custom(200).label(), "Key 200");
    assert_eq!(keycode_label(10), "Key 10");
    assert_eq!(keycode_label(0), "A");
    assert_eq!(keycode_label(65535), "Key 65535");
}

#[test]
fn keycodes_map_to_triggers_and_modifier_flags() {
    assert_eq!(HotkeyTrigger::from_keycode(100), HotkeyTrigger::F8);
    assert_eq!(HotkeyTrigger::from_keycode(109), HotkeyTrigger::F10);
    assert_eq!(HotkeyTrigger::from_keycode(7), HotkeyTrigger::Custom(7));
    assert_eq!(HotkeyTrigger::from_keycode(101).label(), keycode_label(101));
    assert_eq!(modifier_flag_for_keycode(55), 0x00100000);
    assert_eq!(modifier_flag_for_keycode(60), 0x00020000);
    assert_eq!(modifier_flag_for_keycode(61), 0x00080000);
    assert_eq!(modifier_flag_for_keycode(59), 0x00040000);
    assert_eq!(modifier_flag_for_keycode(57), 0x00010000);
    assert_eq!(modifier_flag_for_keycode(63), 0x00800000);
    assert_eq!(modifier_flag_for_keycode(0), 0);
}

#[test]
fn default_configuration() {
    let config = GlideConfig::default();
    assert_eq!(config.app, AppConfig::default());
    assert_eq!(config.app.accent, ColorAccent::Slate);
    assert_eq!(config.hotkey, HotkeyConfig { trigger: Some(HotkeyTrigger::F8), toggle_trigger: None });
    assert_eq!(config.audio.device, "default");
    assert_eq!(config.overlay.width, 300);
    assert_eq!(f32::from_bits(config.overlay.opacity_bits), 0.85);
    assert!(config.paste.restore_clipboard);
    assert_eq!(config.paste.restore_delay_ms, 750);
    assert!(config.validate().is_ok());
}

#[test]
fn validation_errors() {
    let mut config = GlideConfig::default();
    config.overlay.width = 0;
    assert!(matches!(config.validate(), Err(GlideError::OverlayWidthNotPositive)));
    config.overlay.width = 10;
    config.overlay.height = 0;
    assert!(matches!(config.validate(), Err(GlideError::OverlayHeightNotPositive)));
    config.overlay.height = 10;
    for bad in [1.5f32, -0.1, f32::NAN, f32::INFINITY] {
        config.overlay.opacity_bits = bad.to_bits();
        assert!(matches!(config.validate(), Err(GlideError::OverlayOpacityOutOfRange)), "{bad}");
    }
    for good in [0.0f32, -0.0, 1.0, 0.5] {
        config.overlay.opacity_bits = good.to_bits();
        assert!(config.validate().is_ok(), "{good}");
    }
}

#[test]
fn provider_keys_round_trip() {
    let mut config = GlideConfig::default();
    config.providers.openai.api_key = "sk-openai".to_string();
    config.providers.groq.api_key = "   ".to_string();
    config.providers.elevenlabs.api_key = "xi-key".to_string();

    let stored = provider_keys_from_config(&config);
    assert_eq!(
        stored,
        vec![
            ("openai".to_string(), "sk-openai".to_string()),
            ("elevenlabs".to_string(), "xi-key".to_string()),
        ]
    );

    let mut decoded = stored.clone();
    decoded.push(("unknown".to_string(), "ignored".to_string()));
    decoded.push(("cerebras".to_string(), " ".to_string()));
    let keys = normalize_provider_keys(decoded);
    assert_eq!(keys, stored);

    let mut providers = ProvidersConfig::default();
    providers.groq.api_key = "stale".to_string();
    apply_provider_keys(&mut providers, &keys);
    assert_eq!(providers.openai.api_key, "sk-openai");
    assert_eq!(providers.groq.api_key, "");
    assert_eq!(providers.elevenlabs.api_key, "xi-key");
    assert_eq!(providers.groq.base_url, "https://api.groq.com/openai/v1");
}

#[test]
fn key_tables_replace_and_skip_blank_keys() {
    let mut keys = Vec::new();
    insert_provider_key(&mut keys, "openai", "a");
    insert_provider_key(&mut keys, "openai", "b");
    insert_provider_key(&mut keys, "groq", "\t");
    assert_eq!(keys, vec![("openai".to_string(), "b".to_string())]);
    assert_eq!(provider_keys_to_store(&keys), Some(keys.clone()));
    assert_eq!(provider_keys_to_store(&vec![("openai".to_string(), " ".to_string())]), None);
}

#[test]
fn keyring_is_written_only_when_the_payload_changes() {
    let payload = Some("{\"version\":1}".to_string());
    let mirror = KeyringMirror::Unknown;
    let action = keyring_action(&mirror, payload.clone());
    assert_eq!(action, KeyringAction::Store("{\"version\":1}".to_string()));
    let mirror = mirror_after_write(mirror, action, KeyringReply::Done);
    assert_eq!(keyring_action(&mirror, payload.clone()), KeyringAction::Skip);

    let action = keyring_action(&mirror, None);
    assert_eq!(action, KeyringAction::Delete);
    assert_eq!(mirror_after_write(mirror.clone(), action.clone(), KeyringReply::Failed), KeyringMirror::Unknown);
    assert_eq!(mirror_after_write(mirror.clone(), action, KeyringReply::NoEntry), KeyringMirror::Synced(None));
    let failed_store = mirror_after_write(
        KeyringMirror::Synced(None),
        KeyringAction::Store("x".to_string()),
        KeyringReply::Failed,
    );
    assert_eq!(failed_store, KeyringMirror::Synced(None));
}

#[test]
fn corrupt_config_backup_names() {
    assert_eq!(backup_file_name(Some("config.toml"), 1700000000), "config.toml.corrupt-1700000000.bak");
    assert_eq!(backup_file_name(None, 0), "config.toml.corrupt-0.bak");
}

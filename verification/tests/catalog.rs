use glide::catalog::{
    any_remote_provider_verified, cached_llm_models, cached_stt_models, llm_model_in_live_catalog,
    stt_model_in_live_catalog, fallback_llm_models, fallback_stt_models, provider_verified, set_remote_provider_verified, LocalModels,
    ModelCatalog, ModelInfo, model_info,
};
use glide::config::models::ModelSelection;
use glide::config::GlideConfig;
use glide::defaults::{apply_smart_defaults, resolve_legacy_apple_speech_selections, smart_llm_default, smart_stt_default};
use glide::local_models::{
    AppleFoundationModelStatus, AppleSpeechInstallState, AppleSpeechModelDefinition, AppleSpeechModelStatus,
    APPLE_FOUNDATION_MODEL_ID,
};
use glide::parakeet::{parakeet_models, ParakeetInstallState, ParakeetModelStatus};
use glide::provider::{Provider, REMOTE_PROVIDER_COUNT};
use glide::remote::{append_elevenlabs_scribe_models, excluded_remote_llm_model, ElevenLabsModelsResponseEntry};

fn speech_status(locale: &str, display_name: &str, reserved: bool) -> AppleSpeechModelStatus {
    AppleSpeechModelStatus {
        definition: AppleSpeechModelDefinition {
            id: format!("speechanalyzer-{locale}"),
            display_name: display_name.to_string(),
            locale_id: locale.to_string(),
            asset_status: if reserved { "installed".to_string() } else { "supported".to_string() },
            reserved,
        },
        state: if reserved { AppleSpeechInstallState::Installed } else { AppleSpeechInstallState::NotInstalled },
    }
}

/// The on-device models of a machine with the English locale installed, the
/// French one offered, the default foundation model usable and no Parakeet
/// model installed.
fn local_models() -> LocalModels {
    LocalModels {
        apple_speech: vec![
            speech_status("en_US", "English (United States)", true),
            speech_status("fr_FR", "French (France)", false),
        ],
        apple_foundation: vec![AppleFoundationModelStatus {
            id: APPLE_FOUNDATION_MODEL_ID.to_string(),
            display_name: "Apple Foundation Model".to_string(),
            model_name: "SystemLanguageModel.default".to_string(),
            available: true,
            reason: "available".to_string(),
        }],
        parakeet: parakeet_models()
            .into_iter()
            .map(|definition| ParakeetModelStatus { definition, state: ParakeetInstallState::NotInstalled })
            .collect(),
    }
}

fn with_provider_state(
    verified: &[Provider],
    live_stt: &[(Provider, &str)],
    live_llm: &[(Provider, &str)],
) -> ModelCatalog {
    let mut catalog = ModelCatalog::new();
    for provider in verified {
        set_remote_provider_verified(&mut catalog, *provider, true);
    }
    catalog.cached_stt = cached(live_stt);
    catalog.cached_llm = cached(live_llm);
    catalog
}

fn cached(models: &[(Provider, &str)]) -> Vec<ModelInfo> {
    models.iter().map(|(provider, id)| model_info(*provider, id, false)).collect()
}

fn with_verified_providers(providers: &[Provider]) -> ModelCatalog {
    with_provider_state(providers, &[], &[])
}

fn assert_selection(selection: &ModelSelection, provider: Provider, model: &str) {
    assert_eq!(selection.provider, provider);
    assert_eq!(selection.model, model);
}

#[test]
fn remote_provider_state_is_tracked_per_provider() {
    let local = local_models();
    for i in 0..REMOTE_PROVIDER_COUNT {
        let provider = Provider::remote_from_index(i);
        let catalog = with_verified_providers(&[provider]);
        assert!(provider_verified(&catalog, &local, provider), "{provider:?} should be verified");
    }
}

#[test]
fn elevenlabs_model_discovery_keeps_known_scribe_models() {
    let cases = [
        (
            vec![ElevenLabsModelsResponseEntry {
                model_id: "eleven_multilingual_v2".to_string(),
                name: Some("Eleven Multilingual v2".to_string()),
            }],
            ("Scribe v2", "Scribe v1"),
        ),
        (
            vec![ElevenLabsModelsResponseEntry {
                model_id: "scribe_v2".to_string(),
                name: Some("Returned Scribe v2".to_string()),
            }],
            ("Returned Scribe v2", "Scribe v1"),
        ),
    ];

    for (entries, (expected_v2, expected_v1)) in cases {
        let mut models = Vec::new();
        append_elevenlabs_scribe_models(&mut models, entries);

        assert_eq!(models.len(), 2);
        assert!(models.iter().any(|model| {
            model.provider == "ElevenLabs" && model.id == "scribe_v2" && model.display_name == expected_v2
        }));
        assert!(models.iter().any(|model| {
            model.provider == "ElevenLabs" && model.id == "scribe_v1" && model.display_name == expected_v1
        }));
    }
}

#[test]
fn openai_generation_models_are_excluded_from_llm_picker() {
    for id in ["sora-2", "sora-2-pro", "gpt-image-1", "gpt-image-1-mini", "gpt-audio", "gpt-audio-mini"] {
        assert!(excluded_remote_llm_model(Provider::OpenAi, id), "{id}");
    }

    assert!(!excluded_remote_llm_model(Provider::OpenAi, "gpt-5.4-nano"));
    assert!(!excluded_remote_llm_model(Provider::Groq, "sora-2"));
}

#[test]
fn guard_classifier_models_are_excluded_from_llm_picker() {
    for id in [
        "meta-llama/llama-prompt-guard-2-22m",
        "openai/gpt-oss-safeguard-20b",
        "meta-llama/llama-guard-4-12b",
    ] {
        assert!(excluded_remote_llm_model(Provider::Groq, id), "{id}");
    }

    assert!(!excluded_remote_llm_model(Provider::Groq, "llama-3.3-70b-versatile"));
    assert!(!excluded_remote_llm_model(Provider::Groq, "openai/gpt-oss-20b"));
}

#[test]
fn stt_default_uses_first_available_provider_by_priority() {
    let local = local_models();
    let cases = [
        (&[][..], Provider::AppleLocal, "speechanalyzer-en_US"),
        (&[Provider::OpenAi][..], Provider::OpenAi, "whisper-1"),
        (&[Provider::Fireworks][..], Provider::Fireworks, "whisper-v3-turbo"),
        (&[Provider::ElevenLabs][..], Provider::ElevenLabs, "scribe_v2"),
        (&[Provider::Groq][..], Provider::Groq, "whisper-large-v3-turbo"),
        (&[Provider::OpenAi, Provider::Groq][..], Provider::Groq, "whisper-large-v3-turbo"),
    ];

    for (verified, expected_provider, expected_model) in cases {
        let catalog = with_verified_providers(verified);
        let selection = smart_stt_default(&catalog, &local).unwrap();
        assert_selection(&selection, expected_provider, expected_model);
    }
}

#[test]
fn llm_default_uses_first_available_provider_by_priority() {
    let local = local_models();
    let cases = [
        (&[][..], Provider::AppleLocal, APPLE_FOUNDATION_MODEL_ID),
        (&[Provider::OpenAi][..], Provider::OpenAi, "gpt-5.4-nano"),
        (&[Provider::Fireworks][..], Provider::Fireworks, "accounts/fireworks/models/gpt-oss-20b"),
        (&[Provider::Cerebras][..], Provider::Cerebras, "gpt-oss-120b"),
        (&[Provider::Groq][..], Provider::Groq, "llama-3.3-70b-versatile"),
        (&[Provider::OpenAi, Provider::Groq][..], Provider::Groq, "llama-3.3-70b-versatile"),
    ];

    for (verified, expected_provider, expected_model) in cases {
        let catalog = with_verified_providers(verified);
        let selection = smart_llm_default(&catalog, &local).unwrap();
        assert_selection(&selection, expected_provider, expected_model);
    }
}

#[test]
fn apply_smart_defaults_repairs_unavailable_defaults_after_initial_run() {
    let local = local_models();
    let cases = [
        (&[][..], Provider::AppleLocal, "speechanalyzer-en_US"),
        (&[Provider::Groq][..], Provider::Groq, "whisper-large-v3-turbo"),
    ];

    for (verified, expected_provider, expected_model) in cases {
        let catalog = with_verified_providers(verified);
        let mut config = GlideConfig::default();
        config.dictation.smart_defaults_applied = true;

        apply_smart_defaults(&mut config, &catalog, &local);

        assert_selection(&config.dictation.stt, expected_provider, expected_model);
        assert!(config.dictation.llm.is_none());
    }
}

#[test]
fn apply_smart_defaults_keeps_verified_openai_stt_default() {
    let local = local_models();
    let catalog = with_verified_providers(&[Provider::OpenAi]);
    let mut config = GlideConfig::default();
    config.dictation.smart_defaults_applied = true;

    apply_smart_defaults(&mut config, &catalog, &local);

    assert_selection(&config.dictation.stt, Provider::OpenAi, "whisper-1");
    assert!(config.dictation.llm.is_none());
}

#[test]
fn apply_smart_defaults_enables_llm_once() {
    let local = local_models();
    let catalog = with_verified_providers(&[Provider::Groq]);
    let mut config = GlideConfig::default();

    apply_smart_defaults(&mut config, &catalog, &local);

    assert_selection(&config.dictation.stt, Provider::Groq, "whisper-large-v3-turbo");
    assert_selection(config.dictation.llm.as_ref().unwrap(), Provider::Groq, "llama-3.3-70b-versatile");
    assert!(config.dictation.smart_defaults_applied);

    config.dictation.llm = None;
    apply_smart_defaults(&mut config, &catalog, &local);
    assert!(config.dictation.llm.is_none());
}

#[test]
fn apply_smart_defaults_uses_verified_openai_llm_on_first_run() {
    let local = local_models();
    let catalog = with_verified_providers(&[Provider::OpenAi]);
    let mut config = GlideConfig::default();

    apply_smart_defaults(&mut config, &catalog, &local);

    assert_selection(&config.dictation.stt, Provider::OpenAi, "whisper-1");
    assert_selection(config.dictation.llm.as_ref().unwrap(), Provider::OpenAi, "gpt-5.4-nano");
}

#[test]
fn apply_smart_defaults_repairs_unverified_llm_provider() {
    let local = local_models();
    let catalog = with_verified_providers(&[Provider::Groq]);
    let mut config = GlideConfig::default();
    config.dictation.llm = Some(ModelSelection { provider: Provider::OpenAi, model: "gpt-4o".to_string() });

    apply_smart_defaults(&mut config, &catalog, &local);

    assert_selection(config.dictation.llm.as_ref().unwrap(), Provider::Groq, "llama-3.3-70b-versatile");
}

#[test]
fn apply_smart_defaults_repairs_llm_model_missing_from_live_catalog() {
    let local = local_models();
    let catalog = with_provider_state(
        &[Provider::Groq],
        &[],
        &[(Provider::Groq, "llama-3.3-70b-versatile"), (Provider::Groq, "openai/gpt-oss-20b")],
    );
    let mut config = GlideConfig::default();
    config.dictation.smart_defaults_applied = true;
    config.dictation.llm = Some(ModelSelection {
        provider: Provider::Groq,
        model: "meta-llama/llama-4-scout-17b-16e-instruct".to_string(),
    });

    apply_smart_defaults(&mut config, &catalog, &local);

    assert_selection(config.dictation.llm.as_ref().unwrap(), Provider::Groq, "llama-3.3-70b-versatile");
}

#[test]
fn apply_smart_defaults_keeps_llm_selection_without_live_catalog() {
    // No Groq entries in the cache means no basis to invalidate the selection.
    let local = local_models();
    let cases: [&[(Provider, &str)]; 2] = [&[], &[(Provider::OpenAi, "gpt-5.4-nano")]];

    for live_llm in cases {
        let catalog = with_provider_state(&[Provider::Groq, Provider::OpenAi], &[], live_llm);
        let mut config = GlideConfig::default();
        config.dictation.smart_defaults_applied = true;
        config.dictation.llm =
            Some(ModelSelection { provider: Provider::Groq, model: "some-user-chosen-model".to_string() });

        apply_smart_defaults(&mut config, &catalog, &local);

        assert_selection(config.dictation.llm.as_ref().unwrap(), Provider::Groq, "some-user-chosen-model");
    }
}

#[test]
fn llm_default_skips_candidates_missing_from_live_catalog() {
    let local = local_models();
    let catalog = with_provider_state(
        &[Provider::Groq, Provider::OpenAi],
        &[],
        &[(Provider::Groq, "llama-3.1-8b-instant"), (Provider::OpenAi, "gpt-5.4-nano")],
    );

    let selection = smart_llm_default(&catalog, &local).unwrap();

    assert_selection(&selection, Provider::OpenAi, "gpt-5.4-nano");
}

#[test]
fn apply_smart_defaults_repairs_stt_model_missing_from_live_catalog() {
    let local = local_models();
    let catalog = with_provider_state(&[Provider::Groq], &[(Provider::Groq, "whisper-large-v3-turbo")], &[]);
    let mut config = GlideConfig::default();
    config.dictation.smart_defaults_applied = true;
    config.dictation.stt = ModelSelection { provider: Provider::Groq, model: "whisper-large-v2".to_string() };

    apply_smart_defaults(&mut config, &catalog, &local);

    assert_selection(&config.dictation.stt, Provider::Groq, "whisper-large-v3-turbo");
}

#[test]
fn apply_smart_defaults_preserves_verified_selections() {
    let local = local_models();
    let catalog = with_verified_providers(&[Provider::OpenAi, Provider::Groq]);
    let mut config = GlideConfig::default();
    config.dictation.stt = ModelSelection { provider: Provider::OpenAi, model: "whisper-1".to_string() };
    config.dictation.llm = Some(ModelSelection { provider: Provider::OpenAi, model: "gpt-4o".to_string() });

    apply_smart_defaults(&mut config, &catalog, &local);

    assert_selection(&config.dictation.stt, Provider::OpenAi, "whisper-1");
    assert_selection(config.dictation.llm.as_ref().unwrap(), Provider::OpenAi, "gpt-4o");
}

#[test]
fn unavailable_apple_foundation_selection_falls_back_to_default() {
    let local = local_models();
    let catalog = with_verified_providers(&[]);
    let mut config = GlideConfig::default();
    config.dictation.llm =
        Some(ModelSelection { provider: Provider::AppleLocal, model: "unknown-model".to_string() });

    apply_smart_defaults(&mut config, &catalog, &local);

    assert_selection(config.dictation.llm.as_ref().unwrap(), Provider::AppleLocal, APPLE_FOUNDATION_MODEL_ID);
}

#[test]
fn fallback_stt_models_filter_by_verified_providers() {
    let local = local_models();
    let cases = [
        (
            &[][..],
            vec!["Apple Intelligence"],
            vec!["speechanalyzer-en_US"],
            vec!["OpenAI", "Groq", "Fireworks", "ElevenLabs"],
        ),
        (
            &[Provider::Groq][..],
            vec!["Apple Intelligence", "Groq"],
            vec!["speechanalyzer-en_US", "whisper-large-v3-turbo"],
            vec!["OpenAI", "Fireworks", "ElevenLabs"],
        ),
    ];

    for (verified, expected_providers, expected_ids, absent_providers) in cases {
        let catalog = with_verified_providers(verified);
        let models = fallback_stt_models(&catalog, &local);

        for provider in expected_providers {
            assert!(models.iter().any(|model| model.provider == provider), "missing provider {provider}");
        }
        for id in expected_ids {
            assert!(models.iter().any(|model| model.id == id), "missing id {id}");
        }
        for provider in absent_providers {
            assert!(models.iter().all(|model| model.provider != provider), "unexpected provider {provider}");
        }
    }
}

#[test]
fn fallback_llm_models_filter_by_verified_providers() {
    let local = local_models();
    let catalog = with_verified_providers(&[]);
    let local_only = fallback_llm_models(&catalog, &local);
    assert!(local_only.iter().any(|model| model.id == APPLE_FOUNDATION_MODEL_ID));
    assert!(local_only.iter().all(|model| model.provider != "OpenAI"));

    let catalog = with_verified_providers(&[Provider::OpenAi]);
    let with_openai = fallback_llm_models(&catalog, &local);

    assert!(with_openai.iter().any(|model| model.provider == "OpenAI"));
    assert!(with_openai.iter().any(|model| model.provider == "Apple Intelligence"));
    assert!(with_openai.iter().any(|model| model.id == "gpt-5.4-nano"));
    assert!(with_openai.iter().any(|model| model.id == APPLE_FOUNDATION_MODEL_ID));
}

#[test]
fn smart_defaults_run_twice_change_nothing_more() {
    let local = local_models();
    let catalog = with_provider_state(
        &[Provider::OpenAi],
        &[(Provider::OpenAi, "whisper-1")],
        &[(Provider::OpenAi, "gpt-4o-mini")],
    );
    let mut config = GlideConfig::default();
    apply_smart_defaults(&mut config, &catalog, &local);
    // gpt-5.4-nano is missing from the live listing, so the Apple model is the default.
    assert_selection(&config.dictation.stt, Provider::OpenAi, "whisper-1");
    assert_selection(config.dictation.llm.as_ref().unwrap(), Provider::AppleLocal, APPLE_FOUNDATION_MODEL_ID);
    let first = config.clone();
    apply_smart_defaults(&mut config, &catalog, &local);
    assert_selection(&config.dictation.stt, first.dictation.stt.provider, &first.dictation.stt.model);
    let llm = config.dictation.llm.as_ref().unwrap();
    let first_llm = first.dictation.llm.as_ref().unwrap();
    assert_selection(llm, first_llm.provider, &first_llm.model);
}

#[test]
fn smart_defaults_do_nothing_without_a_usable_provider() {
    let local = LocalModels { apple_speech: Vec::new(), apple_foundation: Vec::new(), parakeet: Vec::new() };
    let catalog = with_verified_providers(&[]);
    let mut config = GlideConfig::default();
    apply_smart_defaults(&mut config, &catalog, &local);
    assert_selection(&config.dictation.stt, Provider::OpenAi, "whisper-1");
    assert!(config.dictation.llm.is_none());
    assert!(!config.dictation.smart_defaults_applied);
}

fn ids(models: &[ModelInfo]) -> Vec<&str> {
    models.iter().map(|m| m.id.as_str()).collect()
}

#[test]
fn live_listings_replace_the_fallback_and_keep_local_models() {
    let catalog = with_provider_state(
        &[Provider::Groq],
        &[(Provider::Groq, "whisper-large-v3"), (Provider::OpenAi, "whisper-1")],
        &[(Provider::Groq, "llama-3.3-70b-versatile")],
    );
    let local = local_models();
    assert_eq!(ids(&cached_stt_models(&catalog, &local)), vec!["whisper-large-v3", "speechanalyzer-en_US"]);
    assert_eq!(
        ids(&cached_llm_models(&catalog, &local)),
        vec!["llama-3.3-70b-versatile", APPLE_FOUNDATION_MODEL_ID]
    );
}

#[test]
fn empty_listings_fall_back_to_the_known_models() {
    let catalog = with_verified_providers(&[Provider::Groq]);
    let local = local_models();
    assert_eq!(ids(&cached_stt_models(&catalog, &local)), ids(&fallback_stt_models(&catalog, &local)));
    assert_eq!(ids(&cached_llm_models(&catalog, &local)), ids(&fallback_llm_models(&catalog, &local)));
}

#[test]
fn live_catalog_answers_listed_unlisted_or_unknown() {
    let catalog = with_provider_state(&[], &[(Provider::Groq, "whisper-large-v3")], &[(Provider::OpenAi, "gpt-4.1")]);
    assert_eq!(stt_model_in_live_catalog(&catalog, Provider::Groq, "whisper-large-v3"), Some(true));
    assert_eq!(stt_model_in_live_catalog(&catalog, Provider::Groq, "distil-whisper"), Some(false));
    assert_eq!(stt_model_in_live_catalog(&catalog, Provider::OpenAi, "whisper-1"), None);
    assert_eq!(llm_model_in_live_catalog(&catalog, Provider::OpenAi, "gpt-4.1"), Some(true));
    assert_eq!(llm_model_in_live_catalog(&catalog, Provider::Groq, "gpt-4.1"), None);
}

#[test]
fn only_remote_providers_count_as_remote_verification() {
    assert!(!any_remote_provider_verified(&ModelCatalog::new()));
    assert!(any_remote_provider_verified(&with_verified_providers(&[Provider::ElevenLabs])));
}

#[test]
fn legacy_apple_speech_choices_move_to_the_installed_locale() {
    let mut config = GlideConfig::default();
    config.dictation.stt = ModelSelection { provider: Provider::AppleLocal, model: "apple-speech-on-device".to_string() };
    config.dictation.styles[0].stt =
        Some(ModelSelection { provider: Provider::AppleLocal, model: "apple-speech-on-device".to_string() });
    config.dictation.styles[1].stt = Some(ModelSelection { provider: Provider::OpenAi, model: "whisper-1".to_string() });
    resolve_legacy_apple_speech_selections(&mut config, &local_models());
    assert_selection(&config.dictation.stt, Provider::AppleLocal, "speechanalyzer-en_US");
    assert_selection(config.dictation.styles[0].stt.as_ref().unwrap(), Provider::AppleLocal, "speechanalyzer-en_US");
    assert_selection(config.dictation.styles[1].stt.as_ref().unwrap(), Provider::OpenAi, "whisper-1");
    resolve_legacy_apple_speech_selections(&mut config, &local_models());
    assert_selection(&config.dictation.stt, Provider::AppleLocal, "speechanalyzer-en_US");

    let mut untouched = GlideConfig::default();
    untouched.dictation.stt = ModelSelection { provider: Provider::AppleLocal, model: "apple-speech-on-device".to_string() };
    let mut nothing_installed = local_models();
    nothing_installed.apple_speech.clear();
    resolve_legacy_apple_speech_selections(&mut untouched, &nothing_installed);
    assert_selection(&untouched.dictation.stt, Provider::AppleLocal, "apple-speech-on-device");
}

use glide::error::GlideError;
use glide::lifecycle::DownloadRegistry;
use glide::local_models::{
    apple_foundation_model_statuses, apple_foundation_models_status, apple_speech_has_active_downloads,
    apple_speech_model_definitions, apple_speech_models_status, apple_speech_models_unavailable_reason,
    apple_speech_transient_install_state, cached_capabilities, cancel_apple_speech_model_download, capabilities,
    finish_apple_speech_model_download, finish_apple_speech_release, foundation_models, helper_text,
    invalidate_capabilities_cache, record_apple_speech_models, refresh_apple_local_models,
    release_apple_speech_model, speech_models, start_apple_speech_model_download, store_capabilities,
    update_apple_speech_download_progress, AppleCapabilities, AppleFoundationModel, AppleModelCache,
    AppleSpeechInstallState, AppleSpeechModel, AppleSpeechReleaseStep, HelperResponse, APPLE_FOUNDATION_MODEL_ID,
};

fn locale(id: &str, status: &str, reserved: bool) -> AppleSpeechModel {
    AppleSpeechModel {
        id: format!("speechanalyzer-{id}"),
        display_name: id.to_string(),
        locale_id: id.to_string(),
        status: status.to_string(),
        reserved,
    }
}

fn response(text: Option<&str>) -> HelperResponse {
    HelperResponse {
        ok: true,
        text: text.map(str::to_string),
        speech_models: vec![locale("en_US", "installed", true)],
        foundation_models: vec![AppleFoundationModel {
            id: APPLE_FOUNDATION_MODEL_ID.to_string(),
            display_name: "Apple Foundation Model".to_string(),
            model_name: "SystemLanguageModel.default".to_string(),
            available: true,
            reason: "available".to_string(),
        }],
        apple_speech_available: true,
        apple_speech_reason: "ready".to_string(),
        foundation_models_reason: "ready too".to_string(),
        error: None,
    }
}

#[test]
fn helper_answers_are_read_field_by_field() {
    let caps = capabilities(response(None));
    assert!(caps.apple_speech_available);
    assert_eq!(caps.apple_speech_reason, "ready");
    assert_eq!(caps.foundation_models_reason, "ready too");
    assert_eq!(speech_models(response(None))[0].id, "speechanalyzer-en_US");
    assert_eq!(foundation_models(response(None))[0].id, APPLE_FOUNDATION_MODEL_ID);
}

#[test]
fn helper_text_is_trimmed_and_missing_text_is_an_error() {
    assert_eq!(helper_text(response(Some("  cleaned up  ")), GlideError::HelperReturnedNoText).unwrap(), "cleaned up");
    assert!(matches!(
        helper_text(response(None), GlideError::HelperReturnedNoText),
        Err(GlideError::HelperReturnedNoText)
    ));
}

#[test]
fn capabilities_are_remembered_until_invalidated() {
    let mut cache = AppleModelCache::new();
    assert!(cached_capabilities(&cache).is_none());
    let stored = store_capabilities(&mut cache, Err("helper missing".to_string()));
    assert!(!stored.apple_speech_available);
    assert_eq!(stored.apple_speech_reason, "helper missing");
    assert_eq!(stored.foundation_models_reason, "helper missing");
    assert_eq!(cached_capabilities(&cache).unwrap().apple_speech_reason, "helper missing");

    invalidate_capabilities_cache(&mut cache);
    assert!(cached_capabilities(&cache).is_none());
    let fresh = AppleCapabilities {
        apple_speech_available: true,
        apple_speech_reason: "ok".to_string(),
        foundation_models_reason: "ok".to_string(),
    };
    assert!(store_capabilities(&mut cache, Ok(fresh)).apple_speech_available);
    assert!(cached_capabilities(&cache).unwrap().apple_speech_available);
}

#[test]
fn locale_listings_are_cached_and_failures_keep_a_reason() {
    let mut cache = AppleModelCache::new();
    let defs = record_apple_speech_models(&mut cache, Ok(vec![locale("en_US", "installed", true), locale("fr_FR", "supported", false)]));
    assert_eq!(defs.len(), 2);
    assert_eq!(defs[1].asset_status, "supported");
    assert_eq!(apple_speech_model_definitions(&cache).unwrap().len(), 2);
    assert!(apple_speech_models_unavailable_reason(&cache).is_none());

    let none = record_apple_speech_models(&mut cache, Ok(vec![]));
    assert!(none.is_empty());
    assert!(apple_speech_model_definitions(&cache).is_none());
    assert_eq!(
        apple_speech_models_unavailable_reason(&cache).as_deref(),
        Some("Apple Speech returned no supported locales")
    );

    let failed = record_apple_speech_models(&mut cache, Err("helper crashed".to_string()));
    assert!(failed.is_empty());
    assert_eq!(apple_speech_models_unavailable_reason(&cache).as_deref(), Some("helper crashed"));
}

#[test]
fn foundation_statuses_are_cached_and_refresh_forgets_everything() {
    let mut cache = AppleModelCache::new();
    let failed = apple_foundation_models_status(&mut cache, Err("no helper".to_string()));
    assert_eq!(failed.len(), 1);
    assert_eq!(failed[0].id, APPLE_FOUNDATION_MODEL_ID);
    assert!(!failed[0].available);
    assert_eq!(failed[0].reason, "no helper");
    assert_eq!(apple_foundation_model_statuses(&cache).unwrap()[0].reason, "no helper");

    let listed = apple_foundation_models_status(&mut cache, Ok(response(None).foundation_models));
    assert!(listed[0].available);
    store_capabilities(&mut cache, Err("x".to_string()));
    refresh_apple_local_models(&mut cache);
    assert!(apple_foundation_model_statuses(&cache).is_none());
    assert!(cached_capabilities(&cache).is_none());
    assert!(apple_speech_model_definitions(&cache).is_none());
}

#[test]
fn apple_speech_download_runs_from_start_to_finish() {
    let mut cache = AppleModelCache::new();
    let defs = record_apple_speech_models(&mut cache, Ok(vec![locale("fr_FR", "supported", false)]));
    let mut downloads = DownloadRegistry::new();

    assert!(matches!(
        start_apple_speech_model_download("speechanalyzer-de_DE", &defs, &mut downloads),
        Err(GlideError::UnknownAppleSpeechModel(_))
    ));
    let run = start_apple_speech_model_download("speechanalyzer-fr_FR", &defs, &mut downloads).unwrap().unwrap();
    assert!(start_apple_speech_model_download("speechanalyzer-fr_FR", &defs, &mut downloads).unwrap().is_none());
    assert!(apple_speech_has_active_downloads(&downloads));

    assert!(update_apple_speech_download_progress(&run, Some(250_000), &mut downloads));
    assert_eq!(
        apple_speech_transient_install_state("speechanalyzer-fr_FR", &downloads),
        Some(AppleSpeechInstallState::Downloading { progress_ppm: Some(250_000) })
    );
    let statuses = apple_speech_models_status(&defs, &downloads);
    assert_eq!(statuses[0].state, AppleSpeechInstallState::Downloading { progress_ppm: Some(250_000) });

    assert!(!finish_apple_speech_model_download(&run, Ok(()), &mut downloads, &mut cache));
    assert!(!apple_speech_has_active_downloads(&downloads));
    assert!(apple_speech_transient_install_state("speechanalyzer-fr_FR", &downloads).is_none());
    assert!(apple_speech_model_definitions(&cache).is_none());
}

#[test]
fn cancelled_apple_speech_download_asks_for_a_release() {
    let mut cache = AppleModelCache::new();
    let defs = record_apple_speech_models(&mut cache, Ok(vec![locale("fr_FR", "supported", false)]));
    let mut downloads = DownloadRegistry::new();
    let run = start_apple_speech_model_download("speechanalyzer-fr_FR", &defs, &mut downloads).unwrap().unwrap();

    assert!(matches!(
        cancel_apple_speech_model_download("whisper-1", &mut downloads),
        Err(GlideError::UnknownAppleSpeechModel(_))
    ));
    let cancelled = cancel_apple_speech_model_download("speechanalyzer-fr_FR", &mut downloads).unwrap().unwrap();
    assert_eq!(cancelled.run_id(), run.run_id());
    assert_eq!(
        apple_speech_transient_install_state("speechanalyzer-fr_FR", &downloads),
        Some(AppleSpeechInstallState::Cancelling)
    );
    assert!(!update_apple_speech_download_progress(&run, Some(900_000), &mut downloads));

    assert!(finish_apple_speech_model_download(&run, Err("stopped".to_string()), &mut downloads, &mut cache));
    assert!(!apple_speech_has_active_downloads(&downloads));
}

#[test]
fn failed_apple_speech_download_is_kept_as_failed() {
    let mut cache = AppleModelCache::new();
    let defs = record_apple_speech_models(&mut cache, Ok(vec![locale("fr_FR", "supported", false)]));
    let mut downloads = DownloadRegistry::new();
    let run = start_apple_speech_model_download("speechanalyzer-fr_FR", &defs, &mut downloads).unwrap().unwrap();
    assert!(!finish_apple_speech_model_download(&run, Err("disk full".to_string()), &mut downloads, &mut cache));
    assert_eq!(
        apple_speech_transient_install_state("speechanalyzer-fr_FR", &downloads),
        Some(AppleSpeechInstallState::Failed("disk full".to_string()))
    );
}

#[test]
fn releasing_a_model_cancels_a_download_first() {
    let mut cache = AppleModelCache::new();
    let defs = record_apple_speech_models(&mut cache, Ok(vec![locale("fr_FR", "supported", false)]));
    let mut downloads = DownloadRegistry::new();
    assert!(matches!(
        release_apple_speech_model("speechanalyzer-fr_FR", &mut downloads),
        Ok(AppleSpeechReleaseStep::ReleaseWithHelper)
    ));

    let run = start_apple_speech_model_download("speechanalyzer-fr_FR", &defs, &mut downloads).unwrap().unwrap();
    match release_apple_speech_model("speechanalyzer-fr_FR", &mut downloads) {
        Ok(AppleSpeechReleaseStep::CancelledDownload(cancelled)) => {
            assert_eq!(cancelled.run_id(), run.run_id());
            assert_eq!(cancelled.id(), "speechanalyzer-fr_FR");
            assert!(downloads.is_cancelled(&run));
        }
        other => panic!("unexpected release step {other:?}"),
    }
    assert_eq!(
        apple_speech_transient_install_state("speechanalyzer-fr_FR", &downloads),
        Some(AppleSpeechInstallState::Cancelling)
    );

    finish_apple_speech_release("speechanalyzer-fr_FR", &mut downloads, &mut cache);
    assert!(apple_speech_transient_install_state("speechanalyzer-fr_FR", &downloads).is_none());
    assert!(apple_speech_model_definitions(&cache).is_none());
}

#[test]
fn capabilities_are_asked_for_once_until_forgotten() {
    let mut cache = AppleModelCache::new();
    let mut asked = 0;
    for _ in 0..3 {
        if cached_capabilities(&cache).is_none() {
            asked += 1;
            store_capabilities(&mut cache, Err("helper missing".to_string()));
        }
    }
    assert_eq!(asked, 1);
    invalidate_capabilities_cache(&mut cache);
    assert!(cached_capabilities(&cache).is_none());
}

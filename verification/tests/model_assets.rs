use glide::error::GlideError;
use glide::lifecycle::DownloadRegistry;
use glide::local_models::{
    apple_speech_install_result, apple_speech_locale_id, apple_speech_model_id, install_progress_line,
    is_legacy_apple_speech_model, read_install_progress_event, resolve_apple_foundation_model_id,
    resolve_apple_speech_model_id, AppleFoundationModelStatus, AppleSpeechInstallFailure,
    AppleSpeechInstallOutcome, AppleSpeechInstallProgress, AppleSpeechInstallState, AppleSpeechModelDefinition,
    AppleSpeechModelStatus, APPLE_SPEECH_MODEL_ID, PROGRESS_COMPLETE_PPM,
};
use glide::parakeet::{
    advance_download, archive_entry_path, cancel_parakeet_download, directory_size, model_assets_dir,
    parakeet_definition, parakeet_install_state, parakeet_model_dir, start_parakeet_download, strip_archive_root,
    validate_parakeet_model_dir, ArchivePathComponent, FileTree, ParakeetInstallState, ParakeetInstallWorkspace,
};

fn progress(model_id: &str, ok: bool, event: &str, ppm: Option<u32>, error: Option<&str>) -> AppleSpeechInstallProgress {
    AppleSpeechInstallProgress {
        model_id: model_id.to_string(),
        ok,
        error: error.map(str::to_string),
        event: event.to_string(),
        progress_ppm: ppm,
    }
}

#[test]
fn apple_speech_ids_and_locales() {
    assert_eq!(apple_speech_model_id("de_DE"), "speechanalyzer-de_DE");
    assert_eq!(apple_speech_locale_id("speechanalyzer-de_DE"), Some("de_DE"));
    assert_eq!(apple_speech_locale_id("speechanalyzer-  "), None);
    assert_eq!(apple_speech_locale_id("whisper-1"), None);
    assert!(is_legacy_apple_speech_model(APPLE_SPEECH_MODEL_ID));
}

#[test]
fn legacy_apple_speech_selection_resolves_to_first_installed_locale() {
    let status = |locale: &str, state: AppleSpeechInstallState| AppleSpeechModelStatus {
        definition: AppleSpeechModelDefinition {
            id: apple_speech_model_id(locale),
            display_name: locale.to_string(),
            locale_id: locale.to_string(),
            asset_status: String::new(),
            reserved: false,
        },
        state,
    };
    let statuses = vec![
        status("fr_FR", AppleSpeechInstallState::NotInstalled),
        status("en_GB", AppleSpeechInstallState::Installed),
    ];
    assert_eq!(resolve_apple_speech_model_id(APPLE_SPEECH_MODEL_ID, &statuses).as_deref(), Some("speechanalyzer-en_GB"));
    assert_eq!(resolve_apple_speech_model_id("speechanalyzer-fr_FR", &statuses).as_deref(), Some("speechanalyzer-fr_FR"));
    assert_eq!(resolve_apple_speech_model_id("bogus", &statuses), None);

    let foundation = vec![AppleFoundationModelStatus {
        id: "m".to_string(),
        display_name: String::new(),
        model_name: String::new(),
        available: false,
        reason: "not ready".to_string(),
    }];
    assert_eq!(resolve_apple_foundation_model_id("m", &foundation), None);
}

#[test]
fn install_progress_events_drive_the_download_state() {
    let mut downloads = DownloadRegistry::new();
    let run = downloads.begin("speechanalyzer-en_US", AppleSpeechInstallState::Downloading { progress_ppm: None }).unwrap();
    let mut outcome = AppleSpeechInstallOutcome::new();

    assert_eq!(install_progress_line("   "), None);
    assert_eq!(install_progress_line(" {\"ok\":true} \n").as_deref(), Some("{\"ok\":true}"));

    assert!(read_install_progress_event(&run, progress("speechanalyzer-fr_FR", false, "", None, None), &mut outcome, &mut downloads));
    assert!(outcome.helper_error.is_none());
    assert!(read_install_progress_event(&run, progress("", true, "progress", Some(250000), None), &mut outcome, &mut downloads));
    assert_eq!(downloads.state(run.id()), Some(AppleSpeechInstallState::Downloading { progress_ppm: Some(250000) }));
    assert!(read_install_progress_event(&run, progress("speechanalyzer-en_US", true, "finished", None, None), &mut outcome, &mut downloads));
    assert!(outcome.saw_finished);
    assert_eq!(
        downloads.state(run.id()),
        Some(AppleSpeechInstallState::Downloading { progress_ppm: Some(PROGRESS_COMPLETE_PPM) })
    );
    assert!(!read_install_progress_event(&run, progress("", false, "", None, None), &mut outcome, &mut downloads));
    assert_eq!(outcome.helper_error.as_deref(), Some("Apple Speech install failed"));
}

#[test]
fn install_result_priorities() {
    let finished = AppleSpeechInstallOutcome { saw_finished: true, helper_error: None };
    assert!(apple_speech_install_result(false, true, finished.clone()).is_ok());
    assert!(matches!(apple_speech_install_result(true, true, finished.clone()), Err(AppleSpeechInstallFailure::Cancelled)));
    assert!(matches!(apple_speech_install_result(false, false, finished), Err(AppleSpeechInstallFailure::HelperExited)));
    let errored = AppleSpeechInstallOutcome { saw_finished: true, helper_error: Some("disk full".to_string()) };
    match apple_speech_install_result(false, true, errored) {
        Err(AppleSpeechInstallFailure::HelperError(e)) => assert_eq!(e, "disk full"),
        other => panic!("unexpected {other:?}"),
    }
    let unfinished = AppleSpeechInstallOutcome::new();
    assert!(matches!(apple_speech_install_result(false, true, unfinished), Err(AppleSpeechInstallFailure::Incomplete)));
}

#[test]
fn parakeet_models_and_paths() {
    assert!(parakeet_definition("parakeet-tdt-0.6b-v3-int8").is_some());
    assert!(matches!(parakeet_model_dir("nope", "/m"), Err(GlideError::UnknownParakeetModel(_))));
    assert_eq!(parakeet_model_dir("parakeet-tdt-0.6b-v2-int8", "/m/").unwrap(), "/m/parakeet-tdt-0.6b-v2-int8");
    assert_eq!(
        model_assets_dir(None, Some("  ".to_string()), Some("/Users/a".to_string())).unwrap(),
        "/Users/a/Library/Application Support/Glide/Models"
    );
    assert_eq!(model_assets_dir(Some("/x".to_string()), Some("/y".to_string()), None).unwrap(), "/x");
    assert!(matches!(model_assets_dir(None, None, None), Err(GlideError::HomeNotSet)));

    let files: Vec<String> =
        ["encoder.int8.onnx", "decoder.int8.onnx", "joiner.int8.onnx", "tokens.txt"].iter().map(|s| s.to_string()).collect();
    assert!(validate_parakeet_model_dir(true, &files).is_ok());
    assert!(matches!(validate_parakeet_model_dir(false, &files), Err(GlideError::ModelDirectoryMissing)));
    match validate_parakeet_model_dir(true, &files[..3]) {
        Err(GlideError::MissingModelFile(f)) => assert_eq!(f, "tokens.txt"),
        other => panic!("unexpected {other:?}"),
    }
}

#[test]
fn parakeet_download_lifecycle() {
    let mut downloads = DownloadRegistry::new();
    let id = "parakeet-tdt-0.6b-v2-int8";
    assert_eq!(parakeet_install_state(id, &downloads, Some(42)), ParakeetInstallState::Installed { size_bytes: 42 });
    assert_eq!(parakeet_install_state("other", &downloads, Some(42)), ParakeetInstallState::NotInstalled);

    let run = start_parakeet_download(id, &mut downloads).unwrap().unwrap();
    assert!(start_parakeet_download(id, &mut downloads).unwrap().is_none());
    assert_eq!(advance_download(&run, 0, 100, Some(1000), &mut downloads).unwrap(), 100);
    assert_eq!(
        parakeet_install_state(id, &downloads, None),
        ParakeetInstallState::Downloading { downloaded_bytes: 100, total_bytes: Some(1000) }
    );
    cancel_parakeet_download(id, &mut downloads).unwrap();
    assert_eq!(
        parakeet_install_state(id, &downloads, None),
        ParakeetInstallState::Cancelling { downloaded_bytes: 100, total_bytes: Some(1000) }
    );
    assert!(matches!(advance_download(&run, 100, 100, Some(1000), &mut downloads), Err(GlideError::DownloadCancelled)));
    assert!(matches!(start_parakeet_download("nope", &mut downloads), Err(GlideError::UnknownParakeetModel(_))));
}

#[test]
fn archive_paths_stay_inside_the_destination() {
    let normal = |s: &str| ArchivePathComponent::Normal(s.to_string());
    let path = [normal("sherpa-root"), ArchivePathComponent::CurDir, normal("encoder.int8.onnx")];
    assert_eq!(strip_archive_root(&path).unwrap(), vec!["encoder.int8.onnx".to_string()]);
    assert_eq!(archive_entry_path("/tmp/x", &path).unwrap().as_deref(), Some("/tmp/x/encoder.int8.onnx"));
    assert_eq!(archive_entry_path("/tmp/x", &[normal("sherpa-root")]).unwrap(), None);
    let escaping = [normal("root"), ArchivePathComponent::ParentDir, normal("etc")];
    assert!(matches!(strip_archive_root(&escaping), Err(GlideError::UnsafeArchivePath)));
    assert!(matches!(archive_entry_path("/tmp/x", &escaping), Err(GlideError::UnsafeArchivePath)));
}

#[test]
fn install_workspace_layout() {
    let definition = parakeet_definition("parakeet-tdt-0.6b-v2-int8").unwrap();
    let workspace = ParakeetInstallWorkspace::plan("/models", definition, 1234);
    assert_eq!(workspace.install_dir, "/models/parakeet-tdt-0.6b-v2-int8");
    assert_eq!(workspace.temp_dir, "/models/.parakeet-tdt-0.6b-v2-int8-download-1234");
    assert_eq!(
        workspace.archive_path,
        "/models/.parakeet-tdt-0.6b-v2-int8-download-1234/sherpa-onnx-nemo-parakeet-tdt-0.6b-v2-int8.tar.bz2"
    );
}

#[test]
fn directory_sizes_add_up_every_level() {
    let tree = FileTree::Dir(vec![
        FileTree::File(10),
        FileTree::Dir(vec![FileTree::File(5), FileTree::Dir(Vec::new())]),
        FileTree::File(7),
    ]);
    assert_eq!(directory_size(&tree), 22);
    assert_eq!(directory_size(&FileTree::Dir(Vec::new())), 0);
}

#[test]
fn parakeet_definitions_carry_their_download() {
    let v2 = parakeet_definition("parakeet-tdt-0.6b-v2-int8").unwrap();
    assert_eq!(v2.label, "Parakeet TDT 0.6B v2 int8");
    assert_eq!(v2.language, "English");
    assert_eq!(
        v2.url,
        "https://github.com/k2-fsa/sherpa-onnx/releases/download/asr-models/sherpa-onnx-nemo-parakeet-tdt-0.6b-v2-int8.tar.bz2"
    );
    assert_eq!(v2.archive_name, "sherpa-onnx-nemo-parakeet-tdt-0.6b-v2-int8.tar.bz2");
    let v3 = parakeet_definition("parakeet-tdt-0.6b-v3-int8").unwrap();
    assert_eq!(v3.language, "25 European languages");
    assert_eq!(v3.archive_name, "sherpa-onnx-nemo-parakeet-tdt-0.6b-v3-int8.tar.bz2");
    assert!(parakeet_definition("parakeet-tdt-0.6b-v4-int8").is_none());
}

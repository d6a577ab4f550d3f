use glide::config::GlideConfig;
use glide::state::{OverlayPhase, RuntimeStatus, SharedAppState};

fn make_state() -> SharedAppState {
    SharedAppState::new(GlideConfig::default())
}

#[test]
fn test_new_state_defaults() {
    let state = make_state();
    let snap = state.snapshot();
    assert_eq!(snap.status, RuntimeStatus::Starting);
}

#[test]
fn test_set_status_updates_snapshot() {
    let mut state = make_state();
    state.set_status(RuntimeStatus::Idle);
    let snap = state.snapshot();
    assert_eq!(snap.status, RuntimeStatus::Idle);
}

#[test]
fn test_set_error_updates_snapshot_status() {
    let mut state = make_state();
    state.set_error();
    assert_eq!(state.snapshot().status, RuntimeStatus::Error);
}

#[test]
fn test_runtime_status_labels_are_exact() {
    let statuses = [
        (RuntimeStatus::Starting, "Starting"),
        (RuntimeStatus::Idle, "Idle"),
        (RuntimeStatus::Recording, "Recording"),
        (RuntimeStatus::Processing, "Processing"),
        (RuntimeStatus::Error, "Error"),
    ];
    for (status, label) in statuses {
        assert_eq!(status.label(), label);
    }
}

#[test]
fn test_overlay_phase_transitions() {
    let mut state = make_state();
    assert_eq!(state.overlay_phase(), OverlayPhase::Hidden);

    state.set_overlay_phase(OverlayPhase::Recording);
    assert_eq!(state.overlay_phase(), OverlayPhase::Recording);

    state.set_overlay_phase(OverlayPhase::Processing);
    assert_eq!(state.overlay_phase(), OverlayPhase::Processing);

    state.set_overlay_phase(OverlayPhase::Dismissed);
    assert_eq!(state.overlay_phase(), OverlayPhase::Dismissed);

    state.set_overlay_phase(OverlayPhase::Hidden);
    assert_eq!(state.overlay_phase(), OverlayPhase::Hidden);
}

#[test]
fn test_hotkey_recording_state_transitions() {
    let mut state = make_state();
    assert!(!state.is_hotkey_recording());
    assert_eq!(state.poll_recorded_keycode(), None);

    state.start_hotkey_recording();
    assert!(state.is_hotkey_recording());
    assert_eq!(state.poll_recorded_keycode(), None);

    state.record_keycode(0);
    assert!(!state.is_hotkey_recording());
    assert_eq!(state.poll_recorded_keycode(), Some(0));
    assert_eq!(state.poll_recorded_keycode(), None);
}

#[test]
fn test_frontmost_app() {
    let mut state = make_state();
    assert!(state.frontmost_app().is_none());

    state.set_frontmost_app(Some("Safari".to_string()));
    assert_eq!(state.frontmost_app().as_deref(), Some("Safari"));

    state.set_frontmost_app(None);
    assert!(state.frontmost_app().is_none());
}

#[test]
fn overlay_phase_codes_round_trip() {
    for phase in [OverlayPhase::Hidden, OverlayPhase::Recording, OverlayPhase::Processing, OverlayPhase::Dismissed] {
        assert_eq!(OverlayPhase::from_repr(phase.code()), Some(phase));
    }
    assert_eq!(OverlayPhase::from_repr(4), None);
}

#[test]
fn missing_microphone_falls_back_to_default() {
    let mut config = GlideConfig::default();
    config.audio.device = "USB Mic".to_string();
    let mut state = SharedAppState::new(config);

    assert!(!state.refresh_input_devices(Some(vec!["USB Mic".to_string(), "Built-in".to_string()])));
    assert_eq!(state.config().audio.device, "USB Mic");
    assert_eq!(state.snapshot().input_devices, ["USB Mic", "Built-in"]);

    assert!(state.refresh_input_devices(Some(vec!["Built-in".to_string()])));
    assert_eq!(state.config().audio.device, "default");

    assert!(!state.refresh_input_devices(None));
    assert_eq!(state.snapshot().input_devices, ["default"]);
    assert!(!state.refresh_input_devices(Some(Vec::new())));
    assert_eq!(state.snapshot().input_devices, ["default"]);
}

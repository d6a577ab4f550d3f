use glide::lifecycle::{DownloadFinish, DownloadRegistry};

#[derive(Clone, Debug, PartialEq, Eq)]
enum TestState {
    Downloading(u64),
    Cancelling(u64),
    Failed,
}

fn to_cancelling(state: &TestState) -> TestState {
    match state {
        TestState::Downloading(progress) | TestState::Cancelling(progress) => TestState::Cancelling(*progress),
        TestState::Failed => TestState::Failed,
    }
}

fn is_downloading(state: &TestState) -> bool {
    matches!(state, TestState::Downloading(_))
}

#[test]
fn cancel_flips_current_run_token() {
    let mut registry = DownloadRegistry::new();
    let run = registry.begin("model", TestState::Downloading(10)).unwrap();

    let cancelled = registry.request_cancel("model", to_cancelling).unwrap();

    assert_eq!(cancelled.run_id(), run.run_id());
    assert!(registry.is_cancelled(&run));
    assert_eq!(registry.state("model"), Some(TestState::Cancelling(10)));
}

#[test]
fn stale_run_cannot_clear_or_fail_newer_run() {
    let mut registry = DownloadRegistry::new();
    let stale = registry.begin("model", TestState::Downloading(1)).unwrap();
    registry.finish_clear(&stale);
    let current = registry.begin("model", TestState::Downloading(2)).unwrap();

    assert_eq!(registry.finish_error(&stale, TestState::Failed), DownloadFinish::Stale);
    assert_eq!(registry.state("model"), Some(TestState::Downloading(2)));

    registry.finish_clear(&current);
    assert_eq!(registry.state("model"), None);
}

#[test]
fn progress_update_does_not_overwrite_cancelling_state() {
    let mut registry = DownloadRegistry::new();
    let run = registry.begin("model", TestState::Downloading(1)).unwrap();
    registry.request_cancel("model", to_cancelling);

    assert!(!registry.update_if_current(&run, TestState::Downloading(2), is_downloading));
    assert_eq!(registry.state("model"), Some(TestState::Cancelling(1)));
}

#[test]
fn retry_after_failure_gets_fresh_uncancelled_token() {
    let mut registry = DownloadRegistry::new();
    let first = registry.begin("model", TestState::Downloading(1)).unwrap();
    assert_eq!(registry.finish_error(&first, TestState::Failed), DownloadFinish::Failed);

    let retry = registry.begin("model", TestState::Downloading(0)).unwrap();

    assert_ne!(first.run_id(), retry.run_id());
    assert!(!registry.is_cancelled(&retry));
    assert_eq!(registry.state("model"), Some(TestState::Downloading(0)));
}

#[test]
fn a_second_begin_while_active_starts_nothing() {
    let mut registry = DownloadRegistry::new();
    let run = registry.begin("model", TestState::Downloading(1)).unwrap();
    assert!(registry.begin("model", TestState::Downloading(5)).is_none());
    assert!(registry.is_active("model"));
    assert!(registry.any_active());
    assert_eq!(registry.state("model"), Some(TestState::Downloading(1)));
    assert_eq!(registry.finish_clear(&run), DownloadFinish::Cleared);
    assert!(!registry.any_active());
}

#[test]
fn a_cancelled_failure_is_cleared() {
    let mut registry = DownloadRegistry::new();
    let run = registry.begin("model", TestState::Downloading(3)).unwrap();
    registry.request_cancel("model", to_cancelling);
    assert_eq!(registry.finish_error(&run, TestState::Failed), DownloadFinish::Cancelled);
    assert_eq!(registry.state("model"), None);
}

#[test]
fn a_stale_run_keeps_its_own_flag_and_cannot_update() {
    let mut registry = DownloadRegistry::new();
    let stale = registry.begin("model", TestState::Downloading(1)).unwrap();
    registry.finish_clear(&stale);
    let current = registry.begin("model", TestState::Downloading(2)).unwrap();
    assert!(!registry.is_cancelled(&stale));
    assert!(!registry.update_if_current(&stale, TestState::Downloading(9), is_downloading));
    assert_eq!(registry.state("model"), Some(TestState::Downloading(2)));

    registry.request_cancel("model", to_cancelling);
    assert!(registry.is_cancelled(&current));
    assert!(!registry.is_cancelled(&stale));
    assert_eq!(registry.finish_error(&current, TestState::Failed), DownloadFinish::Cancelled);
    assert!(registry.is_cancelled(&current));
}

#[test]
fn a_failed_run_still_reads_as_not_cancelled() {
    let mut registry = DownloadRegistry::new();
    let run = registry.begin("model", TestState::Downloading(1)).unwrap();
    assert_eq!(registry.finish_error(&run, TestState::Failed), DownloadFinish::Failed);
    assert!(!registry.is_cancelled(&run));
    registry.clear("model");
    assert!(!registry.is_cancelled(&run));
}

#[test]
fn records_can_be_set_with_or_without_a_run() {
    let mut registry = DownloadRegistry::new();
    registry.set_inactive("model", TestState::Failed);
    assert_eq!(registry.state("model"), Some(TestState::Failed));
    assert!(!registry.is_active("model"));

    let run = registry.set_active("model", TestState::Downloading(5));
    assert_eq!(run.id(), "model");
    assert!(registry.is_active("model"));
    assert!(!registry.is_cancelled(&run));
    assert_eq!(registry.finish_clear(&run), DownloadFinish::Cleared);
    assert_eq!(registry.state("model"), None);
}

#[test]
fn each_new_run_gets_a_larger_number() {
    let mut registry = DownloadRegistry::new();
    let first = registry.begin("a", TestState::Downloading(0)).unwrap();
    let second = registry.begin("b", TestState::Downloading(0)).unwrap();
    registry.request_cancel("a", to_cancelling);
    assert_eq!(registry.finish_error(&first, TestState::Failed), DownloadFinish::Cancelled);
    let third = registry.begin("a", TestState::Downloading(0)).unwrap();
    assert!(first.run_id() < second.run_id() && second.run_id() < third.run_id());
    assert!(!registry.is_cancelled(&third));
    assert!(registry.is_cancelled(&first));
    assert_eq!(registry.finish_error(&third, TestState::Failed), DownloadFinish::Failed);
}

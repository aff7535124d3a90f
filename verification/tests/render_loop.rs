use termdash::engine::MetricsSnapshot;
use termdash::render::{
    cancel_observed, is_quit_key, next_state, should_tick, CancelToken, LoopState,
};

#[test]
fn lifecycle_transitions() {
    assert_eq!(next_state(LoopState::Running, false), LoopState::Running);
    assert_eq!(next_state(LoopState::Running, true), LoopState::Draining);
    assert_eq!(next_state(LoopState::Draining, false), LoopState::Stopped);
    assert_eq!(next_state(LoopState::Draining, true), LoopState::Stopped);
    assert_eq!(next_state(LoopState::Stopped, false), LoopState::Stopped);
    assert_eq!(next_state(LoopState::Stopped, true), LoopState::Stopped);
}

#[test]
fn ticks_owed_until_stopped() {
    assert!(should_tick(LoopState::Running));
    assert!(should_tick(LoopState::Draining));
    assert!(!should_tick(LoopState::Stopped));
}

#[test]
fn cancel_token_is_monotone() {
    let mut t = CancelToken::new();
    assert!(!t.is_requested());
    t.request();
    assert!(t.is_requested());
    t.request();
    assert!(t.is_requested());
}

#[test]
fn quit_keys() {
    assert!(is_quit_key('q', false));
    assert!(is_quit_key('q', true));
    assert!(is_quit_key('c', true));
    assert!(!is_quit_key('c', false));
    assert!(!is_quit_key('x', false));
    assert!(!is_quit_key('Q', false));
}

#[test]
fn cancellation_sources_fold() {
    assert!(!cancel_observed(false, false));
    assert!(cancel_observed(true, false));
    assert!(cancel_observed(false, true));
    assert!(cancel_observed(true, true));
}

#[test]
fn snapshot_size_hints() {
    let snap = MetricsSnapshot {
        cpu_lines: vec!["a".to_string(); 8],
        memory_line: "Memory: 1 MB / 2 MB".to_string(),
        disk_lines: vec!["d".to_string(); 2],
        disk_process_lines: vec!["p".to_string(); 3],
        network_lines: vec!["n".to_string(); 1],
    };
    let hints = snap.size_hints();
    assert_eq!(hints.cpu, Some(8));
    assert_eq!(hints.memory, Some(1));
    assert_eq!(hints.disk, Some(2));
    assert_eq!(hints.disk_processes, Some(3));
    assert_eq!(hints.network, Some(1));
}

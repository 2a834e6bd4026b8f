//! Device states of NetworkManager.

use splitway::detector::linux::state::{transition, Deduper, Transition};

#[test]
fn activated_maps_to_up() {
    assert_eq!(transition(100), Some(Transition::Up));
}

#[test]
fn disconnected_deactivating_failed_map_to_down() {
    assert_eq!(transition(30), Some(Transition::Down));
    assert_eq!(transition(110), Some(Transition::Down));
    assert_eq!(transition(120), Some(Transition::Down));
}

#[test]
fn intermediate_and_unknown_states_are_ignored() {
    for state in [0, 10, 20, 40, 50, 60, 70, 80, 90, 999] {
        assert_eq!(transition(state), None, "state {state} must be ignored");
    }
}

#[test]
fn deduper_passes_first_event() {
    let mut dedup = Deduper::default();
    assert_eq!(dedup.push(Transition::Up), Some(Transition::Up));
}

#[test]
fn deduper_reset_returns_to_neutral_state() {
    // After a soft (empty-DNS) Up, `reset()` must leave neither transition a
    // duplicate: the genuine following Down still emits (so `vpn_up` clears),
    // and a re-emitted ACTIVATED still re-detects.
    let mut dedup = Deduper::default();
    dedup.record(Transition::Down);
    assert!(dedup.is_dup(Transition::Down));

    dedup.reset();
    assert!(!dedup.is_dup(Transition::Down));
    assert!(!dedup.is_dup(Transition::Up));
    // The following Down passes through rather than being swallowed.
    assert_eq!(dedup.push(Transition::Down), Some(Transition::Down));
}

#[test]
fn deduper_suppresses_consecutive_duplicates() {
    let mut dedup = Deduper::default();
    assert_eq!(dedup.push(Transition::Up), Some(Transition::Up));
    assert_eq!(dedup.push(Transition::Up), None);
    assert_eq!(dedup.push(Transition::Down), Some(Transition::Down));
    assert_eq!(dedup.push(Transition::Down), None);
    assert_eq!(dedup.push(Transition::Down), None);
    assert_eq!(dedup.push(Transition::Up), Some(Transition::Up));
}

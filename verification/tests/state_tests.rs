use combat_ledger::state::{
    AvoidableTracker, CombatState, DamageTakenTracker, GcdTracker, InterruptTracker, PullOutcome,
};

#[test]
fn pull_lifecycle() {
    let mut state = CombatState::new();
    assert!(!state.in_combat);

    state.start_pull(1000);
    assert!(state.in_combat);
    assert_eq!(state.pull_elapsed_ms(3000), 2000);

    state.end_pull(5000, PullOutcome::Wipe);
    assert!(!state.in_combat);
    assert_eq!(state.pull_history.len(), 1);
    assert_eq!(state.pull_history[0].outcome, Some(PullOutcome::Wipe));
}

#[test]
fn avoidable_tracker() {
    let mut tracker = AvoidableTracker::default();
    tracker.record_hit(12345, 1000);
    tracker.record_hit(12345, 2000);
    assert_eq!(tracker.hit_count(12345), 2);
    tracker.reset();
    assert_eq!(tracker.hit_count(12345), 0);
}

#[test]
fn gcd_gap() {
    let mut gcd = GcdTracker::default();
    gcd.record_cast(1000);
    gcd.record_cast(3500);
    assert_eq!(gcd.current_gap_ms, 2500);
}

#[test]
fn interrupt_tracker_learns_across_pulls() {
    let mut tracker = InterruptTracker::default();
    tracker.record_interrupt(12345);
    assert!(tracker.is_interruptible(12345));
    tracker.reset_per_pull();
    assert!(tracker.is_interruptible(12345), "knowledge should persist");
}

#[test]
fn damage_taken_recent_window() {
    let mut tracker = DamageTakenTracker::default();
    tracker.record(1000, 5_000);
    tracker.record(3000, 10_000);
    tracker.record(6000, 8_000);
    assert_eq!(tracker.recent_damage(7000, 5_000), 18_000);
    assert_eq!(tracker.recent_damage(7000, 2_000), 8_000);
}

#[test]
fn opening_a_pull_while_one_is_open_does_nothing() {
    let mut state = CombatState::new();
    state.start_pull(1000);
    state.avoidable.record_hit(7, 1100);
    state.damage_taken.record(1100, 50);
    state.gcd.record_cast(1200);
    state.cooldowns.record_cast(3, 1200);
    state.interrupt_count = 2;
    state.start_pull(2000);
    let pull = state.current_pull.as_ref().expect("pull");
    assert_eq!(pull.pull_number, 1);
    assert_eq!(pull.start_ms, 1000);
    assert_eq!(pull.end_ms, None);
    assert!(state.in_combat);
    assert!(state.pull_history.is_empty());
    assert_eq!(state.avoidable.hit_count(7), 1);
    assert_eq!(state.damage_taken.recent_damage(1200, 1000), 50);
    assert_eq!(state.gcd.last_cast_ms, Some(1200));
    assert_eq!(state.cooldowns.last_used_ms(3), Some(1200));
    assert_eq!(state.interrupt_count, 2);
    assert_eq!(state.pull_elapsed_ms(3000), 2000);
}

#[test]
fn closing_without_an_open_pull_does_nothing() {
    let mut state = CombatState::new();
    state.end_pull(500, PullOutcome::Kill);
    assert!(!state.in_combat);
    assert!(state.current_pull.is_none());
    assert!(state.pull_history.is_empty());
    state.start_pull(1000);
    state.end_pull(2000, PullOutcome::Kill);
    state.end_pull(3000, PullOutcome::Wipe);
    assert_eq!(state.pull_history.len(), 1);
    assert_eq!(state.pull_history[0].end_ms, Some(2000));
    assert_eq!(state.pull_history[0].outcome, Some(PullOutcome::Kill));
    state.start_pull(4000);
    assert_eq!(state.current_pull.as_ref().map(|p| p.pull_number), Some(2));
}

#[test]
fn gap_is_zero_at_the_first_cast() {
    let mut gcd = GcdTracker { last_cast_ms: None, current_gap_ms: 5 };
    gcd.record_cast(77);
    assert_eq!(gcd.current_gap_ms, 0);
    assert_eq!(gcd.last_cast_ms, Some(77));
    gcd.record_cast(100);
    assert_eq!(gcd.current_gap_ms, 23);
    gcd.record_cast(90);
    assert_eq!(gcd.current_gap_ms, 0);
    gcd.reset();
    assert_eq!(gcd.last_cast_ms, None);
    assert_eq!(gcd.current_gap_ms, 0);
}

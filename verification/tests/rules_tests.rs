use combat_ledger::engine::Severity;
use combat_ledger::identity::PlayerIdentity;
use combat_ledger::parser::LogEvent;
use combat_ledger::rules::{
    advice, avoidable_repeat, cooldown_drift, defensive_timing, gcd_gap, interrupt_miss,
    interrupt_success, RuleContext, RuleInput,
};
use combat_ledger::state::CombatState;

const ME: &str = "Player-1-A";

fn cast(source: &str, spell: u32) -> LogEvent {
    LogEvent::SpellCastSuccess {
        timestamp_ms: 0,
        source_guid: source.to_owned(),
        source_name: "N".to_owned(),
        spell_id: spell,
        spell_name: "Wrath".to_owned(),
    }
}

fn state() -> CombatState {
    let mut s = CombatState::new();
    s.player_guid = Some(ME.to_owned());
    s
}

#[test]
fn advice_is_built_from_its_parts() {
    let a = advice(
        "key",
        "Title",
        "Message".to_owned(),
        Severity::Good,
        vec![("a".to_owned(), "b".to_owned())],
        77,
    );
    assert_eq!(a.key, "key");
    assert_eq!(a.title, "Title");
    assert_eq!(a.message, "Message");
    assert_eq!(a.severity, Severity::Good);
    assert_eq!(a.kv, vec![("a".to_owned(), "b".to_owned())]);
    assert_eq!(a.timestamp_ms, 77);
}

#[test]
fn avoidable_repeat_rule() {
    let id = PlayerIdentity::unknown();
    let mut s = state();
    s.start_pull(0);
    let hit = |dest: &str| LogEvent::SpellDamage {
        timestamp_ms: 0,
        source_guid: "Creature-1".to_owned(),
        source_name: "Mob".to_owned(),
        dest_guid: dest.to_owned(),
        dest_name: "Me".to_owned(),
        spell_id: 12,
        spell_name: "Cleave".to_owned(),
        amount: 4321,
    };
    s.avoidable.record_hit(12, 1);
    let ev = hit(ME);
    let other = hit("Player-2-B");
    {
        let ctx = RuleContext { state: &s, identity: &id, intensity: 1, now_ms: 5 };
        assert!(avoidable_repeat::evaluate(&RuleInput { event: &ev }, &ctx).is_empty());
    }
    s.avoidable.record_hit(12, 2);
    s.avoidable.record_hit(12, 3);
    let ctx = RuleContext { state: &s, identity: &id, intensity: 1, now_ms: 5 };
    let out = avoidable_repeat::evaluate(&RuleInput { event: &ev }, &ctx);
    assert_eq!(out.len(), 1);
    assert_eq!(out[0].key, avoidable_repeat::KEY);
    assert_eq!(
        out[0].message,
        "Cleave: 3 hits this pull (4321 dmg last hit). Adjust position before next overlap."
    );
    assert!(avoidable_repeat::evaluate(&RuleInput { event: &other }, &ctx).is_empty());
    assert!(avoidable_repeat::evaluate(&RuleInput { event: &cast(ME, 12) }, &ctx).is_empty());
    let silent = RuleContext { state: &s, identity: &id, intensity: 0, now_ms: 5 };
    assert!(avoidable_repeat::evaluate(&RuleInput { event: &ev }, &silent).is_empty());
}

#[test]
fn gcd_gap_rule() {
    let id = PlayerIdentity::unknown();
    let mut s = state();
    s.start_pull(1_000);
    s.gcd.record_cast(1_000);
    s.gcd.record_cast(3_499);
    let ev = cast(ME, 1);
    {
        let ctx = RuleContext { state: &s, identity: &id, intensity: 5, now_ms: 3_499 };
        assert!(gcd_gap::evaluate(&RuleInput { event: &ev }, &ctx).is_empty());
    }
    s.gcd.record_cast(125_999);
    let ctx = RuleContext { state: &s, identity: &id, intensity: 3, now_ms: 125_999 };
    let out = gcd_gap::evaluate(&RuleInput { event: &ev }, &ctx);
    assert_eq!(out.len(), 1);
    assert_eq!(out[0].key, gcd_gap::KEY);
    assert_eq!(out[0].kv[0], ("gap".to_owned(), "122.5s".to_owned()));
    assert_eq!(out[0].kv[1], ("phase".to_owned(), "P3".to_owned()));
    assert!(gcd_gap::evaluate(&RuleInput { event: &cast("Player-2-B", 1) }, &ctx).is_empty());
    let low = RuleContext { state: &s, identity: &id, intensity: 2, now_ms: 125_999 };
    assert!(gcd_gap::evaluate(&RuleInput { event: &ev }, &low).is_empty());
}

#[test]
fn cooldown_drift_rule() {
    let id = PlayerIdentity::unknown();
    let mut s = state();
    s.start_pull(1_000);
    s.cooldowns.record_cast(100, 9_500);
    let ev = cast(ME, 100);
    let ctx = RuleContext { state: &s, identity: &id, intensity: 1, now_ms: 9_500 };
    let out = cooldown_drift::evaluate(&RuleInput { event: &ev }, &ctx, &[7, 100]);
    assert_eq!(out.len(), 1);
    assert_eq!(out[0].key, cooldown_drift::KEY);
    assert_eq!(out[0].severity, Severity::Warn);
    assert_eq!(
        out[0].message,
        "Wrath drifted by ~8s into the pull. Next pull: use on pull, then on cooldown."
    );
    assert_eq!(out[0].kv[0], ("drift".to_owned(), "8.5s".to_owned()));
    assert!(cooldown_drift::evaluate(&RuleInput { event: &ev }, &ctx, &[7]).is_empty());
    assert!(cooldown_drift::evaluate(&RuleInput { event: &ev }, &ctx, &[]).is_empty());
    // too early in the pull
    let early = RuleContext { state: &s, identity: &id, intensity: 1, now_ms: 8_999 };
    assert!(cooldown_drift::evaluate(&RuleInput { event: &ev }, &early, &[100]).is_empty());
    // the state holds an earlier use as the last
    let later = RuleContext { state: &s, identity: &id, intensity: 1, now_ms: 12_000 };
    assert!(cooldown_drift::evaluate(&RuleInput { event: &ev }, &later, &[100]).is_empty());
    // a second use is no first use
    s.cooldowns.record_cast(100, 12_000);
    let again = RuleContext { state: &s, identity: &id, intensity: 1, now_ms: 12_000 };
    assert!(cooldown_drift::evaluate(&RuleInput { event: &ev }, &again, &[100]).is_empty());
    let silent = RuleContext { state: &s, identity: &id, intensity: 0, now_ms: 12_000 };
    assert!(cooldown_drift::evaluate(&RuleInput { event: &ev }, &silent, &[100]).is_empty());
}

#[test]
fn interrupt_rules() {
    let id = PlayerIdentity::unknown();
    let mut s = state();
    s.start_pull(0);
    s.interrupts.record_interrupt(42);
    let kick = LogEvent::SpellInterrupted {
        timestamp_ms: 0,
        source_guid: ME.to_owned(),
        target_guid: "Creature-1".to_owned(),
        interrupted_spell_id: 42,
        interrupted_spell: "Bolt".to_owned(),
    };
    let ctx = RuleContext { state: &s, identity: &id, intensity: 3, now_ms: 9 };
    let out = interrupt_success::evaluate(&RuleInput { event: &kick }, &ctx);
    assert_eq!(out.len(), 1);
    assert_eq!(out[0].key, "interrupt_success_42");
    assert_eq!(out[0].kv[0], ("spell".to_owned(), "Bolt".to_owned()));
    let low = RuleContext { state: &s, identity: &id, intensity: 1, now_ms: 9 };
    assert!(interrupt_success::evaluate(&RuleInput { event: &kick }, &low).is_empty());

    for (source, fires) in [
        ("Creature-0-1", true),
        ("Vehicle-0-1", true),
        ("Pet-0-1", true),
        ("0000000000000000", true),
        ("Player-2-B", false),
        (ME, false),
    ] {
        let out = interrupt_miss::evaluate(&RuleInput { event: &cast(source, 42) }, &ctx);
        assert_eq!(out.len() == 1, fires, "{}", source);
    }
    let out = interrupt_miss::evaluate(&RuleInput { event: &cast("Creature-0-1", 42) }, &ctx);
    assert_eq!(out[0].key, "interrupt_miss_42");
    assert_eq!(out[0].kv[1], ("spell_id".to_owned(), "42".to_owned()));
    assert!(interrupt_miss::evaluate(&RuleInput { event: &cast("Creature-0-1", 43) }, &ctx)
        .is_empty());
    let two = RuleContext { state: &s, identity: &id, intensity: 2, now_ms: 9 };
    assert!(interrupt_miss::evaluate(&RuleInput { event: &cast("Creature-0-1", 42) }, &two)
        .is_empty());
    s.end_pull(10, combat_ledger::state::PullOutcome::Wipe);
    let out_of_combat = RuleContext { state: &s, identity: &id, intensity: 3, now_ms: 9 };
    assert!(interrupt_miss::evaluate(
        &RuleInput { event: &cast("Creature-0-1", 42) },
        &out_of_combat
    )
    .is_empty());
}

#[test]
fn defensive_timing_rule() {
    let id = PlayerIdentity::unknown();
    let mut s = state();
    s.start_pull(0);
    s.damage_taken.record(4_999, 1_000_000);
    s.damage_taken.record(5_000, 19_999);
    let ev = cast(ME, 498);
    let ctx = RuleContext { state: &s, identity: &id, intensity: 2, now_ms: 10_000 };
    assert!(defensive_timing::evaluate(&RuleInput { event: &ev }, &ctx, &[498]).is_empty());
    s.damage_taken.record(9_000, 123_456);
    let ctx = RuleContext { state: &s, identity: &id, intensity: 2, now_ms: 10_000 };
    let out = defensive_timing::evaluate(&RuleInput { event: &ev }, &ctx, &[498]);
    assert_eq!(out.len(), 1);
    assert_eq!(out[0].key, "am_under_pressure_498");
    assert_eq!(out[0].message, "Wrath used under pressure — 143k damage in the last 5s.");
    assert_eq!(out[0].kv[1], ("recent_dmg".to_owned(), "143k".to_owned()));
    assert!(defensive_timing::evaluate(&RuleInput { event: &ev }, &ctx, &[]).is_empty());
    assert!(defensive_timing::evaluate(&RuleInput { event: &ev }, &ctx, &[499]).is_empty());
    let low = RuleContext { state: &s, identity: &id, intensity: 1, now_ms: 10_000 };
    assert!(defensive_timing::evaluate(&RuleInput { event: &ev }, &low, &[498]).is_empty());
    // the sum saturates instead of overflowing
    s.damage_taken.record(9_500, u64::MAX);
    assert_eq!(s.damage_taken.recent_damage(10_000, 5_000), u64::MAX);
}

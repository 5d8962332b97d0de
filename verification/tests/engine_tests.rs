use combat_ledger::coach::{fire_all, CoachConfig, EngineState, NameCache};
use combat_ledger::db::DbCommand;
use combat_ledger::engine::{
    advice_cooldown_ms, extract_char_name, is_coached_event, update_state, AdviceEvent, AdviceLog,
    Severity,
};
use combat_ledger::identity::PlayerIdentity;
use combat_ledger::parser::LogEvent;
use combat_ledger::specs::SpecProfile;
use combat_ledger::state::{CombatState, PullOutcome};

const ME: &str = "Player-1-A";

fn cast(ts: u64, source: &str, name: &str, spell: u32) -> LogEvent {
    LogEvent::SpellCastSuccess {
        timestamp_ms: ts,
        source_guid: source.to_owned(),
        source_name: name.to_owned(),
        spell_id: spell,
        spell_name: format!("Spell{}", spell),
    }
}

fn damage(ts: u64, dest: &str, spell: u32, amount: u64) -> LogEvent {
    LogEvent::SpellDamage {
        timestamp_ms: ts,
        source_guid: "Creature-0-1".to_owned(),
        source_name: "Mob".to_owned(),
        dest_guid: dest.to_owned(),
        dest_name: "Me".to_owned(),
        spell_id: spell,
        spell_name: "Fire".to_owned(),
        amount,
    }
}

fn swing(ts: u64, dest: &str, amount: u64) -> LogEvent {
    LogEvent::SwingDamage {
        timestamp_ms: ts,
        source_guid: "Creature-0-1".to_owned(),
        dest_guid: dest.to_owned(),
        amount,
    }
}

fn interrupt(ts: u64, source: &str, spell: u32) -> LogEvent {
    LogEvent::SpellInterrupted {
        timestamp_ms: ts,
        source_guid: source.to_owned(),
        target_guid: "Creature-0-1".to_owned(),
        interrupted_spell_id: spell,
        interrupted_spell: "Shadow Bolt".to_owned(),
    }
}

fn encounter_start(ts: u64) -> LogEvent {
    LogEvent::EncounterStart {
        timestamp_ms: ts,
        encounter_id: 100,
        encounter_name: "Zone".to_owned(),
        difficulty_id: 14,
        group_size: 5,
    }
}

fn encounter_end(ts: u64, success: bool) -> LogEvent {
    LogEvent::EncounterEnd {
        timestamp_ms: ts,
        encounter_id: 100,
        encounter_name: "Zone".to_owned(),
        success,
    }
}

fn died(ts: u64, dest: &str) -> LogEvent {
    LogEvent::UnitDied { timestamp_ms: ts, dest_guid: dest.to_owned(), dest_name: "X".to_owned() }
}

fn identity(guid: &str) -> PlayerIdentity {
    PlayerIdentity {
        guid: guid.to_owned(),
        name: "Me".to_owned(),
        realm: "Realm".to_owned(),
        class: "PALADIN".to_owned(),
        spec: "Retribution".to_owned(),
        version: "1".to_owned(),
    }
}

fn config(intensity: u8) -> CoachConfig {
    CoachConfig {
        intensity,
        player_focus: String::new(),
        selected_spec: String::new(),
        major_cds: Vec::new(),
    }
}

fn session(intensity: u8) -> EngineState {
    let mut eng = EngineState::new(config(intensity), 7, Vec::new());
    eng.on_identity(identity(ME));
    eng
}

fn profile(class: &str, spec: &str, major: &[u32], am: &[u32]) -> SpecProfile {
    SpecProfile {
        class: class.to_owned(),
        spec_name: spec.to_owned(),
        role: "dps".to_owned(),
        major_cd_spell_ids: major.to_vec(),
        am_spell_ids: am.to_vec(),
    }
}

fn kv<'a>(a: &'a AdviceEvent, name: &str) -> &'a str {
    a.kv.iter().find(|(k, _)| k == name).map(|(_, v)| v.as_str()).expect("kv entry")
}

/// Feeds an event the way a caller does: a pull that opens gets the row.
fn feed(eng: &mut EngineState, event: LogEvent, row: i64) -> combat_ledger::coach::EventOutcome {
    let pull_row = if eng.opens_pull(&event) { Some(row) } else { None };
    eng.on_event(event, pull_row)
}

#[test]
fn avoidable_repeat_fires_on_second_hit() {
    let mut eng = session(3);
    assert!(feed(&mut eng, encounter_start(0), 10).advice.is_empty());
    assert!(feed(&mut eng, damage(500, ME, 999, 1000), 10).advice.is_empty());
    let out = feed(&mut eng, damage(1500, ME, 999, 1000), 10);
    assert_eq!(out.advice.len(), 1);
    let a = &out.advice[0];
    assert_eq!(a.key, "avoidable_repeat");
    assert_eq!(a.severity, Severity::Bad);
    assert_eq!(kv(a, "hits"), "2");
    assert_eq!(kv(a, "spell"), "Fire");
    assert_eq!(kv(a, "spell_id"), "999");
    assert_eq!(a.title, "Avoidable damage repeating");
    assert_eq!(
        a.message,
        "Fire: 2 hits this pull (1000 dmg last hit). Adjust position before next overlap."
    );
    assert_eq!(a.timestamp_ms, 1500);
    assert_eq!(out.snapshot.avoidable_count, 2);
    assert_eq!(out.snapshot.encounter_name.as_deref(), Some("Zone"));
    assert_eq!(out.commands.len(), 1);
    match &out.commands[0] {
        DbCommand::InsertAdvice { pull_id, fired_at, rule_key, severity, message } => {
            assert_eq!(*pull_id, 10);
            assert_eq!(*fired_at, 1500);
            assert_eq!(rule_key, "avoidable_repeat");
            assert_eq!(severity, "bad");
            assert_eq!(message, &a.message);
        }
        other => panic!("Wrong command: {:?}", other),
    }
}

#[test]
fn gcd_gap_does_not_fire_below_intensity_3() {
    let mut quiet = session(2);
    assert!(feed(&mut quiet, cast(0, ME, "Me", 1), 1).advice.is_empty());
    assert!(feed(&mut quiet, cast(3500, ME, "Me", 1), 1).advice.is_empty());

    let mut eng = session(3);
    assert!(feed(&mut eng, cast(0, ME, "Me", 1), 1).advice.is_empty());
    let out = feed(&mut eng, cast(3500, ME, "Me", 1), 1);
    assert_eq!(out.advice.len(), 1);
    let a = &out.advice[0];
    assert_eq!(a.key, "gcd_gap");
    assert_eq!(a.severity, Severity::Warn);
    assert_eq!(kv(a, "gap"), "3.5s");
    assert_eq!(kv(a, "phase"), "P1");
    assert_eq!(
        a.message,
        "You had a 3.5s gap. Pre-position during mechanics and use a mobile filler."
    );
    assert_eq!(out.snapshot.gcd_gap_ms, 3500);
    assert_eq!(eng.pull_gcd_gap_count, 1);
    assert_eq!(eng.pull_advice_count, 1);
}

#[test]
fn cooldown_drift_fires_only_on_first_use_after_8s() {
    let mut cfg = config(3);
    cfg.major_cds = vec![100];
    let mut eng = EngineState::new(cfg, 1, Vec::new());
    eng.on_identity(identity(ME));
    feed(&mut eng, encounter_start(0), 1);
    let first = feed(&mut eng, cast(9000, ME, "Me", 100), 1);
    let drift: Vec<&AdviceEvent> =
        first.advice.iter().filter(|a| a.key == "cooldown_drift").collect();
    assert_eq!(drift.len(), 1);
    assert_eq!(drift[0].severity, Severity::Warn);
    assert_eq!(kv(drift[0], "drift"), "9.0s");
    assert_eq!(kv(drift[0], "spell"), "Spell100");
    assert_eq!(
        drift[0].message,
        "Spell100 drifted by ~9s into the pull. Next pull: use on pull, then on cooldown."
    );
    let second = feed(&mut eng, cast(20000, ME, "Me", 100), 1);
    assert!(second.advice.iter().all(|a| a.key != "cooldown_drift"));
}

#[test]
fn interrupt_success_then_interrupt_miss() {
    let mut eng = session(3);
    feed(&mut eng, encounter_start(0), 4);
    let kicked = feed(&mut eng, interrupt(2000, ME, 555), 4);
    assert_eq!(kicked.advice.len(), 1);
    assert_eq!(kicked.advice[0].key, "interrupt_success_555");
    assert_eq!(kicked.advice[0].severity, Severity::Good);
    assert_eq!(kicked.advice[0].title, "Interrupt!");
    assert_eq!(kicked.advice[0].message, "Good kick — Shadow Bolt stopped.");
    assert_eq!(kv(&kicked.advice[0], "id"), "555");
    assert_eq!(kicked.snapshot.interrupt_count, 1);

    let missed = feed(&mut eng, cast(5000, "Creature-0-9", "Mob", 555), 4);
    assert_eq!(missed.advice.len(), 1);
    assert_eq!(missed.advice[0].key, "interrupt_miss_555");
    assert_eq!(missed.advice[0].severity, Severity::Bad);
    assert_eq!(missed.advice[0].message, "Spell555 went through — you can kick this.");

    let other = feed(&mut eng, cast(5100, "Creature-0-9", "Mob", 556), 4);
    assert!(other.advice.is_empty());
    let party = feed(&mut eng, cast(5200, "Player-2-B", "Friend", 555), 4);
    assert!(party.advice.is_empty());
}

#[test]
fn pull_end_on_encounter_success() {
    let mut eng = session(3);
    let start = feed(&mut eng, encounter_start(0), 42);
    assert!(start.debrief.is_none());
    assert!(start.snapshot.in_combat);
    assert_eq!(eng.current_pull_id, Some(42));
    assert_eq!(eng.pull_number, 1);
    feed(&mut eng, damage(1000, ME, 5, 10), 42);
    feed(&mut eng, interrupt(2000, ME, 9), 42);
    let end = feed(&mut eng, encounter_end(60000, true), 42);
    let d = end.debrief.expect("debrief");
    assert_eq!(d.outcome, "kill");
    assert_eq!(d.pull_elapsed_ms, 60000);
    assert_eq!(d.pull_number, 1);
    assert_eq!(d.avoidable_count, 1);
    assert_eq!(d.interrupt_count, 1);
    assert_eq!(d.total_advice_fired, 1);
    assert_eq!(d.gcd_gap_count, 0);
    assert!(!end.snapshot.in_combat);
    assert_eq!(end.snapshot.encounter_name, None);
    assert_eq!(eng.current_pull_id, None);
    match &end.commands[0] {
        DbCommand::EndPull { pull_id, ended_at, outcome } => {
            assert_eq!(*pull_id, 42);
            assert_eq!(*ended_at, 60000);
            assert_eq!(outcome, "kill");
        }
        other => panic!("Wrong command: {:?}", other),
    }
    assert_eq!(eng.combat.pull_history.len(), 1);
    assert_eq!(eng.combat.pull_history[0].outcome, Some(PullOutcome::Kill));
    assert_eq!(eng.combat.pull_history[0].encounter_name.as_deref(), Some("Zone"));
    assert_eq!(eng.combat.pull_history[0].end_ms, Some(60000));
}

#[test]
fn wipe_and_kill_by_death_outside_an_encounter() {
    let mut eng = session(3);
    feed(&mut eng, cast(1000, ME, "Me", 1), 1);
    let out = feed(&mut eng, died(4000, "Creature-0-1"), 1);
    assert_eq!(out.debrief.expect("debrief").outcome, "kill");
    feed(&mut eng, cast(5000, ME, "Me", 1), 2);
    let out = feed(&mut eng, died(6000, "Player-2-B"), 2);
    let d = out.debrief.expect("debrief");
    assert_eq!(d.outcome, "wipe");
    assert_eq!(d.pull_number, 2);
    assert_eq!(d.pull_elapsed_ms, 1000);
    // inside an encounter a death does not close the pull
    feed(&mut eng, encounter_start(7000), 3);
    let out = feed(&mut eng, died(8000, "Creature-0-1"), 3);
    assert!(out.debrief.is_none());
    assert!(out.snapshot.in_combat);
    let out = feed(&mut eng, encounter_end(9000, false), 3);
    assert_eq!(out.debrief.expect("debrief").outcome, "wipe");
}

#[test]
fn gap_is_time_since_previous_cast_or_zero() {
    let mut state = CombatState::new();
    state.player_guid = Some(ME.to_owned());
    update_state(&mut state, &cast(1000, ME, "Me", 1), 1000);
    assert_eq!(state.gcd.current_gap_ms, 0);
    assert_eq!(state.gcd.last_cast_ms, Some(1000));
    update_state(&mut state, &cast(1700, "Player-2-B", "Other", 1), 1700);
    assert_eq!(state.gcd.current_gap_ms, 0);
    update_state(&mut state, &cast(2500, ME, "Me", 2), 2500);
    assert_eq!(state.gcd.current_gap_ms, 1500);
    update_state(&mut state, &cast(2400, ME, "Me", 2), 2400);
    assert_eq!(state.gcd.current_gap_ms, 0);
    assert_eq!(state.cooldowns.last_used_ms(2), Some(2400));
    assert_eq!(state.cooldowns.elapsed_since_last(1, 5000), Some(4000));
    assert_eq!(state.cooldowns.elapsed_since_last(3, 5000), None);
    // a new pull forgets the last cast
    update_state(&mut state, &died(3000, "Creature-0-1"), 3000);
    update_state(&mut state, &cast(9000, ME, "Me", 1), 9000);
    assert_eq!(state.gcd.current_gap_ms, 0);
}

#[test]
fn hit_count_is_the_number_of_hits_this_pull() {
    let mut state = CombatState::new();
    state.player_guid = Some(ME.to_owned());
    update_state(&mut state, &encounter_start(0), 0);
    update_state(&mut state, &damage(100, ME, 7, 1), 100);
    update_state(&mut state, &damage(200, "Player-2-B", 7, 1), 200);
    update_state(&mut state, &damage(300, ME, 8, 1), 300);
    update_state(&mut state, &damage(400, ME, 7, 1), 400);
    update_state(&mut state, &swing(500, ME, 5), 500);
    assert_eq!(state.avoidable.hit_count(7), 2);
    assert_eq!(state.avoidable.hit_count(8), 1);
    assert_eq!(state.avoidable.hit_count(9), 0);
    assert_eq!(state.avoidable.total_hits(), 3);
    assert_eq!(state.damage_taken.recent_damage(500, 5000), 8);
    update_state(&mut state, &encounter_end(1000, true), 1000);
    update_state(&mut state, &encounter_start(2000), 2000);
    assert_eq!(state.avoidable.hit_count(7), 0);
    assert_eq!(state.avoidable.total_hits(), 0);
}

#[test]
fn opening_twice_and_closing_nothing_are_no_ops() {
    let mut state = CombatState::new();
    update_state(&mut state, &encounter_end(50, true), 50);
    update_state(&mut state, &died(60, "Creature-0-1"), 60);
    assert!(!state.in_combat);
    assert!(state.current_pull.is_none());
    assert!(state.pull_history.is_empty());

    update_state(&mut state, &cast(100, "Player-2-B", "Other", 1), 100);
    assert!(state.in_combat);
    let pull = state.current_pull.clone().expect("pull");
    assert_eq!(pull.pull_number, 1);
    assert_eq!(pull.start_ms, 100);
    assert_eq!(pull.encounter_name, None);
    update_state(&mut state, &encounter_start(200), 200);
    update_state(&mut state, &cast(300, "Player-2-B", "Other", 1), 300);
    let same = state.current_pull.clone().expect("pull");
    assert_eq!(same.pull_number, 1);
    assert_eq!(same.start_ms, 100);
    assert_eq!(same.encounter_name, None);
    assert!(state.pull_history.is_empty());
    assert_eq!(state.encounter_name.as_deref(), Some("Zone"));
}

#[test]
fn interrupts_are_learned_for_the_session() {
    let mut eng = session(5);
    feed(&mut eng, encounter_start(0), 1);
    feed(&mut eng, interrupt(100, ME, 555), 1);
    feed(&mut eng, interrupt(150, "Player-2-B", 777), 1);
    feed(&mut eng, encounter_end(200, false), 1);
    feed(&mut eng, encounter_start(300), 2);
    assert!(eng.combat.interrupts.is_interruptible(555));
    assert!(!eng.combat.interrupts.is_interruptible(777));
    assert_eq!(eng.combat.interrupt_count, 0);
    eng.on_config(config(5));
    eng.on_identity(identity(ME));
    assert!(eng.combat.interrupts.is_interruptible(555));
}

#[test]
fn cooldowns_by_severity() {
    assert_eq!(advice_cooldown_ms(&Severity::Bad), 8_000);
    assert_eq!(advice_cooldown_ms(&Severity::Warn), 12_000);
    assert_eq!(advice_cooldown_ms(&Severity::Good), 20_000);
    assert_eq!(Severity::Bad.name(), "bad");
    assert_eq!(Severity::Warn.name(), "warn");
    assert_eq!(Severity::Good.name(), "good");
}

#[test]
fn same_key_waits_for_its_cooldown_within_a_pull() {
    let mut log = AdviceLog::new();
    assert!(log.can_fire("k", &Severity::Bad, 0));
    assert!(log.can_fire("k", &Severity::Bad, 500));
    log.mark_fired("k", 500);
    assert!(!log.can_fire("k", &Severity::Bad, 500));
    assert!(!log.can_fire("k", &Severity::Bad, 8_499));
    assert!(log.can_fire("k", &Severity::Bad, 8_500));
    assert!(!log.can_fire("k", &Severity::Warn, 12_499));
    assert!(log.can_fire("k", &Severity::Warn, 12_500));
    assert!(!log.can_fire("k", &Severity::Good, 20_499));
    assert!(log.can_fire("k", &Severity::Good, 20_500));
    assert!(!log.can_fire("k", &Severity::Bad, 100));
    assert!(log.can_fire("other", &Severity::Good, 500));
    log.mark_fired("k", 9_000);
    assert!(!log.can_fire("k", &Severity::Bad, 16_999));
    assert!(log.can_fire("k", &Severity::Bad, 17_000));
    log.clear();
    assert!(log.can_fire("k", &Severity::Good, 9_001));
}

#[test]
fn repeated_advice_is_held_back_until_the_pull_ends() {
    let mut eng = session(3);
    feed(&mut eng, encounter_start(0), 1);
    feed(&mut eng, damage(100, ME, 999, 1), 1);
    assert_eq!(feed(&mut eng, damage(200, ME, 999, 1), 1).advice.len(), 1);
    assert_eq!(feed(&mut eng, damage(8_199, ME, 999, 1), 1).advice.len(), 0);
    assert_eq!(feed(&mut eng, damage(8_200, ME, 999, 1), 1).advice.len(), 1);
    assert_eq!(eng.pull_advice_count, 2);
    feed(&mut eng, encounter_end(8_300, false), 1);
    feed(&mut eng, encounter_start(8_400), 2);
    assert_eq!(eng.pull_advice_count, 0);
    feed(&mut eng, damage(8_500, ME, 999, 1), 2);
    let out = feed(&mut eng, damage(8_600, ME, 999, 1), 2);
    assert_eq!(out.advice.len(), 1);
    match &out.commands[0] {
        DbCommand::InsertAdvice { pull_id, .. } => assert_eq!(*pull_id, 2),
        other => panic!("Wrong command: {:?}", other),
    }
}

#[test]
fn advice_without_a_pull_row_is_delivered_but_not_stored() {
    let mut eng = session(3);
    eng.on_event(encounter_start(0), None);
    eng.on_event(damage(100, ME, 999, 1), None);
    let out = eng.on_event(damage(200, ME, 999, 1), None);
    assert_eq!(out.advice.len(), 1);
    assert!(out.commands.is_empty());
    let end = eng.on_event(encounter_end(300, true), None);
    assert!(end.commands.is_empty());
    assert!(end.debrief.is_some());
}

#[test]
fn candidates_pass_the_cooldowns_in_order() {
    let mut log = AdviceLog::new();
    let make = |key: &str, severity: Severity| AdviceEvent {
        key: key.to_owned(),
        title: "t".to_owned(),
        message: format!("m-{}", key),
        severity,
        kv: vec![("a".to_owned(), "b".to_owned())],
        timestamp_ms: 10,
    };
    let cands = vec![
        make("gcd_gap", Severity::Warn),
        make("x", Severity::Bad),
        make("gcd_gap", Severity::Warn),
        make("gcd_gap_2", Severity::Warn),
    ];
    let mut count = 5;
    let mut gaps = u32::MAX;
    let (fired, commands) = fire_all(&mut log, cands, Some(3), 10, &mut count, &mut gaps);
    let keys: Vec<&str> = fired.iter().map(|a| a.key.as_str()).collect();
    assert_eq!(keys, vec!["gcd_gap", "x", "gcd_gap_2"]);
    assert_eq!(commands.len(), 3);
    assert_eq!(count, 8);
    assert_eq!(gaps, u32::MAX);
    assert!(!log.can_fire("x", &Severity::Bad, 8_009));
    assert!(log.can_fire("x", &Severity::Bad, 8_010));
    let copy = fired[0].clone();
    assert_eq!(copy.kv, fired[0].kv);
    assert_eq!(copy.message, "m-gcd_gap");
}

#[test]
fn coached_gate() {
    let me = Some(ME.to_owned());
    assert!(is_coached_event(&cast(0, ME, "Me", 1), &me));
    assert!(!is_coached_event(&cast(0, "Player-2-B", "Other", 1), &me));
    assert!(!is_coached_event(&cast(0, ME, "Me", 1), &None));
    assert!(is_coached_event(&damage(0, ME, 1, 1), &me));
    assert!(!is_coached_event(&damage(0, "Player-2-B", 1, 1), &me));
    assert!(is_coached_event(&swing(0, ME, 1), &me));
    assert!(is_coached_event(&interrupt(0, ME, 1), &me));
    assert!(!is_coached_event(&interrupt(0, "Player-2-B", 1), &me));
    assert!(is_coached_event(&died(0, "anything"), &None));
    assert!(is_coached_event(&encounter_start(0), &None));
    assert!(is_coached_event(&encounter_end(0, true), &None));
}

#[test]
fn character_name_is_what_stands_before_the_first_hyphen() {
    assert_eq!(extract_char_name("Stonebraid-Draenor-EU"), "Stonebraid");
    assert_eq!(extract_char_name("Stonebraid"), "Stonebraid");
    assert_eq!(extract_char_name("-Realm"), "");
    assert_eq!(extract_char_name(""), "");
}

#[test]
fn guid_is_inferred_from_the_configured_name() {
    let mut cfg = config(3);
    cfg.player_focus = "stonebraid-Draenor".to_owned();
    let mut eng = EngineState::new(cfg, 1, Vec::new());
    assert_eq!(eng.focus_name, "stonebraid");
    feed(&mut eng, cast(0, "Player-9-Z", "Other-Realm", 1), 1);
    assert_eq!(eng.combat.player_guid, None);
    feed(&mut eng, cast(100, "Player-1-A", "Stonebraid-Draenor-EU", 1), 1);
    assert_eq!(eng.combat.player_guid.as_deref(), Some("Player-1-A"));
    // once known, the player is not replaced by a later cast
    feed(&mut eng, cast(200, "Player-5-X", "STONEBRAID", 1), 1);
    assert_eq!(eng.combat.player_guid.as_deref(), Some("Player-1-A"));
}

#[test]
fn names_seen_resolve_a_player_configured_later() {
    let mut eng = EngineState::new(config(3), 1, Vec::new());
    feed(&mut eng, cast(0, "Player-1-A", "Stonebraid-Draenor-EU", 1), 1);
    feed(&mut eng, cast(10, "Player-2-B", "stonebraid", 1), 1);
    feed(&mut eng, cast(20, "Creature-0-1", "Mobname", 1), 1);
    assert_eq!(eng.combat.player_guid, None);
    let mut cfg = config(3);
    cfg.player_focus = "STONEBRAID-Anything".to_owned();
    eng.on_config(cfg);
    assert_eq!(eng.combat.player_guid.as_deref(), Some("Player-1-A"));
    let mut cfg = config(3);
    cfg.player_focus = "Mobname".to_owned();
    eng.on_config(cfg);
    assert_eq!(eng.combat.player_guid, None);
    assert_eq!(eng.focus_name, "Mobname");

    let mut cache = NameCache::new();
    cache.insert_if_absent("Abc", "g1");
    cache.insert_if_absent("aBC", "g2");
    assert_eq!(cache.get("ABC"), Some("g1"));
    assert_eq!(cache.get("abd"), None);
}

#[test]
fn profiles_set_the_lists_in_force() {
    let library = vec![
        profile("PALADIN", "Retribution", &[31884], &[498]),
        profile("MAGE", "Fire", &[190319], &[]),
    ];
    let mut cfg = config(3);
    cfg.major_cds = vec![1, 2];
    let eng = EngineState::new(cfg.clone(), 1, library.clone());
    assert_eq!(eng.effective_major_cds, vec![1, 2]);
    assert!(eng.effective_am_spells.is_empty());

    cfg.selected_spec = "mage/fire".to_owned();
    let mut eng = EngineState::new(cfg.clone(), 1, library.clone());
    assert_eq!(eng.effective_major_cds, vec![190319]);
    // a selected profile is not replaced by the reported identity
    let cmd = eng.on_identity(identity(ME));
    assert_eq!(eng.effective_major_cds, vec![190319]);
    match cmd {
        Some(DbCommand::UpdateSession { session_id, player_name, player_guid }) => {
            assert_eq!(session_id, 1);
            assert_eq!(player_name, "Me");
            assert_eq!(player_guid, ME);
        }
        other => panic!("Wrong command: {:?}", other),
    }

    cfg.selected_spec = "TINKER/None".to_owned();
    let eng = EngineState::new(cfg, 1, library.clone());
    assert_eq!(eng.effective_major_cds, vec![1, 2]);

    let mut eng = EngineState::new(config(3), 0, library);
    assert!(eng.on_identity(identity(ME)).is_none());
    assert_eq!(eng.effective_major_cds, vec![31884]);
    assert_eq!(eng.effective_am_spells, vec![498]);
    let mut cfg = config(4);
    cfg.selected_spec = "MAGE/Fire".to_owned();
    eng.on_config(cfg);
    assert_eq!(eng.effective_major_cds, vec![190319]);
    assert_eq!(eng.config.intensity, 4);
    assert!(eng.on_identity(identity("")).is_none());
}

#[test]
fn defensive_timing_needs_pressure() {
    let library = vec![profile("PALADIN", "Retribution", &[31884], &[498])];
    let mut eng = EngineState::new(config(2), 1, library);
    eng.on_identity(identity(ME));
    feed(&mut eng, encounter_start(0), 1);
    feed(&mut eng, damage(1000, ME, 1, 12_000), 1);
    feed(&mut eng, swing(2000, ME, 7_999), 1);
    assert!(feed(&mut eng, cast(3000, ME, "Me", 498), 1).advice.is_empty());
    feed(&mut eng, swing(4000, ME, 1), 1);
    let out = feed(&mut eng, cast(5000, ME, "Me", 498), 1);
    assert_eq!(out.advice.len(), 1);
    let a = &out.advice[0];
    assert_eq!(a.key, "am_under_pressure_498");
    assert_eq!(a.severity, Severity::Good);
    assert_eq!(a.title, "Good AM Timing");
    assert_eq!(a.message, "Spell498 used under pressure — 20k damage in the last 5s.");
    assert_eq!(kv(a, "recent_dmg"), "20k");
    // the hit at 1000 has left the window
    assert!(feed(&mut eng, cast(36_001, ME, "Me", 498), 1).advice.is_empty());
}

#[test]
fn seconds_round_to_the_nearest_tenth() {
    let gap_text = |gap: u64| {
        let mut eng = session(3);
        feed(&mut eng, cast(100_000, ME, "Me", 1), 1);
        let out = feed(&mut eng, cast(100_000 + gap, ME, "Me", 1), 1);
        out.advice.first().map(|a| kv(a, "gap").to_owned())
    };
    assert_eq!(gap_text(2_499), None);
    assert_eq!(gap_text(2_500).as_deref(), Some("2.5s"));
    assert_eq!(gap_text(2_549).as_deref(), Some("2.5s"));
    assert_eq!(gap_text(2_551).as_deref(), Some("2.6s"));
    assert_eq!(gap_text(2_750).as_deref(), Some("2.8s"));
    assert_eq!(gap_text(3_250).as_deref(), Some("3.2s"));
    // A tie is decided on the exact decimal value and goes to the even
    // tenth: 2.55 is 2.6 and 2.85 is 2.8, whatever the nearest binary
    // fraction would round to.
    assert_eq!(gap_text(2_550).as_deref(), Some("2.6s"));
    assert_eq!(gap_text(2_850).as_deref(), Some("2.8s"));
    assert_eq!(gap_text(2_650).as_deref(), Some("2.6s"));
    assert_eq!(gap_text(2_950).as_deref(), Some("3.0s"));
    assert_eq!(gap_text(9_960).as_deref(), Some("10.0s"));
    assert_eq!(gap_text(61_000).as_deref(), Some("61.0s"));
}

#[test]
fn event_window_keeps_the_last_30_seconds() {
    let mut state = CombatState::new();
    update_state(&mut state, &damage(1_000, "x", 1, 1), 1_000);
    update_state(&mut state, &swing(20_000, "x", 1), 20_000);
    update_state(&mut state, &cast(25_000, "Player-2-B", "O", 1), 25_000);
    assert_eq!(state.event_window.events.len(), 2);
    update_state(&mut state, &interrupt(31_000, "x", 1), 31_000);
    assert_eq!(state.event_window.events.len(), 3);
    update_state(&mut state, &interrupt(31_001, "x", 1), 31_001);
    let times: Vec<u64> = state.event_window.events.iter().map(|e| e.timestamp_ms).collect();
    assert_eq!(times, vec![20_000, 31_000, 31_001]);
    assert_eq!(state.event_window.window_ms, 30_000);
}

#[test]
fn a_cooldown_is_late_only_at_its_first_use() {
    let mut cfg = config(3);
    cfg.major_cds = vec![100, 200];
    let mut eng = EngineState::new(cfg, 1, Vec::new());
    eng.on_identity(identity(ME));
    feed(&mut eng, encounter_start(0), 1);
    let drift = |out: &combat_ledger::coach::EventOutcome| {
        out.advice.iter().filter(|a| a.key == "cooldown_drift").count()
    };
    assert_eq!(drift(&feed(&mut eng, cast(9_000, ME, "Me", 100), 1)), 1);
    // well past the cooldown of the advice, a second use is no first use
    assert_eq!(drift(&feed(&mut eng, cast(40_000, ME, "Me", 100), 1)), 0);
    assert_eq!(eng.combat.cooldowns.use_count(100), 2);
    assert_eq!(eng.combat.cooldowns.use_count(200), 0);
    // another cooldown has its own first use
    assert_eq!(drift(&feed(&mut eng, cast(60_000, ME, "Me", 200), 1)), 1);
    // and the next pull starts the count anew
    feed(&mut eng, encounter_end(70_000, true), 1);
    feed(&mut eng, encounter_start(80_000), 2);
    assert_eq!(eng.combat.cooldowns.use_count(100), 0);
    assert_eq!(drift(&feed(&mut eng, cast(90_000, ME, "Me", 100), 2)), 1);
}

#[test]
fn whole_seconds_round_to_the_even_second_on_a_tie() {
    let drift_text = |at: u64| {
        let mut cfg = config(3);
        cfg.major_cds = vec![100];
        let mut eng = EngineState::new(cfg, 1, Vec::new());
        eng.on_identity(identity(ME));
        feed(&mut eng, encounter_start(0), 1);
        let out = feed(&mut eng, cast(at, ME, "Me", 100), 1);
        out.advice
            .iter()
            .find(|a| a.key == "cooldown_drift")
            .map(|a| (a.message.clone(), kv(a, "drift").to_owned()))
            .expect("drift advice")
    };
    let text = |secs: &str| {
        format!(
            "Spell100 drifted by ~{}s into the pull. Next pull: use on pull, then on cooldown.",
            secs
        )
    };
    assert_eq!(drift_text(8_499), (text("8"), "8.5s".to_owned()));
    assert_eq!(drift_text(8_500), (text("8"), "8.5s".to_owned()));
    assert_eq!(drift_text(8_501), (text("9"), "8.5s".to_owned()));
    assert_eq!(drift_text(9_500), (text("10"), "9.5s".to_owned()));
    assert_eq!(drift_text(12_550), (text("13"), "12.6s".to_owned()));
}

#[test]
fn a_cast_by_anyone_but_a_player_can_be_a_missed_interrupt() {
    let mut eng = session(3);
    feed(&mut eng, encounter_start(0), 1);
    feed(&mut eng, interrupt(100, ME, 555), 1);
    let pet = feed(&mut eng, cast(200, "Pet-0-1", "Imp", 555), 1);
    assert_eq!(pet.advice.len(), 1);
    assert_eq!(pet.advice[0].key, "interrupt_miss_555");
    feed(&mut eng, interrupt(300, ME, 556), 1);
    let other = feed(&mut eng, cast(400, "Vehicle-0-2", "Tank", 556), 1);
    assert_eq!(other.advice.len(), 1);
    assert_eq!(other.advice[0].key, "interrupt_miss_556");
    assert!(feed(&mut eng, cast(500, "Player-2-B", "Friend", 556), 1).advice.is_empty());
    assert!(feed(&mut eng, cast(600, ME, "Me", 556), 1)
        .advice
        .iter()
        .all(|a| !a.key.starts_with("interrupt_miss")));
}

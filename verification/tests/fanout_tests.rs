use combat_ledger::engine::{AdviceEvent, Severity};
use combat_ledger::ipc::{
    chrono_hms, AdviceRing, ConnectionStatus, EventLogQueue, FanOut, PullDebrief, StateSnapshot,
};

fn advice(n: u64, severity: Severity) -> AdviceEvent {
    AdviceEvent {
        key: format!("k{}", n),
        title: "Title".to_owned(),
        message: format!("message {}", n),
        severity,
        kv: Vec::new(),
        timestamp_ms: n * 1000,
    }
}

fn snapshot(in_combat: bool, encounter: Option<&str>) -> StateSnapshot {
    StateSnapshot {
        pull_elapsed_ms: 1,
        gcd_gap_ms: 2,
        avoidable_count: 3,
        in_combat,
        interrupt_count: 4,
        encounter_name: encounter.map(|s| s.to_owned()),
    }
}

#[test]
fn hms_is_the_time_of_day() {
    assert_eq!(chrono_hms(0), "00:00:00");
    assert_eq!(chrono_hms(3_723_004), "01:02:03");
    assert_eq!(chrono_hms(86_399_999), "23:59:59");
    assert_eq!(chrono_hms(86_400_000), "00:00:00");
    assert_eq!(chrono_hms(1_700_000_000_000), "22:13:20");
}

#[test]
fn event_feed_keeps_the_last_200() {
    let mut q = EventLogQueue::new();
    for i in 0..205 {
        q.push(format!("e{}", i));
    }
    let all = q.drain();
    assert_eq!(all.len(), 200);
    assert_eq!(all[0], "e5");
    assert_eq!(all[199], "e204");
    assert!(q.drain().is_empty());
    q.push("again".to_owned());
    assert_eq!(q.drain(), vec!["again".to_owned()]);
}

#[test]
fn advice_ring_keeps_the_last_50() {
    let mut ring = AdviceRing::new();
    for i in 0..53 {
        ring.push(advice(i, Severity::Warn));
    }
    let all = ring.drain();
    assert_eq!(all.len(), 50);
    assert_eq!(all[0].key, "k3");
    assert_eq!(all[49].key, "k52");
    assert!(ring.drain().is_empty());
}

#[test]
fn feed_lines() {
    let mut fan = FanOut::new();
    fan.on_advice(advice(3723, Severity::Good));
    fan.on_advice(advice(1, Severity::Warn));
    fan.on_advice(advice(2, Severity::Bad));
    fan.on_snapshot(snapshot(true, None), 1_000);
    fan.on_snapshot(snapshot(true, Some("Boss")), 2_000);
    fan.on_snapshot(snapshot(true, Some("Boss")), 3_000);
    fan.on_snapshot(snapshot(false, None), 4_000);
    fan.on_snapshot(snapshot(true, Some("Next")), 5_000);
    let kill = PullDebrief {
        pull_number: 2,
        pull_elapsed_ms: 61_999,
        outcome: "kill".to_owned(),
        avoidable_count: 3,
        interrupt_count: 1,
        total_advice_fired: 4,
        gcd_gap_count: 0,
    };
    fan.on_debrief(&kill, 6_000);
    let mut wipe = kill.clone();
    wipe.outcome = "wipe".to_owned();
    fan.on_debrief(&wipe, 7_000);
    assert_eq!(fan.snapshot.encounter_name.as_deref(), Some("Next"));
    assert!(fan.prev_in_combat);
    assert_eq!(
        fan.log.drain(),
        vec![
            "[01:02:03] ✅ Title — message 3723",
            "[00:00:01] ⚠️ Title — message 1",
            "[00:00:02] ❌ Title — message 2",
            "[00:00:01] 🔴 Combat started — Open World",
            "[00:00:02] 🏰 Encounter: Boss",
            "[00:00:04] ⚫ Combat ended",
            "[00:00:05] 🔴 Combat started — Next",
            "[00:00:05] 🏰 Encounter: Next",
            "[00:00:06] 🏆 Pull #2 — kill — 61s, 4 advice, 3 avoidable",
            "[00:00:07] 💀 Pull #2 — wipe — 61s, 4 advice, 3 avoidable",
        ]
    );
    let ring = fan.advice.drain();
    assert_eq!(ring.len(), 3);
    assert_eq!(ring[2].key, "k2");
}

#[test]
fn connection_is_logged_only_when_it_changes() {
    let mut fan = FanOut::new();
    let status = |log: bool, addon: bool| ConnectionStatus {
        log_tailing: log,
        addon_connected: addon,
        wow_path: "C:/Logs".to_owned(),
    };
    fan.on_connection(status(false, false), 1_000);
    assert_eq!(fan.connection.wow_path, "C:/Logs");
    fan.on_connection(status(true, false), 2_000);
    fan.on_connection(status(true, false), 3_000);
    fan.on_connection(status(true, true), 4_000);
    fan.on_connection(status(false, true), 5_000);
    assert!(!fan.connection.clone().log_tailing);
    assert_eq!(
        fan.log.drain(),
        vec![
            "[00:00:02] 🟢 Log connected",
            "[00:00:04] 🟢 Log connected · Addon connected",
            "[00:00:05] 🔴 Log disconnected · Addon connected",
        ]
    );
}

#[test]
fn snapshot_overwrites_the_one_held() {
    let mut fan = FanOut::new();
    assert!(!fan.snapshot.in_combat);
    fan.on_snapshot(snapshot(true, Some("A")), 0);
    let held = fan.snapshot.clone();
    assert_eq!(held.pull_elapsed_ms, 1);
    assert_eq!(held.gcd_gap_ms, 2);
    assert_eq!(held.avoidable_count, 3);
    assert_eq!(held.interrupt_count, 4);
    assert_eq!(held.encounter_name.as_deref(), Some("A"));
    assert_eq!(StateSnapshot::default().encounter_name, None);
}

use combat_ledger::db::{pull_history_query, DbCommand, SqlValue, DEFAULT_HISTORY_LIMIT, SCHEMA};
use combat_ledger::update::check_manifest;

fn values(cmd: &DbCommand) -> Vec<String> {
    cmd.params()
        .into_iter()
        .map(|v| match v {
            SqlValue::Integer(n) => format!("i{}", n),
            SqlValue::Unsigned(n) => format!("u{}", n),
            SqlValue::Text(s) => format!("t{}", s),
        })
        .collect()
}

#[test]
fn commands_map_to_statements_and_values() {
    let c = DbCommand::InsertSession {
        started_at: 5,
        player_name: "n".to_owned(),
        player_guid: "g".to_owned(),
    };
    assert!(c.expects_reply());
    assert_eq!(
        c.statement(),
        Some("INSERT INTO sessions (started_at, player_name, player_guid) VALUES (?1, ?2, ?3)")
    );
    assert_eq!(values(&c), vec!["u5", "tn", "tg"]);

    let c = DbCommand::UpdateSession {
        session_id: -3,
        player_name: "n".to_owned(),
        player_guid: "g".to_owned(),
    };
    assert!(!c.expects_reply());
    assert_eq!(
        c.statement(),
        Some("UPDATE sessions SET player_name = ?1, player_guid = ?2 WHERE id = ?3")
    );
    assert_eq!(values(&c), vec!["tn", "tg", "i-3"]);

    let c = DbCommand::InsertPull { session_id: 1, pull_number: 2, started_at: 3 };
    assert!(c.expects_reply());
    assert_eq!(
        c.statement(),
        Some("INSERT INTO pulls (session_id, pull_number, started_at) VALUES (?1, ?2, ?3)")
    );
    assert_eq!(values(&c), vec!["i1", "u2", "u3"]);

    let c = DbCommand::EndPull { pull_id: 9, ended_at: 8, outcome: "wipe".to_owned() };
    assert!(!c.expects_reply());
    assert_eq!(c.statement(), Some("UPDATE pulls SET ended_at = ?1, outcome = ?2 WHERE id = ?3"));
    assert_eq!(values(&c), vec!["u8", "twipe", "i9"]);

    let c = DbCommand::InsertAdvice {
        pull_id: 9,
        fired_at: 8,
        rule_key: "k".to_owned(),
        severity: "bad".to_owned(),
        message: "m".to_owned(),
    };
    assert!(!c.expects_reply());
    assert_eq!(
        c.statement(),
        Some("INSERT INTO advice_events (pull_id, fired_at, rule_key, severity, message) VALUES (?1, ?2, ?3, ?4, ?5)")
    );
    assert_eq!(values(&c), vec!["i9", "u8", "tk", "tbad", "tm"]);

    assert!(!DbCommand::Shutdown.expects_reply());
    assert_eq!(DbCommand::Shutdown.statement(), None);
    assert!(DbCommand::Shutdown.params().is_empty());
}

#[test]
fn history_query_takes_the_limit() {
    assert_eq!(DEFAULT_HISTORY_LIMIT, 25);
    let q = pull_history_query(DEFAULT_HISTORY_LIMIT);
    assert!(q.starts_with("SELECT p.id, p.session_id"));
    assert!(q.ends_with("ORDER BY p.id DESC LIMIT 25"));
    assert!(pull_history_query(3).ends_with("LIMIT 3"));
    assert!(SCHEMA.contains("CREATE TABLE IF NOT EXISTS advice_events"));
    assert!(SCHEMA.contains("REFERENCES pulls(id) ON DELETE CASCADE"));
}

#[test]
fn manifest_with_a_newer_version() {
    let info = check_manifest("0.6.0", r#"{"version": "0.7.0", "notes": "fixes"}"#).unwrap();
    assert!(info.available);
    assert_eq!(info.current_version, "0.6.0");
    assert_eq!(info.new_version.as_deref(), Some("0.7.0"));
    assert_eq!(info.notes.as_deref(), Some("fixes"));
}

#[test]
fn manifest_without_news() {
    let same = check_manifest("0.7.0", r#"{"version": "0.7.0"}"#).unwrap();
    assert!(!same.available);
    assert_eq!(same.new_version, None);
    assert_eq!(same.notes, None);
    for body in [r#"{"notes": "n"}"#, r#"{"version": 7}"#, r#"{"version": ""}"#, r#"[1, 2]"#, "3"] {
        let info = check_manifest("0.7.0", body).unwrap();
        assert!(!info.available, "available for {}", body);
        assert_eq!(info.new_version, None);
    }
    assert_eq!(check_manifest("1", r#"{"notes": "n"}"#).unwrap().notes.as_deref(), Some("n"));
}

#[test]
fn manifest_that_is_no_json() {
    let err = check_manifest("0.7.0", "<html>").unwrap_err();
    assert!(err.starts_with("Update manifest parse error: "), "{}", err);
    assert!(err.len() > "Update manifest parse error: ".len());
    assert!(check_manifest("0.7.0", "").is_err());
}

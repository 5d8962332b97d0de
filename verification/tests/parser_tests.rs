use combat_ledger::parser::{csv_fields, parse_line, parse_timestamp, split_line, unquote, LogEvent};

const SPELL_DAMAGE_LINE: &str = r#"5/21 20:14:33.456  SPELL_DAMAGE,Player-1234-ABCDEF,"Stonebraid",0x511,0x0,Creature-0-4372-ABCD-000,"Boss",0xa48,0x0,12345,"Shadow Surge",0x20,0,0,55000,0,0,0,nil,nil,nil"#;

const CAST_SUCCESS_LINE: &str = r#"5/21 20:14:35.100  SPELL_CAST_SUCCESS,Player-1234-ABCDEF,"Stonebraid",0x511,0x0,0000000000000000,"",0x80,0x0,31884,"Avenging Wrath",0x2"#;

const UNIT_DIED_LINE: &str = r#"5/21 20:15:00.000  UNIT_DIED,0000000000000000,"",0x80,0x0,Creature-0-4372-ABCD-000,"Boss",0xa48,0x0,0"#;

const ENCOUNTER_START_LINE: &str =
    r#"5/21 20:14:30.000  ENCOUNTER_START,2920,"The Necrotic Wake",14,5"#;

const ENCOUNTER_END_WIN_LINE: &str =
    r#"5/21 20:20:00.000  ENCOUNTER_END,2920,"The Necrotic Wake",14,5,1"#;

const ENCOUNTER_END_WIPE_LINE: &str =
    r#"5/21 20:18:00.000  ENCOUNTER_END,2920,"The Necrotic Wake",14,5,0"#;

const CAST_FAILED_LINE: &str = r#"5/21 20:14:34.200  SPELL_CAST_FAILED,Player-1234-ABCDEF,"Stonebraid",0x511,0x0,0000000000000000,"",0x80,0x0,31884,"Avenging Wrath",0x2,MOVING"#;

const CAST_START_LINE: &str = r#"5/21 20:14:34.000  SPELL_CAST_START,Creature-0-4372-ABCD-000,"Boss",0xa48,0x0,0000000000000000,"",0x80,0x0,99999,"Void Bolt",0x40"#;

const QUOTED_COMMA_LINE: &str = r#"5/21 20:14:33.456  SPELL_DAMAGE,Creature-0-1234-ABCD-000,"Kel'Thuzad, the Undying",0xa48,0x0,Player-1234-ABCDEF,"Stonebraid",0x511,0x0,12345,"Frost Bolt",0x10,0,0,30000,0,0,0,nil,nil,nil"#;

#[test]
fn parses_spell_damage() {
    let e = parse_line(SPELL_DAMAGE_LINE).expect("should parse");
    match e {
        LogEvent::SpellDamage { spell_id, spell_name, amount, source_name, .. } => {
            assert_eq!(spell_id, 12345);
            assert_eq!(spell_name, "Shadow Surge");
            assert_eq!(amount, 55000);
            assert_eq!(source_name, "Stonebraid");
        }
        other => panic!("Wrong variant: {:?}", other),
    }
}

#[test]
fn parses_cast_success() {
    let e = parse_line(CAST_SUCCESS_LINE).expect("should parse");
    match e {
        LogEvent::SpellCastSuccess { spell_id, spell_name, source_name, .. } => {
            assert_eq!(spell_id, 31884);
            assert_eq!(spell_name, "Avenging Wrath");
            assert_eq!(source_name, "Stonebraid");
        }
        other => panic!("Wrong variant: {:?}", other),
    }
}

#[test]
fn parses_unit_died() {
    let e = parse_line(UNIT_DIED_LINE).expect("should parse");
    match e {
        LogEvent::UnitDied { dest_name, .. } => assert_eq!(dest_name, "Boss"),
        other => panic!("Wrong variant: {:?}", other),
    }
}

#[test]
fn parses_encounter_start() {
    let e = parse_line(ENCOUNTER_START_LINE).expect("should parse");
    match e {
        LogEvent::EncounterStart { encounter_id, encounter_name, group_size, .. } => {
            assert_eq!(encounter_id, 2920);
            assert_eq!(encounter_name, "The Necrotic Wake");
            assert_eq!(group_size, 5);
        }
        other => panic!("Wrong variant: {:?}", other),
    }
}

#[test]
fn parses_encounter_end_win() {
    let e = parse_line(ENCOUNTER_END_WIN_LINE).expect("should parse");
    match e {
        LogEvent::EncounterEnd { success, encounter_name, .. } => {
            assert!(success);
            assert_eq!(encounter_name, "The Necrotic Wake");
        }
        other => panic!("Wrong variant: {:?}", other),
    }
}

#[test]
fn parses_encounter_end_wipe() {
    let e = parse_line(ENCOUNTER_END_WIPE_LINE).expect("should parse");
    match e {
        LogEvent::EncounterEnd { success, .. } => assert!(!success),
        other => panic!("Wrong variant: {:?}", other),
    }
}

#[test]
fn parses_spell_cast_failed() {
    let e = parse_line(CAST_FAILED_LINE).expect("should parse");
    match e {
        LogEvent::SpellCastFailed { spell_id, failed_type, .. } => {
            assert_eq!(spell_id, 31884);
            assert_eq!(failed_type, "MOVING");
        }
        other => panic!("Wrong variant: {:?}", other),
    }
}

#[test]
fn parses_spell_cast_start() {
    let e = parse_line(CAST_START_LINE).expect("should parse");
    match e {
        LogEvent::SpellCastStart { spell_id, spell_name, source_name, .. } => {
            assert_eq!(spell_id, 99999);
            assert_eq!(spell_name, "Void Bolt");
            assert_eq!(source_name, "Boss");
        }
        other => panic!("Wrong variant: {:?}", other),
    }
}

#[test]
fn handles_quoted_comma_in_npc_name() {
    let e = parse_line(QUOTED_COMMA_LINE).expect("should parse");
    match e {
        LogEvent::SpellDamage { dest_name, source_name, spell_name, .. } => {
            assert_eq!(dest_name, "Stonebraid");
            assert_eq!(source_name, "Kel'Thuzad, the Undying");
            assert_eq!(spell_name, "Frost Bolt");
        }
        other => panic!("Wrong variant: {:?}", other),
    }
}

#[test]
fn returns_none_for_garbage() {
    assert!(parse_line("not a log line").is_none());
    assert!(parse_line("").is_none());
}

#[test]
fn parses_3_digit_subseconds() {
    let line = r#"5/21 20:14:33.456  SPELL_CAST_SUCCESS,Player-1234-ABCDEF,"Test",0x511,0x0,0000000000000000,"",0x80,0x0,31884,"Avenging Wrath",0x2"#;
    let e = parse_line(line).expect("should parse 3-digit ts");
    let expected_ms = (20 * 3600 + 14 * 60 + 33) * 1000 + 456;
    assert_eq!(e.timestamp_ms(), expected_ms);
}

#[test]
fn parses_4_digit_subseconds() {
    let line = r#"2/23/2026 16:22:39.2461  SPELL_CAST_SUCCESS,Player-1234-ABCDEF,"Test",0x511,0x0,0000000000000000,"",0x80,0x0,31884,"Avenging Wrath",0x2"#;
    let e = parse_line(line).expect("should parse 4-digit ts");
    let expected_ms = (16 * 3600 + 22 * 60 + 39) * 1000 + 246;
    assert_eq!(e.timestamp_ms(), expected_ms);
}

#[test]
fn timestamps_monotonic_across_seconds() {
    let line_a = r#"2/23/2026 16:22:42.8831  SPELL_CAST_SUCCESS,Player-1234-ABCDEF,"Test",0x511,0x0,0000000000000000,"",0x80,0x0,31884,"Avenging Wrath",0x2"#;
    let line_b = r#"2/23/2026 16:22:43.2791  SPELL_CAST_SUCCESS,Player-1234-ABCDEF,"Test",0x511,0x0,0000000000000000,"",0x80,0x0,31884,"Avenging Wrath",0x2"#;
    let ts_a = parse_line(line_a).unwrap().timestamp_ms();
    let ts_b = parse_line(line_b).unwrap().timestamp_ms();
    assert!(ts_b > ts_a, "43.2791 should be after 42.8831 but got ts_a={} ts_b={}", ts_a, ts_b);
}

#[test]
fn parses_wow12_realm_name_format() {
    let line = r#"2/23/2026 16:22:42.8831  SPELL_CAST_SUCCESS,Player-1403-0B16F518,"Stonebraid-Draenor-EU",0x511,0x80000000,Creature-0-3770-2552,"Kelpfist",0x10a28,0x80000000,20271,"Judgment",0x2"#;
    let e = parse_line(line).expect("should parse realm name");
    match e {
        LogEvent::SpellCastSuccess { source_name, source_guid, spell_name, .. } => {
            assert_eq!(source_name, "Stonebraid-Draenor-EU");
            assert_eq!(source_guid, "Player-1403-0B16F518");
            assert_eq!(spell_name, "Judgment");
        }
        other => panic!("Wrong variant: {:?}", other),
    }
}

#[test]
fn csv_fields_keep_quotes_and_respect_the_limit() {
    assert_eq!(csv_fields(r#"A,"b,c",d"#, 30), vec!["A", r#""b,c""#, "d"]);
    assert_eq!(csv_fields("a,,b,", 30), vec!["a", "", "b"]);
    assert_eq!(csv_fields("a,b,c", 2), vec!["a", "b"]);
    assert_eq!(csv_fields(r#""open,x"#, 30), vec![r#""open,x"#]);
    assert!(csv_fields("", 30).is_empty());
}

#[test]
fn unquote_strips_all_outer_quotes() {
    assert_eq!(unquote(r#""Boss""#), "Boss");
    assert_eq!(unquote(r#""""#), "");
    assert_eq!(unquote("plain"), "plain");
    assert_eq!(unquote(r#"""a"b"""#), r#"a"b"#);
}

#[test]
fn timestamp_fraction_is_normalised() {
    assert_eq!(parse_timestamp("5/21 00:00:01.5"), Some(1_500));
    assert_eq!(parse_timestamp("5/21 00:00:01.25"), Some(1_250));
    assert_eq!(parse_timestamp("5/21 00:00:01.123"), Some(1_123));
    assert_eq!(parse_timestamp("5/21 00:00:01.12349"), Some(1_123));
    assert_eq!(parse_timestamp("5/21 00:00:01"), Some(1_000));
    assert_eq!(parse_timestamp("5/21 01:02:03.004"), Some(3_723_004));
    assert_eq!(parse_timestamp("00:00:01.5"), None);
    assert_eq!(parse_timestamp("5/21 00:01.5"), None);
    assert_eq!(parse_timestamp("5/21 aa:00:01.5"), None);
    assert_eq!(parse_timestamp("5/21 99999999999999999999:00:01"), None);
    assert_eq!(parse_timestamp("5/21 18446744073709551615:00:00"), None);
}

#[test]
fn split_line_needs_the_double_space() {
    assert!(split_line("5/21 20:14:33.456 SPELL_DAMAGE,a,b").is_none());
    let (ts, f) = split_line("5/21 00:00:02.000  X,y").expect("splits");
    assert_eq!(ts, 2_000);
    assert_eq!(f, vec!["X", "y"]);
}

#[test]
fn unknown_subevent_and_missing_fields_are_dropped() {
    assert!(parse_line("5/21 20:14:33.456  SPELL_AURA_APPLIED,a,b,c,d,e,f,g,h,1,\"x\"").is_none());
    assert!(parse_line("5/21 20:14:33.456  SPELL_DAMAGE,a,b").is_none());
    assert!(parse_line("5/21 20:14:33.456  SPELL_CAST_SUCCESS,a,b,c,d,e,f,g,h,notanumber,\"x\"").is_none());
    assert!(parse_line("5/21 20:14:33.456  ENCOUNTER_START,2920,\"Zone\",14").is_none());
}

#[test]
fn periodic_and_range_damage_are_spell_damage() {
    for kind in ["SPELL_PERIODIC_DAMAGE", "RANGE_DAMAGE"] {
        let line = format!(
            "5/21 20:14:33.456  {},Creature-1,\"Mob\",0,0,Player-1-A,\"Me\",0,0,77,\"Burn\",0x4,0,0,900",
            kind
        );
        match parse_line(&line).expect("should parse") {
            LogEvent::SpellDamage { spell_id, amount, dest_guid, .. } => {
                assert_eq!(spell_id, 77);
                assert_eq!(amount, 900);
                assert_eq!(dest_guid, "Player-1-A");
            }
            other => panic!("Wrong variant: {:?}", other),
        }
    }
}

#[test]
fn event_accessors() {
    let e = parse_line(SPELL_DAMAGE_LINE).expect("should parse");
    assert_eq!(e.source_guid(), Some("Player-1234-ABCDEF"));
    assert_eq!(e.dest_guid(), Some("Creature-0-4372-ABCD-000"));
    let s = parse_line(ENCOUNTER_START_LINE).expect("should parse");
    assert_eq!(s.source_guid(), None);
    assert_eq!(s.dest_guid(), None);
    let c = parse_line(CAST_SUCCESS_LINE).expect("should parse");
    assert_eq!(c.source_guid(), Some("Player-1234-ABCDEF"));
    assert_eq!(c.dest_guid(), None);
    let copy = c.clone();
    assert_eq!(copy.timestamp_ms(), c.timestamp_ms());
}

/// The line of a cast as the log writes it: timestamp, two spaces, fields.
fn cast_line(ts: u64, source: &str, name: &str, spell: u32, spell_name: &str) -> String {
    format!(
        "1/1 {}:{}:{}.{:03}  SPELL_CAST_SUCCESS,{},\"{}\",0,0,0,\"\",0,0,{},\"{}\"",
        ts / 3_600_000,
        (ts / 60_000) % 60,
        (ts / 1_000) % 60,
        ts % 1_000,
        source,
        name,
        spell,
        spell_name
    )
}

#[test]
fn reading_a_written_event_gives_it_back() {
    for (ts, source, name, spell, spell_name) in [
        (0u64, "Player-1-A", "Me", 0u32, "X"),
        (72_873_456, "Creature-0-1", "Kel'Thuzad, the Undying", 4_294_967_295, "Frost, Bolt"),
        (86_399_999, "", "", 7, ""),
        (1_000_000_000_007, "g", "n-Realm", 12, "s"),
    ] {
        let line = cast_line(ts, source, name, spell, spell_name);
        match parse_line(&line).expect("should parse") {
            LogEvent::SpellCastSuccess {
                timestamp_ms,
                source_guid,
                source_name,
                spell_id,
                spell_name: read_name,
            } => {
                assert_eq!(timestamp_ms, ts, "{}", line);
                assert_eq!(source_guid, source);
                assert_eq!(source_name, name);
                assert_eq!(spell_id, spell);
                assert_eq!(read_name, spell_name);
            }
            other => panic!("Wrong variant: {:?}", other),
        }
    }
    let line = "1/1 0:0:1.000  ENCOUNTER_END,5,\"Zone, the\",0,0,1";
    match parse_line(line).expect("should parse") {
        LogEvent::EncounterEnd { timestamp_ms, encounter_id, encounter_name, success } => {
            assert_eq!((timestamp_ms, encounter_id, success), (1_000, 5, true));
            assert_eq!(encounter_name, "Zone, the");
        }
        other => panic!("Wrong variant: {:?}", other),
    }
}

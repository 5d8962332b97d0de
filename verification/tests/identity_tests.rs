use combat_ledger::identity::{extract_lua_string, parse_saved_variables, PlayerIdentity};

const SAMPLE: &str = r#"
CombatCoachDB = {
    ["playerGUID"] = "Player-1234-ABCDEF",
    ["playerName"] = "Stonebraid",
    ["realmName"] = "Stormrage",
    ["className"] = "PALADIN",
    ["specName"] = "Retribution",
    ["addonVersion"] = "0.1.0",
}
"#;

#[test]
fn parses_identity() {
    let id = parse_saved_variables(SAMPLE).expect("should parse");
    assert_eq!(id.guid, "Player-1234-ABCDEF");
    assert_eq!(id.name, "Stonebraid");
    assert_eq!(id.realm, "Stormrage");
    assert_eq!(id.class, "PALADIN");
    assert_eq!(id.spec, "Retribution");
}

#[test]
fn returns_none_for_empty() {
    assert!(parse_saved_variables("").is_none());
}

#[test]
fn identity_needs_guid_and_name_only() {
    let text = "X = {\r\n  [\"playerName\"] =   \"Solo\",\r\n  [\"playerGUID\"] = \"Player-9\"\r\n}";
    let id = parse_saved_variables(text).expect("should parse");
    assert_eq!(id.guid, "Player-9");
    assert_eq!(id.name, "Solo");
    assert_eq!(id.realm, "");
    assert_eq!(id.version, "");
    assert!(id.is_known());
    assert!(parse_saved_variables("[\"playerGUID\"] = \"Player-9\"").is_none());
}

#[test]
fn lua_value_must_be_quoted_and_closed() {
    assert_eq!(extract_lua_string("[\"k\"] = \"v\"", "k"), Some("v"));
    assert_eq!(extract_lua_string("[\"k\"] = 12", "k"), None);
    assert_eq!(extract_lua_string("[\"k\"] = \"open", "k"), None);
    assert_eq!(extract_lua_string("[\"k\"] \"v\"", "k"), None);
    assert_eq!(extract_lua_string("[\"other\"] = \"v\"", "k"), None);
    assert_eq!(extract_lua_string("[\"k\"] = 1\n[\"k\"] = \"second\"", "k"), None);
}

#[test]
fn unknown_identity() {
    let id = PlayerIdentity::unknown();
    assert_eq!(id.name, "Unknown");
    assert_eq!(id.guid, "");
    assert!(!id.is_known());
    assert_eq!(id.clone(), id);
}

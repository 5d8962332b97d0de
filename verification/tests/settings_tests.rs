use combat_ledger::config::{list_characters, rank_text, Rank, WtfCharacter};
use combat_ledger::hotkey::{user_combo_to_shortcut, Key, Modifiers, Shortcut};

fn found(chars: &[(&str, &str, &str)]) -> Vec<WtfCharacter> {
    chars
        .iter()
        .map(|(account, realm, name)| WtfCharacter {
            name: name.to_string(),
            realm: realm.to_string(),
            account: account.to_string(),
        })
        .collect()
}

#[test]
fn scan_wtf_finds_characters() {
    let chars = list_characters(found(&[
        ("12345678#1", "Stormrage", "Stonebraid"),
        ("12345678#1", "Stormrage", "Altbraid"),
        ("12345678#1", "Silvermoon", "Healbraid"),
    ]));
    assert_eq!(chars.len(), 3);
    assert_eq!(chars[0].realm, "Silvermoon");
    assert_eq!(chars[0].name, "Healbraid");
    assert_eq!(chars[1].realm, "Stormrage");
    assert_eq!(chars[1].name, "Altbraid");
    assert_eq!(chars[2].name, "Stonebraid");
}

#[test]
fn scan_wtf_skips_saved_variables_dir() {
    let chars = list_characters(found(&[
        ("12345678#1", "SavedVariables", "Addon"),
        ("12345678#1", "Stormrage", "Stonebraid"),
        ("12345678#1", "macros-cache.txt", "x"),
    ]));
    assert_eq!(chars.len(), 1);
    assert_eq!(chars[0].name, "Stonebraid");
}

#[test]
fn scan_wtf_returns_empty_when_no_wtf_dir() {
    assert!(list_characters(Vec::new()).is_empty());
}

#[test]
fn characters_of_one_name_stay_in_the_order_found() {
    let chars = list_characters(found(&[
        ("b", "R", "Same"),
        ("a", "R", "Same"),
        ("c", "Q", "Zed"),
        ("d", "R", "Sam"),
        ("e", "R", "Samé"),
    ]));
    let accounts: Vec<&str> = chars.iter().map(|c| c.account.as_str()).collect();
    assert_eq!(accounts, vec!["c", "d", "b", "a", "e"]);
}

#[test]
fn dictionary_order() {
    assert_eq!(rank_text("", ""), Rank::Same);
    assert_eq!(rank_text("", "a"), Rank::Before);
    assert_eq!(rank_text("a", ""), Rank::After);
    assert_eq!(rank_text("abc", "abd"), Rank::Before);
    assert_eq!(rank_text("abc", "ab"), Rank::After);
    assert_eq!(rank_text("Zebra", "apple"), Rank::Before);
    assert_eq!(rank_text("é", "z"), Rank::After);
    assert_eq!(rank_text("same", "same"), Rank::Same);
    for (a, b) in [("x", "y"), ("Stormrage", "Silvermoon"), ("a", "ab"), ("ü", "u")] {
        let expected = match a.cmp(b) {
            std::cmp::Ordering::Less => Rank::Before,
            std::cmp::Ordering::Equal => Rank::Same,
            std::cmp::Ordering::Greater => Rank::After,
        };
        assert_eq!(rank_text(a, b), expected);
    }
}

fn shortcut(ctrl: bool, shift: bool, alt: bool, meta: bool, key: Key) -> Shortcut {
    Shortcut { modifiers: Modifiers { ctrl, shift, alt, meta }, key }
}

#[test]
fn combinations_are_read() {
    assert_eq!(
        user_combo_to_shortcut("Ctrl+Shift+O"),
        Ok(shortcut(true, true, false, false, Key::Letter('O')))
    );
    assert_eq!(
        user_combo_to_shortcut("control+ALT+f12"),
        Ok(shortcut(true, false, true, false, Key::Function(12)))
    );
    assert_eq!(
        user_combo_to_shortcut("win+z"),
        Ok(shortcut(false, false, false, true, Key::Letter('Z')))
    );
    assert_eq!(
        user_combo_to_shortcut("Super+Meta+F1"),
        Ok(shortcut(false, false, false, true, Key::Function(1)))
    );
    let plain = user_combo_to_shortcut("a").unwrap();
    assert!(plain.modifiers.is_empty());
    assert_eq!(plain.key, Key::Letter('A'));
    // the key named last counts
    assert_eq!(user_combo_to_shortcut("a+F2+b").unwrap().key, Key::Letter('B'));
    assert!(!user_combo_to_shortcut("shift+a").unwrap().modifiers.is_empty());
}

#[test]
fn combinations_that_are_refused() {
    assert_eq!(user_combo_to_shortcut("Ctrl+1"), Err("Unsupported key '1'".to_owned()));
    assert_eq!(user_combo_to_shortcut("Ctrl++A"), Err("Unsupported token ''".to_owned()));
    assert_eq!(user_combo_to_shortcut("Ctrl+F13"), Err("Unsupported token 'f13'".to_owned()));
    assert_eq!(user_combo_to_shortcut("Ctrl+É"), Err("Unsupported token 'É'".to_owned()));
    assert_eq!(user_combo_to_shortcut("Hyper+A"), Err("Unsupported token 'hyper'".to_owned()));
    assert_eq!(
        user_combo_to_shortcut("Ctrl+Shift"),
        Err("No key specified in combo 'Ctrl+Shift'".to_owned())
    );
    assert_eq!(user_combo_to_shortcut(""), Err("Unsupported token ''".to_owned()));
    // the first token that is not known decides
    assert_eq!(user_combo_to_shortcut("?+Nope"), Err("Unsupported key '?'".to_owned()));
}

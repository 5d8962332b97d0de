use combat_ledger::specs::{
    list_all, load_by_key, load_spec, parse_all, parse_profile, SpecProfile,
};

/// One profile document. The ids are the ones the tests ask for; a
/// specialisation the tests ask nothing of has empty lists.
fn document(class: &str, spec: &str, role: &str, major: &[u32], am: Option<&[u32]>) -> String {
    let mut text = format!(
        "[spec]\nclass = \"{}\"\nspec = \"{}\"\nrole = \"{}\"\ndescription = \"fixture\"\n\n[spec.cooldowns]\nmajor_cd_spell_ids = {:?}\n",
        class, spec, role, major
    );
    if let Some(ids) = am {
        text.push_str(&format!("\n[spec.active_mitigation]\nam_spell_ids = {:?}\n", ids));
    }
    text
}

fn library_texts() -> Vec<String> {
    let names: [(&str, &[&str]); 13] = [
        ("DEATH_KNIGHT", &["Blood", "Frost", "Unholy"]),
        ("DEMON_HUNTER", &["Havoc", "Vengeance"]),
        ("DRUID", &["Balance", "Feral", "Guardian", "Restoration"]),
        ("EVOKER", &["Augmentation", "Devastation", "Preservation"]),
        ("HUNTER", &["Beast Mastery", "Marksmanship", "Survival"]),
        ("MAGE", &["Arcane", "Fire", "Frost"]),
        ("MONK", &["Brewmaster", "Mistweaver", "Windwalker"]),
        ("PALADIN", &["Holy", "Protection", "Retribution"]),
        ("PRIEST", &["Discipline", "Holy", "Shadow"]),
        ("ROGUE", &["Assassination", "Outlaw", "Subtlety"]),
        ("SHAMAN", &["Elemental", "Enhancement", "Restoration"]),
        ("WARLOCK", &["Affliction", "Demonology", "Destruction"]),
        ("WARRIOR", &["Arms", "Fury", "Protection"]),
    ];
    let mut texts = Vec::new();
    for (class, specs) in names {
        for spec in specs {
            let text = match (class, *spec) {
                ("PALADIN", "Retribution") => {
                    document(class, spec, "dps", &[31884, 231895], Some(&[498, 642]))
                }
                ("WARRIOR", "Protection") => document(class, spec, "tank", &[871], Some(&[2565])),
                _ => document(class, spec, "dps", &[], None),
            };
            texts.push(text);
        }
    }
    texts
}

fn library() -> Vec<SpecProfile> {
    parse_all(&library_texts())
}

#[test]
fn lists_all_specs() {
    let specs = list_all(&library());
    assert_eq!(specs.len(), 39);
    let keys: Vec<&str> = specs.iter().map(|s| s.key.as_str()).collect();
    assert!(keys.contains(&"PALADIN/Retribution"));
    assert!(keys.contains(&"PRIEST/Holy"));
    assert!(keys.contains(&"WARRIOR/Protection"));
    assert!(keys.contains(&"MAGE/Fire"));
    assert!(keys.contains(&"DEATH_KNIGHT/Blood"));
    assert!(keys.contains(&"HUNTER/Beast Mastery"));
}

#[test]
fn loads_paladin_ret() {
    let p = load_spec(&library(), "PALADIN", "Retribution").expect("should load");
    assert!(!p.major_cd_spell_ids.is_empty());
    assert!(p.major_cd_spell_ids.contains(&31884));
    assert!(p.am_spell_ids.contains(&498));
}

#[test]
fn loads_by_key() {
    let p = load_by_key(&library(), "WARRIOR/Protection").expect("should load");
    assert!(p.major_cd_spell_ids.contains(&871));
}

#[test]
fn case_insensitive_lookup() {
    assert!(load_spec(&library(), "paladin", "retribution").is_some());
    assert!(load_by_key(&library(), "warrior/protection").is_some());
}

#[test]
fn returns_none_for_unknown() {
    assert!(load_spec(&library(), "TINKER", "Mechagnome").is_none());
}

#[test]
fn key_format() {
    let p = load_spec(&library(), "PALADIN", "Retribution").unwrap();
    assert_eq!(p.key(), "PALADIN/Retribution");
}

#[test]
fn profile_is_read_field_by_field() {
    let p = parse_profile(&document("MONK", "Brewmaster", "tank", &[1, 4294967295], Some(&[7])))
        .expect("should parse");
    assert_eq!(p.class, "MONK");
    assert_eq!(p.spec_name, "Brewmaster");
    assert_eq!(p.role, "tank");
    assert_eq!(p.major_cd_spell_ids, vec![1, 4294967295]);
    assert_eq!(p.am_spell_ids, vec![7]);
    let q = parse_profile(&document("MONK", "Windwalker", "dps", &[5], None)).expect("parses");
    assert!(q.am_spell_ids.is_empty());
    assert_eq!(q.clone().key(), "MONK/Windwalker");
}

#[test]
fn malformed_profiles_are_passed_over() {
    let good = document("MAGE", "Fire", "dps", &[190319], None);
    let cases = [
        "not toml at all [",
        "[other]\nx = 1\n",
        "[spec]\nclass = \"A\"\nspec = \"B\"\n[spec.cooldowns]\nmajor_cd_spell_ids = [1]\n",
        "[spec]\nclass = \"A\"\nspec = \"B\"\nrole = \"r\"\n",
        "[spec]\nclass = \"A\"\nspec = \"B\"\nrole = \"r\"\n[spec.cooldowns]\nmajor_cd_spell_ids = [-1]\n",
        "[spec]\nclass = \"A\"\nspec = \"B\"\nrole = \"r\"\n[spec.cooldowns]\nmajor_cd_spell_ids = [4294967296]\n",
        "[spec]\nclass = \"A\"\nspec = \"B\"\nrole = \"r\"\n[spec.cooldowns]\nmajor_cd_spell_ids = [\"x\"]\n",
        "[spec]\nclass = \"A\"\nspec = \"B\"\nrole = \"r\"\n[spec.cooldowns]\nmajor_cd_spell_ids = [1]\n[spec.active_mitigation]\nother = 1\n",
        "[spec]\nclass = \"A\"\nspec = \"B\"\nrole = \"r\"\ndescription = 5\n[spec.cooldowns]\nmajor_cd_spell_ids = [1]\n",
        "[spec]\nclass = \"A\"\nspec = \"B\"\nrole = \"r\"\n[spec.cooldowns]\nmajor_cd_spell_ids = [1]\n[spec.rotation]\nx = 1\n",
        "[spec]\nclass = 3\nspec = \"B\"\nrole = \"r\"\n[spec.cooldowns]\nmajor_cd_spell_ids = [1]\n",
    ];
    for text in cases {
        assert!(parse_profile(text).is_none(), "accepted: {}", text);
    }
    let with_rotation = "[spec]\nclass = \"A\"\nspec = \"B\"\nrole = \"r\"\n[spec.cooldowns]\nmajor_cd_spell_ids = [1]\n[spec.rotation]\nprimary_spell_ids = [2, 3]\n";
    assert!(parse_profile(with_rotation).is_some());
    let texts = vec![cases[0].to_string(), good, cases[1].to_string()];
    let all = parse_all(&texts);
    assert_eq!(all.len(), 1);
    assert_eq!(all[0].key(), "MAGE/Fire");
}

#[test]
fn lookup_takes_the_first_that_fits_and_needs_the_slash() {
    let texts = vec![
        document("MAGE", "Fire", "dps", &[1], None),
        document("mage", "FIRE", "dps", &[2], None),
    ];
    let lib = parse_all(&texts);
    assert_eq!(load_spec(&lib, "Mage", "fire").unwrap().major_cd_spell_ids, vec![1]);
    assert!(load_by_key(&lib, "MAGE Fire").is_none());
    assert!(load_by_key(&lib, "MAGE/Fire/x").is_none());
    assert!(load_by_key(&lib, "/Fire").is_none());
}

use combat_ledger::config::{
    bool_true, default_intensity, find_latest_log, is_combat_log_name, is_realm_folder,
    HotkeyConfig, LogCandidate, WtfCharacter,
};
use combat_ledger::queues::{Overflow, Queue};
use combat_ledger::tailer::{complete_lines, TailerState};

/// A directory of files held in memory: name, time of modification, bytes.
struct Dir {
    files: Vec<(String, u64, Vec<u8>)>,
}

impl Dir {
    fn new() -> Self {
        Dir { files: Vec::new() }
    }

    fn write(&mut self, name: &str, modified: u64, content: &str) {
        self.files.retain(|f| f.0 != name);
        self.files.push((name.to_owned(), modified, content.as_bytes().to_vec()));
    }

    fn newest(&self) -> Option<String> {
        let entries: Vec<LogCandidate> = self
            .files
            .iter()
            .map(|f| LogCandidate {
                path: format!("/logs/{}", f.0),
                name: f.0.clone(),
                modified: f.1,
            })
            .collect();
        find_latest_log(&entries)
    }

    fn content(&self, path: &str) -> Vec<u8> {
        self.files
            .iter()
            .find(|f| format!("/logs/{}", f.0) == path)
            .map(|f| f.2.clone())
            .unwrap_or_default()
    }
}

/// Reads what is new in the followed file, as a caller does.
fn read_new_lines(state: &mut TailerState, dir: &Dir) -> Vec<String> {
    if state.active_file.is_none() {
        state.check_for_new_log(dir.newest());
    }
    let path = match &state.active_file {
        Some(p) => p.clone(),
        None => return Vec::new(),
    };
    let content = dir.content(&path);
    let len = content.len() as u64;
    let lines = match state.plan_read(len) {
        Some(start) => complete_lines(&content[start as usize..]),
        None => Vec::new(),
    };
    state.finish_read(len);
    lines.into_iter().map(|l| String::from_utf8(l).unwrap()).collect()
}

#[test]
fn reads_initial_lines() {
    let mut dir = Dir::new();
    dir.write("WoWCombatLog.txt", 1, "line one\nline two\n");
    let mut state = TailerState::new("/logs".to_owned(), dir.newest());
    let lines = read_new_lines(&mut state, &dir);
    assert_eq!(lines[0], "line one");
    assert_eq!(lines[1], "line two");
    assert_eq!(lines.len(), 2);
    assert!(read_new_lines(&mut state, &dir).is_empty());
}

#[test]
fn detects_rotation() {
    let mut dir = Dir::new();
    dir.write("WoWCombatLog.txt", 1, "original content\n");
    let mut state = TailerState::new("/logs".to_owned(), dir.newest());
    assert_eq!(read_new_lines(&mut state, &dir), vec!["original content"]);
    dir.write("WoWCombatLog.txt", 2, "new\n");
    assert_eq!(read_new_lines(&mut state, &dir), vec!["new"]);
    assert_eq!(state.position, 4);
}

#[test]
fn switches_to_newer_log_file() {
    let mut dir = Dir::new();
    dir.write("WoWCombatLog_2024_01_01_100000.txt", 1, "old line\n");
    let mut state = TailerState::new("/logs".to_owned(), dir.newest());
    assert_eq!(read_new_lines(&mut state, &dir), vec!["old line"]);

    dir.write("WoWCombatLog_2024_06_15_195432.txt", 2, "new line\n");
    state.check_for_new_log(dir.newest());
    assert_eq!(read_new_lines(&mut state, &dir), vec!["new line"]);
    assert_eq!(
        state.active_file.as_deref(),
        Some("/logs/WoWCombatLog_2024_06_15_195432.txt")
    );
    // the old file is never read again
    state.check_for_new_log(dir.newest());
    assert!(read_new_lines(&mut state, &dir).is_empty());
}

#[test]
fn handles_empty_logs_dir_gracefully() {
    let mut dir = Dir::new();
    dir.write("addon_errors.txt", 1, "x\n");
    let mut state = TailerState::new("/logs".to_owned(), dir.newest());
    assert!(read_new_lines(&mut state, &dir).is_empty());
    assert!(state.active_file.is_none());
    state.check_for_new_log(None);
    assert!(state.active_file.is_none());
}

#[test]
fn appended_lines_arrive_once() {
    let mut dir = Dir::new();
    dir.write("WoWCombatLog.txt", 1, "a\nb\n");
    let mut state = TailerState::new("/logs".to_owned(), dir.newest());
    assert_eq!(read_new_lines(&mut state, &dir), vec!["a", "b"]);
    dir.write("WoWCombatLog.txt", 2, "a\nb\nc\r\n\r\n\nd\n");
    assert_eq!(read_new_lines(&mut state, &dir), vec!["c", "d"]);
    assert_eq!(state.position, 12);
    assert_eq!(state.plan_read(12), None);
    assert_eq!(state.plan_read(20), Some(12));
    assert_eq!(state.plan_read(5), Some(0));
    assert_eq!(state.plan_read(0), None);
}

#[test]
fn only_complete_lines_are_delivered() {
    let text = |chunk: &str| -> Vec<String> {
        complete_lines(chunk.as_bytes())
            .into_iter()
            .map(|l| String::from_utf8(l).unwrap())
            .collect()
    };
    assert_eq!(text("one\ntwo\npart"), vec!["one", "two"]);
    assert!(text("no newline").is_empty());
    assert!(text("").is_empty());
    assert!(text("\n\r\n").is_empty());
    assert_eq!(text("a\r\r\nb\r"), vec!["a\r"]);
    assert_eq!(text("x\n"), vec!["x"]);
}

#[test]
fn find_latest_log_picks_newest() {
    let older = "WoWCombatLog_2024_01_01_100000.txt";
    let newer = "WoWCombatLog_2024_06_15_183000.txt";
    let plain = "WoWCombatLog.txt";
    let mut dir = Dir::new();
    dir.write(older, 1, "old");
    dir.write(plain, 2, "plain");
    dir.write(newer, 3, "new");
    assert_eq!(dir.newest(), Some(format!("/logs/{}", newer)));
    // of two logs modified at the same time the one listed first is taken
    let mut dir = Dir::new();
    dir.write(older, 5, "");
    dir.write(newer, 5, "");
    dir.write("notes.txt", 9, "");
    assert_eq!(dir.newest(), Some(format!("/logs/{}", older)));
}

#[test]
fn find_latest_log_returns_none_for_empty_dir() {
    assert!(find_latest_log(&Vec::new()).is_none());
}

#[test]
fn find_latest_log_ignores_non_combatlog_files() {
    let mut dir = Dir::new();
    dir.write("Interface.log", 1, "");
    dir.write("addon_errors.txt", 2, "");
    assert!(dir.newest().is_none());
}

#[test]
fn combat_log_names() {
    assert!(is_combat_log_name("WoWCombatLog.txt"));
    assert!(is_combat_log_name("WoWCombatLog_2024_06_15_183000.txt"));
    assert!(!is_combat_log_name("WoWCombatLog.txt.bak"));
    assert!(!is_combat_log_name("wowcombatlog.txt"));
    assert!(!is_combat_log_name("xWoWCombatLog.txt"));
    assert!(!is_combat_log_name(".txt"));
}

#[test]
fn defaults() {
    assert!(bool_true());
    assert_eq!(default_intensity(), 3);
    assert_eq!(HotkeyConfig::default().clone().toggle_overlay, "");
    let c = WtfCharacter {
        name: "N".to_owned(),
        realm: "R".to_owned(),
        account: "A".to_owned(),
    };
    let d = c.clone();
    assert_eq!((d.name, d.realm, d.account), ("N".to_owned(), "R".to_owned(), "A".to_owned()));
}

#[test]
fn realm_folders() {
    assert!(is_realm_folder("Stormrage"));
    assert!(is_realm_folder("Area 52"));
    assert!(!is_realm_folder("SavedVariables"));
    assert!(!is_realm_folder("macros-cache.txt"));
    assert!(!is_realm_folder("."));
    assert!(is_realm_folder("savedvariables"));
}

#[test]
fn queue_table() {
    let table = [
        (Queue::Lines, 2048, Overflow::Block),
        (Queue::Events, 1024, Overflow::Block),
        (Queue::Identity, 16, Overflow::Block),
        (Queue::Advice, 128, Overflow::Block),
        (Queue::Snapshots, 128, Overflow::Drop),
        (Queue::Debriefs, 16, Overflow::Drop),
        (Queue::Commands, 512, Overflow::Block),
    ];
    for (queue, capacity, overflow) in table {
        assert_eq!(queue.capacity(), capacity);
        assert_eq!(queue.overflow(), overflow);
    }
}

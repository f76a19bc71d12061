use slack_emoji::archive::Archive;
use slack_emoji::reserved::ReservedNameSet;
use slack_emoji::retry::Operation;
use slack_emoji::sync::{import_decision, ImportDecision};

#[test]
fn test_emoji_standard_shortcodes() {
    let standard = ReservedNameSet::standard();
    assert!(standard.contains("seal"));
    assert!(standard.contains("female_elf"));
    assert!(!standard.contains("bogogogogogo"));
}

#[test]
fn reserved_set_from_names() {
    let set = ReservedNameSet::new(vec!["seal".to_string(), "wave".to_string()]);
    assert!(set.contains("seal"));
    assert!(set.contains("wave"));
    assert!(!set.contains("sea"));
    assert!(!set.contains("seals"));
    assert!(!set.contains(""));
    let empty = ReservedNameSet::new(Vec::new());
    assert!(!empty.contains("seal"));
}

#[test]
fn reserved_entries_are_skipped_and_others_uploaded() {
    let archive = Archive::new("backup".to_string());
    let standard = ReservedNameSet::standard();
    for file in ["seal.png", "female_elf.gif"] {
        let entry = archive.entry_for(file).unwrap();
        match import_decision(&standard, &entry) {
            ImportDecision::Conflict { name } => assert_eq!(name, entry.name),
            ImportDecision::Upload(_) => panic!("reserved name {} was uploaded", entry.name),
        }
    }
    let entry = archive.entry_for("my_custom_logo.png").unwrap();
    match import_decision(&standard, &entry) {
        ImportDecision::Upload(Operation::Upload { name, filename }) => {
            assert_eq!(name, "my_custom_logo");
            assert_eq!(filename, "my_custom_logo.png");
        }
        other => panic!("unexpected decision {:?}", other),
    }
}

#[test]
fn import_of_seal_and_team_mascot() {
    let archive = Archive::new("backup".to_string());
    let reserved = ReservedNameSet::new(vec!["seal".to_string()]);
    let mut conflicts = Vec::new();
    let mut uploads = Vec::new();
    for file in ["seal.png", "team_mascot.png"] {
        let entry = archive.entry_for(file).unwrap();
        match import_decision(&reserved, &entry) {
            ImportDecision::Conflict { name } => conflicts.push(name),
            ImportDecision::Upload(Operation::Upload { name, .. }) => uploads.push(name),
            ImportDecision::Upload(other) => panic!("unexpected operation {:?}", other),
        }
    }
    assert_eq!(conflicts, vec!["seal".to_string()]);
    assert_eq!(uploads, vec!["team_mascot".to_string()]);
}

#[test]
fn standard_set_covers_symbols_clocks_and_seasonal_codes() {
    let standard = ReservedNameSet::standard();
    for name in ["christmas_tree", "jack_o_lantern", "red_circle", "arrow_up", "white_circle", "clock1", "1234", "abc", "+1"] {
        assert!(standard.contains(name), "{} missing", name);
    }
    for name in ["team_mascot", "my_custom_logo", "seal ", "", "se al"] {
        assert!(!standard.contains(name), "{:?} reserved", name);
    }
}

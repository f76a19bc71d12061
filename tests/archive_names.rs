use slack_emoji::archive::{extension_of_url, parse_file_name, Archive, ExportSkip, ScanError};
use slack_emoji::record::EmojiRecord;
use slack_emoji::sync::{check_import_directory, ConfigurationError};

#[test]
fn file_name_takes_extension_from_url_path() {
    let r = EmojiRecord::from_listing_entry(
        "party_parrot".to_string(),
        "https://emoji.slack-edge.com/T1/party_parrot/0a1b2c.gif?v=2#top",
    );
    assert_eq!(Archive::filename_for(&r).unwrap(), "party_parrot.gif");
    assert_eq!(extension_of_url("https://e.example.com/a.b/c.PNG"), Some("PNG"));
    assert_eq!(extension_of_url("https://e.example.com/a.b/c"), None);
    assert_eq!(extension_of_url("https://e.example.com/x/c.tar-gz"), None);
    assert_eq!(extension_of_url("https://e.example.com/x/c."), None);
    let plain = EmojiRecord::from_listing_entry("plain".to_string(), "https://e.example.com/plain");
    assert_eq!(Archive::filename_for(&plain).unwrap(), "plain");
}

#[test]
fn writing_a_record_twice_targets_one_file() {
    let archive = Archive::new("out".to_string());
    let r = EmojiRecord::from_listing_entry("shipit".to_string(), "https://e.example.com/s/shipit.png");
    let first = archive.download_task(&r).unwrap();
    let second = archive.download_task(&r).unwrap();
    assert_eq!(first.filepath, "out/shipit.png");
    assert_eq!(first.filepath, second.filepath);
    assert_eq!(first.url, "https://e.example.com/s/shipit.png");
}

#[test]
fn exported_name_is_recovered_by_scan() {
    let archive = Archive::new("out".to_string());
    for (name, url) in [
        ("shipit", "https://e.example.com/s/shipit.png"),
        ("thumbs-up_2", "https://e.example.com/s/t.jpeg?x=1"),
        ("noext", "https://e.example.com/s/noext"),
    ] {
        let r = EmojiRecord::from_listing_entry(name.to_string(), url);
        let task = archive.download_task(&r).unwrap();
        let entry = archive.entry_for(&task.filename).unwrap();
        assert_eq!(entry.name, name);
        assert_eq!(entry.filepath, task.filepath);
    }
}

#[test]
fn records_that_cannot_be_archived_are_skipped() {
    let archive = Archive::new("out".to_string());
    let bad = EmojiRecord::from_listing_entry("../etc".to_string(), "https://e.example.com/x.png");
    match archive.download_task(&bad) {
        Err(ExportSkip::InvalidName { name }) => assert_eq!(name, "../etc"),
        other => panic!("unexpected {:?}", other),
    }
    let alias = EmojiRecord::from_listing_entry("yay".to_string(), "alias:tada");
    match archive.download_task(&alias) {
        Err(ExportSkip::Alias { name, target }) => {
            assert_eq!(name, "yay");
            assert_eq!(target, "tada");
        }
        other => panic!("unexpected {:?}", other),
    }
}

#[test]
fn scan_rejects_files_outside_the_scheme() {
    let archive = Archive::new("out".to_string());
    for file in [".DS_Store", "a.b.png", "x.", "x.p-g", ""] {
        match archive.entry_for(file) {
            Err(ScanError::UnrecognisedFile { filename }) => assert_eq!(filename, file),
            Ok(e) => panic!("{} read as {:?}", file, e),
        }
    }
    assert_eq!(parse_file_name("seal.png"), Some("seal"));
    assert_eq!(parse_file_name("seal"), Some("seal"));
}

#[test]
fn import_needs_its_directory() {
    assert!(check_import_directory("in", Ok(true)).is_ok());
    match check_import_directory("in", Ok(false)) {
        Err(ConfigurationError::DirectoryMissing { directory }) => assert_eq!(directory, "in"),
        other => panic!("unexpected {:?}", other),
    }
    match check_import_directory("in", Err("permission denied".to_string())) {
        Err(ConfigurationError::DirectoryUnreadable { directory, message }) => {
            assert_eq!(directory, "in");
            assert_eq!(message, "permission denied");
        }
        other => panic!("unexpected {:?}", other),
    }
}

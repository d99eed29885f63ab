use shepherd::watcher::{
    render, ConfigError, FileChange, FileChangeNotification, NativeName, WatchDog,
};

fn text_note(action: FileChange, name: &str) -> FileChangeNotification {
    FileChangeNotification { action, file: NativeName::Bytes(name.as_bytes().to_vec()) }
}

#[test]
fn notification_renders_as_action_and_file_name() {
    assert_eq!(
        text_note(FileChange::Created, "a.txt").to_string(),
        "Action: Created, File Name: a.txt"
    );
}

#[test]
fn every_kind_has_its_word() {
    assert_eq!(FileChange::Created.label(), "Created");
    assert_eq!(FileChange::Modified.label(), "modified");
    assert_eq!(FileChange::Deleted.label(), "deleted");
    assert_eq!(FileChange::RenamedFrom.label(), "renamed old name");
    assert_eq!(FileChange::RenamedTo.label(), "renamed new name");
    assert_eq!(FileChange::Unknown.label(), "unknown");
}

#[test]
fn every_kind_renders_with_its_word() {
    assert_eq!(
        text_note(FileChange::Modified, "dir/b").to_string(),
        "Action: modified, File Name: dir/b"
    );
    assert_eq!(text_note(FileChange::Deleted, "c").to_string(), "Action: deleted, File Name: c");
    assert_eq!(
        text_note(FileChange::RenamedFrom, "old").to_string(),
        "Action: renamed old name, File Name: old"
    );
    assert_eq!(
        text_note(FileChange::RenamedTo, "new").to_string(),
        "Action: renamed new name, File Name: new"
    );
    assert_eq!(text_note(FileChange::Unknown, "").to_string(), "Action: unknown, File Name: ");
}

#[test]
fn render_takes_a_name_that_is_already_text() {
    assert_eq!(render(FileChange::Created, "a.txt"), "Action: Created, File Name: a.txt");
    assert_eq!(render(FileChange::Deleted, ""), "Action: deleted, File Name: ");
}

#[test]
fn wide_name_renders_as_text() {
    let note = FileChangeNotification {
        action: FileChange::Created,
        file: NativeName::Wide("h\u{e9}llo \u{1F600}.txt".encode_utf16().collect()),
    };
    assert_eq!(note.to_string(), "Action: Created, File Name: h\u{e9}llo \u{1F600}.txt");
}

#[test]
fn bytes_that_are_not_utf8_render_as_replacement_characters() {
    let name = NativeName::Bytes(vec![b'a', 0xFF, b'b']);
    assert_eq!(name.to_text(), "a\u{FFFD}b");
    let note = FileChangeNotification { action: FileChange::Modified, file: name };
    assert_eq!(note.to_string(), "Action: modified, File Name: a\u{FFFD}b");
}

#[test]
fn units_that_are_not_utf16_render_as_replacement_characters() {
    let name = NativeName::Wide(vec![0x0061, 0xD800, 0x0062]);
    assert_eq!(name.to_text(), "a\u{FFFD}b");
}

#[test]
fn utf8_name_is_decoded_not_copied_byte_by_byte() {
    let name = NativeName::Bytes("\u{e9}".as_bytes().to_vec());
    assert_eq!(name.to_text(), "\u{e9}");
    assert_eq!(name.to_text().chars().count(), 1);
}

#[test]
fn names_are_the_same_by_width_and_units() {
    let a = NativeName::Bytes(b"a.txt".to_vec());
    assert!(a.same_as(&NativeName::Bytes(b"a.txt".to_vec())));
    assert!(!a.same_as(&NativeName::Bytes(b"a.txT".to_vec())));
    assert!(!a.same_as(&NativeName::Bytes(b"a.tx".to_vec())));
    assert!(!a.same_as(&NativeName::Bytes(b"a.txt\0".to_vec())));
    assert!(!a.same_as(&NativeName::Wide("a.txt".encode_utf16().collect())));
    let w = NativeName::Wide(vec![1, 2, 3]);
    assert!(w.same_as(&NativeName::Wide(vec![1, 2, 3])));
    assert!(!w.same_as(&NativeName::Wide(vec![1, 2, 4])));
    assert!(!w.same_as(&NativeName::Wide(vec![1, 2])));
    assert!(NativeName::Bytes(vec![]).same_as(&NativeName::Bytes(vec![])));
    assert!(!NativeName::Bytes(vec![]).same_as(&NativeName::Wide(vec![])));
}

#[test]
fn root_that_can_be_watched_is_accepted() {
    let config = WatchDog { dir: ".".to_string(), watch_sub_dir: false };
    assert_eq!(config.validate(), Ok(()));
    let config = WatchDog { dir: "/tmp/\u{e9}t\u{e9} \u{1F600}".to_string(), watch_sub_dir: true };
    assert_eq!(config.validate(), Ok(()));
}

#[test]
fn empty_root_is_refused() {
    let config = WatchDog { dir: String::new(), watch_sub_dir: false };
    assert_eq!(config.validate(), Err(ConfigError::EmptyRoot));
}

#[test]
fn root_with_a_nul_is_refused() {
    let config = WatchDog { dir: "a\0b".to_string(), watch_sub_dir: false };
    assert_eq!(config.validate(), Err(ConfigError::NulInRoot));
    let config = WatchDog { dir: "\0".to_string(), watch_sub_dir: false };
    assert_eq!(config.validate(), Err(ConfigError::NulInRoot));
    let config = WatchDog { dir: "/tmp/x\0".to_string(), watch_sub_dir: false };
    assert_eq!(config.validate(), Err(ConfigError::NulInRoot));
}

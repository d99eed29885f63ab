use shepherd::cursor::RecordCursor;
use shepherd::watcher::{DecodeEnd, Decoded, FileChange, FileChangeNotification, NativeName};
use shepherd::windows::{
    classify, from_buffer, process_buffer, read_entry, BUFFER_SIZE, FILE_ACTION_ADDED,
    FILE_ACTION_MODIFIED, FILE_ACTION_REMOVED, FILE_ACTION_RENAMED_NEW_NAME,
    FILE_ACTION_RENAMED_OLD_NAME, FILE_NOTIFY_CHANGE_CREATION, FILE_NOTIFY_CHANGE_FILE_NAME,
    FILE_NOTIFY_CHANGE_LAST_WRITE, FILE_NOTIFY_INFORMATION, HEADER_LEN,
};

fn wide(name: &str) -> Vec<u16> {
    name.encode_utf16().collect()
}

/// An entry followed by `gap` unused bytes; `last` entries hold the offset zero.
fn directory_entry(action: u32, name: &[u16], gap: usize, last: bool) -> Vec<u8> {
    let size = 12 + 2 * name.len() + gap;
    let next: u32 = if last { 0 } else { size as u32 };
    let mut out = Vec::new();
    out.extend_from_slice(&next.to_le_bytes());
    out.extend_from_slice(&action.to_le_bytes());
    out.extend_from_slice(&((2 * name.len()) as u32).to_le_bytes());
    for unit in name {
        out.extend_from_slice(&unit.to_le_bytes());
    }
    out.extend(std::iter::repeat(0u8).take(gap));
    out
}

fn directory_note(action: FileChange, name: &str) -> FileChangeNotification {
    FileChangeNotification { action, file: NativeName::Wide(wide(name)) }
}

fn decode_filled(buffer: &[u8]) -> Decoded {
    from_buffer(buffer, buffer.len() as u32)
}

#[test]
fn directory_constants_have_the_system_values() {
    assert_eq!(HEADER_LEN, 12);
    assert_eq!(BUFFER_SIZE, 4096);
    assert_eq!(FILE_ACTION_ADDED, 1);
    assert_eq!(FILE_ACTION_REMOVED, 2);
    assert_eq!(FILE_ACTION_MODIFIED, 3);
    assert_eq!(FILE_ACTION_RENAMED_OLD_NAME, 4);
    assert_eq!(FILE_ACTION_RENAMED_NEW_NAME, 5);
    assert_eq!(FILE_NOTIFY_CHANGE_FILE_NAME, 0x1);
    assert_eq!(FILE_NOTIFY_CHANGE_LAST_WRITE, 0x10);
    assert_eq!(FILE_NOTIFY_CHANGE_CREATION, 0x40);
}

#[test]
fn directory_empty_buffer_decodes_to_nothing() {
    let decoded = from_buffer(&[], 0);
    assert_eq!(decoded.notifications, vec![]);
    assert_eq!(decoded.end, DecodeEnd::Complete);
    assert!(!decoded.overflowed);
    let stale = directory_entry(FILE_ACTION_ADDED, &wide("a.txt"), 0, true);
    let decoded = from_buffer(&stale, 0);
    assert_eq!(decoded.notifications, vec![]);
    assert_eq!(decoded.end, DecodeEnd::Complete);
}

#[test]
fn directory_one_entry_with_the_last_mark_gives_one_notification() {
    let buffer = directory_entry(FILE_ACTION_ADDED, &wide("a.txt"), 0, true);
    let decoded = decode_filled(&buffer);
    assert_eq!(decoded.notifications, vec![directory_note(FileChange::Created, "a.txt")]);
    assert_eq!(decoded.end, DecodeEnd::Complete);
    assert!(!decoded.overflowed);
}

#[test]
fn directory_action_table() {
    assert_eq!(classify(FILE_ACTION_ADDED), FileChange::Created);
    assert_eq!(classify(FILE_ACTION_MODIFIED), FileChange::Modified);
    assert_eq!(classify(FILE_ACTION_REMOVED), FileChange::Deleted);
    assert_eq!(classify(FILE_ACTION_RENAMED_OLD_NAME), FileChange::RenamedFrom);
    assert_eq!(classify(FILE_ACTION_RENAMED_NEW_NAME), FileChange::RenamedTo);
}

#[test]
fn directory_actions_outside_the_table_are_unknown() {
    assert_eq!(classify(0), FileChange::Unknown);
    assert_eq!(classify(6), FileChange::Unknown);
    assert_eq!(classify(0x100), FileChange::Unknown);
    assert_eq!(classify(u32::MAX), FileChange::Unknown);
}

#[test]
fn directory_each_action_decodes_by_the_table() {
    let cases: Vec<(u32, FileChange)> = vec![
        (1, FileChange::Created),
        (2, FileChange::Deleted),
        (3, FileChange::Modified),
        (4, FileChange::RenamedFrom),
        (5, FileChange::RenamedTo),
        (9, FileChange::Unknown),
    ];
    for (code, action) in cases {
        let decoded = decode_filled(&directory_entry(code, &wide("f"), 0, true));
        assert_eq!(decoded.notifications, vec![directory_note(action, "f")]);
    }
}

#[test]
fn directory_entries_are_found_by_their_offsets() {
    let mut buffer = directory_entry(FILE_ACTION_ADDED, &wide("a.txt"), 2, false);
    buffer.extend(directory_entry(FILE_ACTION_MODIFIED, &wide("a.txt"), 6, false));
    buffer.extend(directory_entry(FILE_ACTION_REMOVED, &wide("a.txt"), 0, true));
    let decoded = decode_filled(&buffer);
    assert_eq!(
        decoded.notifications,
        vec![
            directory_note(FileChange::Created, "a.txt"),
            directory_note(FileChange::Modified, "a.txt"),
            directory_note(FileChange::Deleted, "a.txt"),
        ]
    );
    assert_eq!(decoded.end, DecodeEnd::Complete);
}

#[test]
fn directory_nothing_behind_the_last_mark_is_read() {
    let mut buffer = directory_entry(FILE_ACTION_ADDED, &wide("a.txt"), 0, true);
    buffer.extend(directory_entry(FILE_ACTION_REMOVED, &wide("stale"), 0, true));
    let decoded = decode_filled(&buffer);
    assert_eq!(decoded.notifications, vec![directory_note(FileChange::Created, "a.txt")]);
    assert_eq!(decoded.end, DecodeEnd::Complete);
}

#[test]
fn directory_rename_gives_two_halves_side_by_side() {
    let mut buffer = directory_entry(FILE_ACTION_RENAMED_OLD_NAME, &wide("a.txt"), 2, false);
    buffer.extend(directory_entry(FILE_ACTION_RENAMED_NEW_NAME, &wide("b.txt"), 0, true));
    let decoded = decode_filled(&buffer);
    assert_eq!(
        decoded.notifications,
        vec![
            directory_note(FileChange::RenamedFrom, "a.txt"),
            directory_note(FileChange::RenamedTo, "b.txt"),
        ]
    );
}

#[test]
fn directory_names_are_16_bit_units() {
    let name: Vec<u16> = vec![0x00E9, 0x4E2D, 0xD83D, 0xDE00, 0xD800];
    let buffer = directory_entry(FILE_ACTION_ADDED, &name, 0, true);
    let decoded = decode_filled(&buffer);
    assert_eq!(
        decoded.notifications,
        vec![FileChangeNotification { action: FileChange::Created, file: NativeName::Wide(name) }]
    );
}

#[test]
fn directory_odd_name_length_leaves_the_last_byte_out() {
    let mut buffer = directory_entry(FILE_ACTION_ADDED, &wide("ab"), 0, true);
    buffer[8..12].copy_from_slice(&3u32.to_le_bytes());
    let decoded = decode_filled(&buffer);
    assert_eq!(decoded.notifications, vec![directory_note(FileChange::Created, "a")]);
    assert_eq!(decoded.end, DecodeEnd::Complete);
}

#[test]
fn directory_overlong_name_is_dropped() {
    let mut buffer = directory_entry(FILE_ACTION_ADDED, &wide("a.txt"), 0, false);
    let mut cut = directory_entry(FILE_ACTION_REMOVED, &wide("b.txt"), 0, true);
    cut[8..12].copy_from_slice(&400u32.to_le_bytes());
    buffer.extend(cut);
    let decoded = decode_filled(&buffer);
    assert_eq!(decoded.notifications, vec![directory_note(FileChange::Created, "a.txt")]);
    assert_eq!(decoded.end, DecodeEnd::Truncated);
}

#[test]
fn directory_name_one_byte_short_is_dropped() {
    let buffer = directory_entry(FILE_ACTION_ADDED, &wide("a.txt"), 0, true);
    let decoded = from_buffer(&buffer, buffer.len() as u32 - 1);
    assert_eq!(decoded.notifications, vec![]);
    assert_eq!(decoded.end, DecodeEnd::Truncated);
}

#[test]
fn directory_cut_header_is_dropped() {
    let mut buffer = directory_entry(FILE_ACTION_ADDED, &wide("a.txt"), 0, false);
    buffer.extend_from_slice(&[0, 0, 0, 0, 1, 0, 0]);
    let decoded = decode_filled(&buffer);
    assert_eq!(decoded.notifications, vec![directory_note(FileChange::Created, "a.txt")]);
    assert_eq!(decoded.end, DecodeEnd::Truncated);
    for filled in 1..12 {
        let header = directory_entry(FILE_ACTION_ADDED, &[], 0, true);
        let decoded = from_buffer(&header, filled);
        assert_eq!(decoded.notifications, vec![]);
        assert_eq!(decoded.end, DecodeEnd::Truncated);
    }
}

#[test]
fn directory_offset_that_leads_outside_ends_the_decoding() {
    let mut buffer = directory_entry(FILE_ACTION_ADDED, &wide("a.txt"), 0, true);
    buffer[0..4].copy_from_slice(&1000u32.to_le_bytes());
    let decoded = decode_filled(&buffer);
    assert_eq!(decoded.notifications, vec![directory_note(FileChange::Created, "a.txt")]);
    assert_eq!(decoded.end, DecodeEnd::Truncated);
    buffer[0..4].copy_from_slice(&u32::MAX.to_le_bytes());
    let decoded = decode_filled(&buffer);
    assert_eq!(decoded.notifications, vec![directory_note(FileChange::Created, "a.txt")]);
    assert_eq!(decoded.end, DecodeEnd::Truncated);
}

#[test]
fn directory_offset_that_leads_to_the_end_completes_the_decoding() {
    let buffer = directory_entry(FILE_ACTION_ADDED, &wide("a.txt"), 2, false);
    let decoded = decode_filled(&buffer);
    assert_eq!(decoded.notifications, vec![directory_note(FileChange::Created, "a.txt")]);
    assert_eq!(decoded.end, DecodeEnd::Complete);
}

#[test]
fn directory_only_the_filled_bytes_are_read() {
    let mut buffer = directory_entry(FILE_ACTION_ADDED, &wide("a.txt"), 2, false);
    let filled = buffer.len();
    buffer.extend(directory_entry(FILE_ACTION_REMOVED, &wide("stale"), 0, true));
    let decoded = from_buffer(&buffer, filled as u32);
    assert_eq!(decoded.notifications, vec![directory_note(FileChange::Created, "a.txt")]);
    assert_eq!(decoded.end, DecodeEnd::Complete);
}

#[test]
fn directory_length_beyond_the_buffer_counts_as_the_buffer() {
    let buffer = directory_entry(FILE_ACTION_ADDED, &wide("a.txt"), 0, true);
    let decoded = from_buffer(&buffer, u32::MAX);
    assert_eq!(decoded.notifications, vec![directory_note(FileChange::Created, "a.txt")]);
    assert_eq!(decoded.end, DecodeEnd::Complete);
}

#[test]
fn directory_call_that_brought_no_bytes_flags_a_loss() {
    let stale = directory_entry(FILE_ACTION_ADDED, &wide("a.txt"), 0, true);
    let decoded = process_buffer(&stale, 0);
    assert_eq!(decoded.notifications, vec![]);
    assert_eq!(decoded.end, DecodeEnd::Complete);
    assert!(decoded.overflowed);
}

#[test]
fn directory_call_that_brought_bytes_is_decoded() {
    let buffer = directory_entry(FILE_ACTION_MODIFIED, &wide("a.txt"), 0, true);
    let decoded = process_buffer(&buffer, buffer.len() as u32);
    assert_eq!(decoded.notifications, vec![directory_note(FileChange::Modified, "a.txt")]);
    assert_eq!(decoded.end, DecodeEnd::Complete);
    assert!(!decoded.overflowed);
}

#[test]
fn directory_entry_fields_are_read_least_significant_byte_first() {
    let buffer: Vec<u8> = vec![
        0x10, 0x00, 0x00, 0x00, // next_entry_offset
        0x03, 0x00, 0x00, 0x00, // action
        0x04, 0x00, 0x00, 0x00, // file_name_length
        0x34, 0x12, 0x78, 0x56, // two units
    ];
    let cursor = RecordCursor::new(&buffer, buffer.len());
    assert_eq!(
        read_entry(&cursor),
        Some(FILE_NOTIFY_INFORMATION {
            next_entry_offset: 16,
            action: FILE_ACTION_MODIFIED,
            file_name_length: 4,
            file_name: vec![0x1234, 0x5678],
        })
    );
    let cursor = RecordCursor::new(&buffer, buffer.len() - 1);
    assert_eq!(read_entry(&cursor), None);
}

#[test]
fn directory_count_and_order_match_a_walk_by_hand() {
    let mut buffer = Vec::new();
    let mut by_hand = Vec::new();
    for i in 0..20u32 {
        let name = "n".repeat(i as usize);
        let code = i % 7;
        buffer.extend(directory_entry(code, &wide(&name), (i as usize) % 4, i == 19));
        by_hand.push(directory_note(classify(code), &name));
    }
    let decoded = decode_filled(&buffer);
    assert_eq!(decoded.notifications.len(), 20);
    assert_eq!(decoded.notifications, by_hand);
    assert_eq!(decoded.end, DecodeEnd::Complete);
}

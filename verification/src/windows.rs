//! The directory-change backend's share of the work: the layout of its
//! entries, the meaning of its action codes, and the decoding of a buffer
//! that `ReadDirectoryChangesW` filled.
//!
//! An entry is a 12-byte header (`next_entry_offset`, `action`,
//! `file_name_length`, each of four bytes, least significant byte first) and
//! `file_name_length` bytes of name behind it, two bytes to a 16-bit unit.
//! The next entry starts `next_entry_offset` bytes behind the start of this
//! one; an offset of zero marks the last entry.

use crate::cursor::{shorter, u32_at, wide_at, RecordCursor};
use crate::watcher::{
    views, DecodeEnd, Decoded, DecodedView, FileChange, FileChangeNotification, NameView,
    NativeName, NotificationView,
};
use vstd::prelude::*;

verus! {

/// The size of the buffer handed to `ReadDirectoryChangesW`.
pub const BUFFER_SIZE: u32 = 4096;

pub const FILE_NOTIFY_CHANGE_FILE_NAME: u32 = 0x0000_0001;

pub const FILE_NOTIFY_CHANGE_LAST_WRITE: u32 = 0x0000_0010;

pub const FILE_NOTIFY_CHANGE_CREATION: u32 = 0x0000_0040;

pub const FILE_ACTION_ADDED: u32 = 1;

pub const FILE_ACTION_REMOVED: u32 = 2;

pub const FILE_ACTION_MODIFIED: u32 = 3;

pub const FILE_ACTION_RENAMED_OLD_NAME: u32 = 4;

pub const FILE_ACTION_RENAMED_NEW_NAME: u32 = 5;

/// The size of an entry's header.
pub const HEADER_LEN: usize = 12;

/// One directory-change entry.
#[allow(non_camel_case_types)]
#[derive(Clone, Debug, PartialEq, Eq)]
pub struct FILE_NOTIFY_INFORMATION {
    /// Bytes from the start of this entry to the start of the next; zero in
    /// the last entry.
    pub next_entry_offset: u32,
    /// What happened.
    pub action: u32,
    /// The size of the name in bytes.
    pub file_name_length: u32,
    /// The `file_name_length / 2` units of the name.
    pub file_name: Vec<u16>,
}

/// A [`FILE_NOTIFY_INFORMATION`] with its name as a sequence.
pub struct EntryView {
    pub next_entry_offset: u32,
    pub action: u32,
    pub file_name_length: u32,
    pub file_name: Seq<u16>,
}

impl View for FILE_NOTIFY_INFORMATION {
    type V = EntryView;

    open spec fn view(&self) -> EntryView {
        EntryView {
            next_entry_offset: self.next_entry_offset,
            action: self.action,
            file_name_length: self.file_name_length,
            file_name: self.file_name@,
        }
    }
}

/// The table of action codes.
pub open spec fn change_of(action: u32) -> FileChange {
    if action == FILE_ACTION_ADDED {
        FileChange::Created
    } else if action == FILE_ACTION_MODIFIED {
        FileChange::Modified
    } else if action == FILE_ACTION_REMOVED {
        FileChange::Deleted
    } else if action == FILE_ACTION_RENAMED_NEW_NAME {
        FileChange::RenamedTo
    } else if action == FILE_ACTION_RENAMED_OLD_NAME {
        FileChange::RenamedFrom
    } else {
        FileChange::Unknown
    }
}

/// Looks an action code up in the table.
pub fn classify(action: u32) -> (change: FileChange)
    ensures
        change == change_of(action),
{
    match action {
        FILE_ACTION_ADDED => FileChange::Created,
        FILE_ACTION_MODIFIED => FileChange::Modified,
        FILE_ACTION_REMOVED => FileChange::Deleted,
        FILE_ACTION_RENAMED_NEW_NAME => FileChange::RenamedTo,
        FILE_ACTION_RENAMED_OLD_NAME => FileChange::RenamedFrom,
        _ => FileChange::Unknown,
    }
}

/// The entry that starts at `at`, where all of it, header and name, lies
/// inside `bytes`.
pub open spec fn entry_at(bytes: Seq<u8>, at: int) -> Option<EntryView> {
    if 0 <= at && at + HEADER_LEN <= bytes.len() && at + HEADER_LEN + u32_at(bytes, at + 8)
        <= bytes.len() {
        let file_name_length = u32_at(bytes, at + 8);
        Some(
            EntryView {
                next_entry_offset: u32_at(bytes, at),
                action: u32_at(bytes, at + 4),
                file_name_length,
                file_name: wide_at(bytes, at + HEADER_LEN, (file_name_length / 2) as nat),
            },
        )
    } else {
        None
    }
}

/// The notification that an entry gives rise to.
pub open spec fn notification_of(entry: EntryView) -> NotificationView {
    NotificationView { action: change_of(entry.action), file: NameView::Wide(entry.file_name) }
}

/// What the entries from `at` on decode to.
///
/// Entries are taken one after the other, each found by the offset that
/// the one before it holds. Decoding ends at an entry whose offset is zero
/// or leads exactly to the end of the bytes (`Complete`), or where the
/// bytes at the cursor are not a whole entry (`Truncated`).
pub open spec fn decode_from(bytes: Seq<u8>, at: int) -> DecodedView
    decreases bytes.len() - at,
{
    match entry_at(bytes, at) {
        None => DecodedView {
            notifications: Seq::empty(),
            end: if at == bytes.len() {
                DecodeEnd::Complete
            } else {
                DecodeEnd::Truncated
            },
            overflowed: false,
        },
        Some(entry) => {
            if entry.next_entry_offset == 0 {
                DecodedView {
                    notifications: seq![notification_of(entry)],
                    end: DecodeEnd::Complete,
                    overflowed: false,
                }
            } else if at + entry.next_entry_offset > bytes.len() {
                DecodedView {
                    notifications: seq![notification_of(entry)],
                    end: DecodeEnd::Truncated,
                    overflowed: false,
                }
            } else {
                let rest = decode_from(bytes, at + entry.next_entry_offset);
                DecodedView {
                    notifications: seq![notification_of(entry)] + rest.notifications,
                    end: rest.end,
                    overflowed: false,
                }
            }
        },
    }
}

/// What a buffer of filled bytes decodes to.
pub open spec fn decode(bytes: Seq<u8>) -> DecodedView {
    decode_from(bytes, 0)
}

/// Reads the entry at the cursor, or `None` where its header or its name
/// is not wholly inside the filled bytes.
pub fn read_entry(cursor: &RecordCursor) -> (entry: Option<FILE_NOTIFY_INFORMATION>)
    ensures
        match entry {
            Some(e) => entry_at(cursor.bytes(), cursor.position()) == Some(e@),
            None => entry_at(cursor.bytes(), cursor.position()) is None,
        },
{
    let left: usize = cursor.remaining();
    let next_entry_offset = cursor.read_u32(0);
    let action = cursor.read_u32(4);
    let file_name_length = cursor.read_u32(8);
    match (next_entry_offset, action, file_name_length) {
        (Some(next_entry_offset), Some(action), Some(file_name_length)) => {
            if file_name_length as usize > left - HEADER_LEN {
                return None;
            }
            match cursor.read_wide(HEADER_LEN, (file_name_length / 2) as usize) {
                Some(file_name) => Some(
                    FILE_NOTIFY_INFORMATION {
                        next_entry_offset,
                        action,
                        file_name_length,
                        file_name,
                    },
                ),
                None => None,
            }
        },
        _ => None,
    }
}

/// Decodes the entries in `buffer`, of which the first `bytes_returned`
/// bytes are filled.
///
/// Each whole entry gives one notification, in the order of the entries.
/// Nothing outside the filled bytes is read: an entry that does not fit, or
/// an offset that leads outside, ends the decoding.
pub fn from_buffer(buffer: &[u8], bytes_returned: u32) -> (decoded: Decoded)
    ensures
        decoded@ == decode(buffer@.take(shorter(bytes_returned as int, buffer@.len() as int))),
{
    let capacity: usize = buffer.len();
    let mut cursor = RecordCursor::new(buffer, bytes_returned as usize);
    let ghost bytes = cursor.bytes();
    assert(bytes.len() <= capacity);
    let mut notifications: Vec<FileChangeNotification> = Vec::new();
    let mut end = DecodeEnd::Complete;
    let mut done = false;
    while !done
        invariant
            cursor.bytes() == bytes,
            0 <= cursor.position() <= bytes.len() <= usize::MAX,
            done ==> decode(bytes) == (DecodedView {
                notifications: views(notifications@),
                end,
                overflowed: false,
            }),
            !done ==> decode(bytes) == (DecodedView {
                notifications: views(notifications@) + decode_from(
                    bytes,
                    cursor.position(),
                ).notifications,
                end: decode_from(bytes, cursor.position()).end,
                overflowed: false,
            }),
        decreases bytes.len() - cursor.position() + (if done { 0int } else { 1int }),
    {
        let ghost at = cursor.position();
        let ghost before = notifications@;
        match read_entry(&cursor) {
            None => {
                end = if cursor.remaining() == 0 {
                    DecodeEnd::Complete
                } else {
                    DecodeEnd::Truncated
                };
                done = true;
                assert(views(before) + Seq::<NotificationView>::empty() =~= views(before));
            },
            Some(entry) => {
                let ghost note = notification_of(entry@);
                let stride: usize = entry.next_entry_offset as usize;
                notifications.push(
                    FileChangeNotification {
                        action: classify(entry.action),
                        file: NativeName::Wide(entry.file_name),
                    },
                );
                assert(views(notifications@) =~= views(before) + seq![note]);
                if stride == 0 {
                    end = DecodeEnd::Complete;
                    done = true;
                } else if !cursor.advance(stride) {
                    end = DecodeEnd::Truncated;
                    done = true;
                } else {
                    assert(views(before) + (seq![note] + decode_from(
                        bytes,
                        at + stride,
                    ).notifications) =~= views(notifications@) + decode_from(
                        bytes,
                        at + stride,
                    ).notifications);
                }
            },
        }
    }
    Decoded { notifications, end, overflowed: false }
}

/// What a successful call of `ReadDirectoryChangesW` brought.
///
/// A call that succeeds with no bytes says that more changed than the
/// buffer could hold: nothing is decoded, and the loss is flagged. Any
/// other buffer is decoded.
pub open spec fn processed(bytes: Seq<u8>, bytes_returned: u32) -> DecodedView {
    if bytes_returned == 0 {
        DecodedView { notifications: Seq::empty(), end: DecodeEnd::Complete, overflowed: true }
    } else {
        decode(bytes.take(shorter(bytes_returned as int, bytes.len() as int)))
    }
}

/// Turns the buffer of a successful call of `ReadDirectoryChangesW` into
/// the notifications to queue.
pub fn process_buffer(buffer: &[u8], bytes_returned: u32) -> (decoded: Decoded)
    ensures
        decoded@ == processed(buffer@, bytes_returned),
{
    if bytes_returned == 0 {
        let decoded = Decoded {
            notifications: Vec::new(),
            end: DecodeEnd::Complete,
            overflowed: true,
        };
        assert(views(decoded.notifications@) =~= Seq::<NotificationView>::empty());
        return decoded;
    }
    from_buffer(buffer, bytes_returned)
}

} // verus!

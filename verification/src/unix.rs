//! The inotify backend's share of the work: the layout of its event
//! records, the meaning of its event masks, and the decoding of a buffer
//! that `read` filled.
//!
//! A record is a 16-byte header (`wd`, `mask`, `cookie`, `len`, each of four
//! bytes, least significant byte first) and `len` bytes of name behind it.
//! The next record starts right behind the name. The kernel fills the name
//! field up with NUL bytes, so that the next header is aligned; the file
//! name is what stands in front of the first NUL, and the whole field where
//! there is none.

use crate::cursor::{shorter, u32_at, RecordCursor};
use crate::watcher::{
    views, DecodeEnd, Decoded, DecodedView, FileChange, FileChangeNotification, NameView, NativeName,
    NotificationView, RootEvent,
};
use vstd::prelude::*;

verus! {

/// The events a watch is registered for.
pub const INOTIFY_FLAGS_IN_ALL_EVENTS: u32 = 0xFFF;

/// The size of the buffer handed to `read`.
pub const BUFFER_LEN: usize = 1024;

pub const IN_MODIFY: u32 = 0x0000_0002;

/// Metadata changed.
pub const IN_ATTRIB: u32 = 0x0000_0004;

pub const IN_CLOSE_WRITE: u32 = 0x0000_0008;

pub const IN_MOVED_FROM: u32 = 0x0000_0040;

pub const IN_MOVED_TO: u32 = 0x0000_0080;

pub const IN_CREATE: u32 = 0x0000_0100;

pub const IN_DELETE: u32 = 0x0000_0200;

pub const IN_DELETE_SELF: u32 = 0x0000_0400;

pub const IN_MOVE_SELF: u32 = 0x0000_0800;

/// The kernel's event queue ran over.
pub const IN_Q_OVERFLOW: u32 = 0x0000_4000;

/// The size of a record's header.
pub const HEADER_LEN: usize = 16;

/// One inotify record.
#[derive(Clone, Debug, PartialEq, Eq)]
pub struct InotifyEvent {
    /// Watch descriptor.
    pub wd: i32,
    /// What happened.
    pub mask: u32,
    /// Ties the two halves of a rename together.
    pub cookie: u32,
    /// The number of name bytes behind the header.
    pub len: u32,
    /// The `len` name bytes, padding included.
    pub name: Vec<u8>,
}

/// An [`InotifyEvent`] with its name as a sequence.
pub struct InotifyEventView {
    pub wd: i32,
    pub mask: u32,
    pub cookie: u32,
    pub len: u32,
    pub name: Seq<u8>,
}

impl View for InotifyEvent {
    type V = InotifyEventView;

    open spec fn view(&self) -> InotifyEventView {
        InotifyEventView {
            wd: self.wd,
            mask: self.mask,
            cookie: self.cookie,
            len: self.len,
            name: self.name@,
        }
    }
}

/// What a record's mask stands for.
#[derive(Clone, Copy, Debug, PartialEq, Eq, Structural)]
pub enum MaskMeaning {
    /// Something happened to an entry under the root.
    Change(FileChange),
    /// The root itself is gone.
    RootInvalidated(RootEvent),
}

/// The table of event masks. A mask is looked up whole: one with further
/// bits set beside a known one is not in the table.
pub open spec fn meaning_of(mask: u32) -> MaskMeaning {
    if mask == IN_MODIFY || mask == IN_ATTRIB || mask == IN_CLOSE_WRITE {
        MaskMeaning::Change(FileChange::Modified)
    } else if mask == IN_MOVED_FROM {
        MaskMeaning::Change(FileChange::RenamedFrom)
    } else if mask == IN_MOVED_TO {
        MaskMeaning::Change(FileChange::RenamedTo)
    } else if mask == IN_CREATE {
        MaskMeaning::Change(FileChange::Created)
    } else if mask == IN_DELETE {
        MaskMeaning::Change(FileChange::Deleted)
    } else if mask == IN_DELETE_SELF {
        MaskMeaning::RootInvalidated(RootEvent::Deleted)
    } else if mask == IN_MOVE_SELF {
        MaskMeaning::RootInvalidated(RootEvent::Moved)
    } else {
        MaskMeaning::Change(FileChange::Unknown)
    }
}

/// Looks a mask up in the table.
pub fn classify(mask: u32) -> (meaning: MaskMeaning)
    ensures
        meaning == meaning_of(mask),
{
    match mask {
        IN_MODIFY | IN_ATTRIB | IN_CLOSE_WRITE => MaskMeaning::Change(FileChange::Modified),
        IN_MOVED_FROM => MaskMeaning::Change(FileChange::RenamedFrom),
        IN_MOVED_TO => MaskMeaning::Change(FileChange::RenamedTo),
        IN_CREATE => MaskMeaning::Change(FileChange::Created),
        IN_DELETE => MaskMeaning::Change(FileChange::Deleted),
        IN_DELETE_SELF => MaskMeaning::RootInvalidated(RootEvent::Deleted),
        IN_MOVE_SELF => MaskMeaning::RootInvalidated(RootEvent::Moved),
        _ => MaskMeaning::Change(FileChange::Unknown),
    }
}

/// A 32-bit field read as a signed number.
pub open spec fn signed(raw: u32) -> i32 {
    if raw < 0x8000_0000 {
        raw as i32
    } else {
        (raw - 0x1_0000_0000) as i32
    }
}

/// The record that starts at `at`, where all of it, header and name, lies
/// inside `bytes`.
pub open spec fn event_at(bytes: Seq<u8>, at: int) -> Option<InotifyEventView> {
    if 0 <= at && at + HEADER_LEN <= bytes.len() && at + HEADER_LEN + u32_at(bytes, at + 12)
        <= bytes.len() {
        let len = u32_at(bytes, at + 12);
        Some(
            InotifyEventView {
                wd: signed(u32_at(bytes, at)),
                mask: u32_at(bytes, at + 4),
                cookie: u32_at(bytes, at + 8),
                len,
                name: bytes.subrange(at + HEADER_LEN, at + HEADER_LEN + len),
            },
        )
    } else {
        None
    }
}

/// The number of bytes of a name field that stand in front of its first NUL
/// byte: all of them where none is NUL.
pub open spec fn unpadded_len(field: Seq<u8>) -> nat
    decreases field.len(),
{
    if field.len() == 0 || field[0] == 0 {
        0
    } else {
        1 + unpadded_len(field.drop_first())
    }
}

/// The file name in a name field: the field without its padding.
pub open spec fn unpadded(field: Seq<u8>) -> Seq<u8> {
    field.take(unpadded_len(field) as int)
}

/// The notification that a record gives rise to, for a mask that stands
/// for a change.
pub open spec fn notification_of(event: InotifyEventView) -> NotificationView {
    NotificationView {
        action: match meaning_of(event.mask) {
            MaskMeaning::Change(action) => action,
            MaskMeaning::RootInvalidated(_) => FileChange::Unknown,
        },
        file: NameView::Bytes(unpadded(event.name)),
    }
}

/// The number of bytes in front of the first NUL is never more than the
/// field holds; none of them is NUL; and where it is less than the field
/// holds, a NUL stands right behind them.
pub proof fn lemma_unpadded_len(field: Seq<u8>)
    ensures
        unpadded_len(field) <= field.len(),
        forall|i: int| 0 <= i < unpadded_len(field) ==> field[i] != 0,
        unpadded_len(field) < field.len() ==> field[unpadded_len(field) as int] == 0,
    decreases field.len(),
{
    if field.len() > 0 && field[0] != 0 {
        let rest = field.drop_first();
        lemma_unpadded_len(rest);
        assert forall|i: int| 0 <= i < unpadded_len(field) implies field[i] != 0 by {
            if i > 0 {
                assert(field[i] == rest[i - 1]);
            }
        }
        if unpadded_len(field) < field.len() {
            assert(field[unpadded_len(field) as int] == rest[unpadded_len(rest) as int]);
        }
    }
}

/// A place in a name field with a NUL, and none in front of it, is where
/// the file name ends; so is the end of a field that holds no NUL.
pub proof fn lemma_unpadded_len_is(field: Seq<u8>, end: int)
    requires
        0 <= end <= field.len(),
        forall|i: int| 0 <= i < end ==> field[i] != 0,
        end < field.len() ==> field[end] == 0,
    ensures
        unpadded_len(field) == end,
    decreases field.len(),
{
    if end > 0 {
        let rest = field.drop_first();
        assert forall|i: int| 0 <= i < end - 1 implies rest[i] != 0 by {
            assert(rest[i] == field[i + 1]);
        }
        if end - 1 < rest.len() {
            assert(rest[end - 1] == field[end]);
        }
        lemma_unpadded_len_is(rest, end - 1);
    }
}

/// Cuts the padding off a name field.
pub fn strip_padding(field: Vec<u8>) -> (name: Vec<u8>)
    ensures
        name@ == unpadded(field@),
{
    let mut name = field;
    let mut end: usize = 0;
    while end < name.len() && name[end] != 0
        invariant
            name@ == field@,
            end <= field@.len(),
            forall|i: int| 0 <= i < end ==> field@[i] != 0,
        decreases field@.len() - end,
    {
        end += 1;
    }
    proof {
        lemma_unpadded_len_is(field@, end as int);
    }
    name.truncate(end);
    name
}

/// What the records from `at` on decode to.
///
/// Records are taken one after the other. Decoding ends where no whole
/// record is left (`Complete` if nothing at all is left, `Truncated`
/// otherwise), or at the first record that says the root is gone.
pub open spec fn decode_from(bytes: Seq<u8>, at: int) -> DecodedView
    decreases bytes.len() - at,
{
    match event_at(bytes, at) {
        None => DecodedView {
            notifications: Seq::empty(),
            end: if at == bytes.len() {
                DecodeEnd::Complete
            } else {
                DecodeEnd::Truncated
            },
            overflowed: false,
        },
        Some(event) => match meaning_of(event.mask) {
            MaskMeaning::RootInvalidated(how) => DecodedView {
                notifications: Seq::empty(),
                end: DecodeEnd::RootInvalidated(how),
                overflowed: false,
            },
            MaskMeaning::Change(_) => {
                let rest = decode_from(bytes, at + HEADER_LEN + event.len);
                DecodedView {
                    notifications: seq![notification_of(event)] + rest.notifications,
                    end: rest.end,
                    overflowed: event.mask == IN_Q_OVERFLOW || rest.overflowed,
                }
            },
        },
    }
}

/// What a buffer of filled bytes decodes to.
pub open spec fn decode(bytes: Seq<u8>) -> DecodedView {
    decode_from(bytes, 0)
}

/// The number of filled bytes in a buffer of `capacity` bytes after a
/// `read` that returned `buffer_len`: none after a failed read, and never
/// more than the buffer holds.
pub open spec fn filled(buffer_len: int, capacity: int) -> int {
    if buffer_len < 0 {
        0
    } else {
        shorter(buffer_len, capacity)
    }
}

/// Reads the record at the cursor, or `None` where its header or its name
/// is not wholly inside the filled bytes.
pub fn read_event(cursor: &RecordCursor) -> (event: Option<InotifyEvent>)
    ensures
        match event {
            Some(e) => event_at(cursor.bytes(), cursor.position()) == Some(e@),
            None => event_at(cursor.bytes(), cursor.position()) is None,
        },
{
    let wd = cursor.read_u32(0);
    let mask = cursor.read_u32(4);
    let cookie = cursor.read_u32(8);
    let len = cursor.read_u32(12);
    match (wd, mask, cookie, len) {
        (Some(wd), Some(mask), Some(cookie), Some(len)) => {
            match cursor.read_bytes(HEADER_LEN, len as usize) {
                Some(name) => {
                    let wd: i32 = if wd < 0x8000_0000 {
                        wd as i32
                    } else {
                        -((u32::MAX - wd) as i32) - 1
                    };
                    Some(InotifyEvent { wd, mask, cookie, len, name })
                },
                None => None,
            }
        },
        _ => None,
    }
}

/// Decodes the records in `buffer`, of which a `read` that returned
/// `buffer_len` filled the first bytes.
///
/// Each whole record gives one notification, in the order of the records,
/// with the kind that the table gives for its mask and the file name in its
/// name field. Nothing outside the filled bytes is read. A record that says the root is
/// gone ends the decoding; so does a trailing piece that is not a whole
/// record.
pub fn from_buffer(buffer: &[u8], buffer_len: isize) -> (decoded: Decoded)
    ensures
        decoded@ == decode(buffer@.take(filled(buffer_len as int, buffer@.len() as int))),
{
    let valid_len: usize = if buffer_len < 0 {
        0
    } else {
        buffer_len as usize
    };
    let capacity: usize = buffer.len();
    let mut cursor = RecordCursor::new(buffer, valid_len);
    let ghost bytes = cursor.bytes();
    assert(bytes.len() <= capacity);
    let mut notifications: Vec<FileChangeNotification> = Vec::new();
    let mut overflowed = false;
    let mut end = DecodeEnd::Complete;
    let mut done = false;
    while !done
        invariant
            cursor.bytes() == bytes,
            0 <= cursor.position() <= bytes.len() <= usize::MAX,
            done ==> decode(bytes) == (DecodedView {
                notifications: views(notifications@),
                end,
                overflowed,
            }),
            !done ==> decode(bytes) == (DecodedView {
                notifications: views(notifications@) + decode_from(
                    bytes,
                    cursor.position(),
                ).notifications,
                end: decode_from(bytes, cursor.position()).end,
                overflowed: overflowed || decode_from(bytes, cursor.position()).overflowed,
            }),
        decreases bytes.len() - cursor.position() + (if done { 0int } else { 1int }),
    {
        let ghost at = cursor.position();
        let ghost before = notifications@;
        match read_event(&cursor) {
            None => {
                end = if cursor.remaining() == 0 {
                    DecodeEnd::Complete
                } else {
                    DecodeEnd::Truncated
                };
                done = true;
                assert(views(before) + Seq::<NotificationView>::empty() =~= views(before));
            },
            Some(event) => {
                match classify(event.mask) {
                    MaskMeaning::RootInvalidated(how) => {
                        end = DecodeEnd::RootInvalidated(how);
                        done = true;
                        assert(views(before) + Seq::<NotificationView>::empty() =~= views(
                            before,
                        ));
                    },
                    MaskMeaning::Change(action) => {
                        if event.mask == IN_Q_OVERFLOW {
                            overflowed = true;
                        }
                        let stride: usize = HEADER_LEN + event.len as usize;
                        let ghost note = notification_of(event@);
                        notifications.push(
                            FileChangeNotification {
                                action,
                                file: NativeName::Bytes(strip_padding(event.name)),
                            },
                        );
                        let moved = cursor.advance(stride);
                        assert(moved);
                        assert(views(notifications@) =~= views(before) + seq![note]);
                        assert(views(before) + (seq![note] + decode_from(
                            bytes,
                            at + stride,
                        ).notifications) =~= views(notifications@) + decode_from(
                            bytes,
                            at + stride,
                        ).notifications);
                    },
                }
            },
        }
    }
    Decoded { notifications, end, overflowed }
}

} // verus!

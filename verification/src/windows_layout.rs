//! The directory-change entry layout written out, and the proof that
//! decoding reads it back: what the decoder gives for a buffer of entries
//! is one notification for each entry, in the order of the entries.

use crate::cursor::{
    le_bytes, lemma_u32_at_le_bytes, lemma_wide_at_wide_bytes, u32_at, wide_bytes,
};
use crate::watcher::{DecodeEnd, DecodedView, FileChange, NotificationView};
use crate::windows::{
    change_of, decode, decode_from, entry_at, notification_of, EntryView, FILE_ACTION_ADDED,
    FILE_ACTION_MODIFIED, FILE_ACTION_REMOVED, FILE_ACTION_RENAMED_NEW_NAME,
    FILE_ACTION_RENAMED_OLD_NAME, HEADER_LEN,
};
use vstd::prelude::*;

verus! {

/// An entry whose `file_name_length` is the size of its name in bytes.
pub open spec fn well_formed(entry: EntryView) -> bool {
    entry.file_name_length == 2 * entry.file_name.len()
}

/// The bytes of one entry: header, then name.
#[verifier::opaque]
pub open spec fn encode_entry(entry: EntryView) -> Seq<u8> {
    le_bytes(entry.next_entry_offset) + le_bytes(entry.action) + le_bytes(entry.file_name_length)
        + wide_bytes(entry.file_name)
}

/// The number of unused bytes between the end of an entry's name and the
/// entry that its offset leads to.
pub open spec fn gap(entry: EntryView) -> nat {
    if entry.next_entry_offset >= HEADER_LEN + entry.file_name_length {
        (entry.next_entry_offset - HEADER_LEN - entry.file_name_length) as nat
    } else {
        0
    }
}

/// The bytes that an entry takes up in a buffer: the entry, then zeros up
/// to where its offset leads.
pub open spec fn placed(entry: EntryView) -> Seq<u8> {
    encode_entry(entry) + Seq::new(gap(entry), |i: int| 0u8)
}

/// The bytes of a run of entries, each where the offset of the one before
/// it leads.
pub open spec fn encode_entries(entries: Seq<EntryView>) -> Seq<u8>
    decreases entries.len(),
{
    if entries.len() == 0 {
        Seq::empty()
    } else {
        placed(entries[0]) + encode_entries(entries.drop_first())
    }
}

/// A run of well-formed entries, each with an offset that leads behind its
/// own name: behind every entry another one is announced.
pub open spec fn linked(entries: Seq<EntryView>) -> bool {
    forall|i: int|
        0 <= i < entries.len() ==> well_formed(#[trigger] entries[i])
            && entries[i].next_entry_offset >= HEADER_LEN + entries[i].file_name_length
}

/// A run of well-formed entries as the kernel writes it: the last one
/// holds the offset zero, and every other one an offset that leads behind
/// its own name.
pub open spec fn chained(entries: Seq<EntryView>) -> bool {
    &&& entries.len() > 0
    &&& linked(entries.drop_last())
    &&& well_formed(entries.last())
    &&& entries.last().next_entry_offset == 0
}

/// The notifications of a run of entries, one for each entry, in their
/// order.
pub open spec fn notifications_of(entries: Seq<EntryView>) -> Seq<NotificationView> {
    Seq::new(entries.len(), |i: int| notification_of(entries[i]))
}

/// A well-formed entry that stands anywhere in a buffer is read back as it
/// was written.
pub proof fn lemma_entry_at_encoded(prefix: Seq<u8>, entry: EntryView, suffix: Seq<u8>)
    requires
        well_formed(entry),
    ensures
        encode_entry(entry).len() == HEADER_LEN + entry.file_name_length,
        entry_at(prefix + encode_entry(entry) + suffix, prefix.len() as int) == Some(entry),
{
    reveal(encode_entry);
    let bytes = prefix + encode_entry(entry) + suffix;
    let at = prefix.len() as int;
    assert(bytes.subrange(at, at + 4) =~= le_bytes(entry.next_entry_offset));
    assert(bytes.subrange(at + 4, at + 8) =~= le_bytes(entry.action));
    assert(bytes.subrange(at + 8, at + 12) =~= le_bytes(entry.file_name_length));
    lemma_u32_at_le_bytes(bytes, at, entry.next_entry_offset);
    lemma_u32_at_le_bytes(bytes, at + 4, entry.action);
    lemma_u32_at_le_bytes(bytes, at + 8, entry.file_name_length);
    assert(bytes.subrange(at + HEADER_LEN, at + HEADER_LEN + 2 * entry.file_name.len())
        =~= wide_bytes(entry.file_name));
    lemma_wide_at_wide_bytes(bytes, at + HEADER_LEN, entry.file_name);
    assert(entry.file_name_length / 2 == entry.file_name.len());
}

/// One step of decoding: an entry whose offset leads on inside the bytes
/// gives its notification, and then what the bytes from there on decode to.
proof fn lemma_decode_step(bytes: Seq<u8>, at: int, entry: EntryView)
    requires
        entry_at(bytes, at) == Some(entry),
        entry.next_entry_offset > 0,
        at + entry.next_entry_offset <= bytes.len(),
    ensures
        decode_from(bytes, at) == (DecodedView {
            notifications: seq![notification_of(entry)] + decode_from(
                bytes,
                at + entry.next_entry_offset,
            ).notifications,
            end: decode_from(bytes, at + entry.next_entry_offset).end,
            overflowed: false,
        }),
{
}

/// The bytes of a linked run that starts with `first` are the bytes of
/// `first`, zeros up to where its offset leads, and the bytes of the rest.
proof fn lemma_encode_entries_unfold(entries: Seq<EntryView>)
    requires
        entries.len() > 0,
        well_formed(entries[0]),
        entries[0].next_entry_offset >= HEADER_LEN + entries[0].file_name_length,
    ensures
        encode_entries(entries) == placed(entries[0]) + encode_entries(entries.drop_first()),
        placed(entries[0]).len() == entries[0].next_entry_offset,
        placed(entries[0]) == encode_entry(entries[0]) + Seq::new(
            gap(entries[0]),
            |i: int| 0u8,
        ),
{
    lemma_entry_at_encoded(Seq::empty(), entries[0], Seq::empty());
}

/// Five pieces in a row are the same bytes however they are grouped.
proof fn lemma_regroup(a: Seq<u8>, b: Seq<u8>, c: Seq<u8>, d: Seq<u8>, e: Seq<u8>)
    ensures
        a + ((b + c) + d) + e == a + b + (c + d + e),
        a + ((b + c) + d) + e == (a + (b + c)) + d + e,
{
    assert(a + ((b + c) + d) + e =~= a + b + (c + d + e));
    assert(a + ((b + c) + d) + e =~= (a + (b + c)) + d + e);
}

/// Decoding a linked run of entries that stands anywhere in a buffer gives
/// one notification for each entry, and then what the bytes behind the run
/// decode to.
pub proof fn lemma_decode_linked_within(
    prefix: Seq<u8>,
    entries: Seq<EntryView>,
    suffix: Seq<u8>,
)
    requires
        linked(entries),
    ensures
        ({
            let bytes = prefix + encode_entries(entries) + suffix;
            let behind = decode_from(bytes, (prefix.len() + encode_entries(entries).len()) as int);
            decode_from(bytes, prefix.len() as int) == (DecodedView {
                notifications: notifications_of(entries) + behind.notifications,
                end: behind.end,
                overflowed: false,
            })
        }),
    decreases entries.len(),
{
    let bytes = prefix + encode_entries(entries) + suffix;
    let end = (prefix.len() + encode_entries(entries).len()) as int;
    let behind = decode_from(bytes, end);
    if entries.len() == 0 {
        assert(notifications_of(entries) + behind.notifications =~= behind.notifications);
    } else {
        let first = entries[0];
        let rest = entries.drop_first();
        assert(well_formed(first) && first.next_entry_offset >= HEADER_LEN
            + first.file_name_length);
        assert(linked(rest)) by {
            assert forall|i: int| 0 <= i < rest.len() implies well_formed(#[trigger] rest[i])
                && rest[i].next_entry_offset >= HEADER_LEN + rest[i].file_name_length by {
                assert(rest[i] == entries[i + 1]);
            }
        }
        lemma_encode_entries_unfold(entries);
        let zeros = Seq::new(gap(first), |i: int| 0u8);
        let later = zeros + encode_entries(rest) + suffix;
        let moved = prefix + placed(first);
        lemma_regroup(prefix, encode_entry(first), zeros, encode_entries(rest), suffix);
        assert(entry_at(bytes, prefix.len() as int) == Some(first)) by {
            lemma_entry_at_encoded(prefix, first, later);
        }
        assert(moved.len() == prefix.len() + first.next_entry_offset);
        assert(end == moved.len() + encode_entries(rest).len());
        lemma_decode_linked_within(moved, rest, suffix);
        lemma_decode_step(bytes, prefix.len() as int, first);
        let after = decode_from(bytes, moved.len() as int);
        assert(after.notifications == notifications_of(rest) + behind.notifications);
        assert(seq![notification_of(first)] + after.notifications == notifications_of(entries)
            + behind.notifications) by {
            assert(notifications_of(entries) =~= seq![notification_of(first)]
                + notifications_of(rest));
            assert(seq![notification_of(first)] + (notifications_of(rest)
                + behind.notifications) =~= notifications_of(entries) + behind.notifications);
        }
    }
}

/// Decoding a buffer that holds a chain of entries as the kernel writes it
/// gives one notification for each entry, as many and in the same order:
/// what walking the entries by hand gives.
pub proof fn lemma_decode_encoded(entries: Seq<EntryView>)
    requires
        chained(entries),
    ensures
        decode(encode_entries(entries.drop_last()) + encode_entry(entries.last())) == (
        DecodedView {
            notifications: notifications_of(entries),
            end: DecodeEnd::Complete,
            overflowed: false,
        }),
{
    let init = entries.drop_last();
    let last = entries.last();
    let bytes = encode_entries(init) + encode_entry(last);
    assert(Seq::<u8>::empty() + encode_entries(init) + encode_entry(last) =~= bytes);
    lemma_decode_linked_within(Seq::empty(), init, encode_entry(last));
    assert(encode_entries(init) + encode_entry(last) + Seq::<u8>::empty() =~= bytes);
    lemma_entry_at_encoded(encode_entries(init), last, Seq::empty());
    assert(notifications_of(init) + seq![notification_of(last)] =~= notifications_of(entries));
}

/// A buffer with no filled bytes decodes to no notification at all, and
/// that is not an error.
pub proof fn lemma_decode_empty()
    ensures
        decode(Seq::empty()) == (DecodedView {
            notifications: Seq::empty(),
            end: DecodeEnd::Complete,
            overflowed: false,
        }),
{
}

/// A buffer that holds one well-formed entry with the mark of the last
/// entry, and nothing else, decodes to exactly one notification: the one
/// the table gives for the entry's action, with the entry's name.
pub proof fn lemma_decode_single(entry: EntryView)
    requires
        well_formed(entry),
        entry.next_entry_offset == 0,
    ensures
        decode(encode_entry(entry)) == (DecodedView {
            notifications: seq![notification_of(entry)],
            end: DecodeEnd::Complete,
            overflowed: false,
        }),
{
    let bytes = encode_entry(entry);
    assert(Seq::<u8>::empty() + bytes + Seq::<u8>::empty() =~= bytes);
    lemma_entry_at_encoded(Seq::empty(), entry, Seq::empty());
}

/// A linked run of entries, followed by a piece that is not a whole entry
/// (a header cut short, or a name that would end behind the last filled
/// byte), decodes to the notifications of the whole entries and to nothing
/// for the piece: it is dropped, and decoding ends there.
pub proof fn lemma_decode_truncated_tail(entries: Seq<EntryView>, piece: Seq<u8>)
    requires
        linked(entries),
        piece.len() > 0,
        piece.len() < HEADER_LEN || piece.len() < HEADER_LEN + u32_at(piece, 8),
    ensures
        decode(encode_entries(entries) + piece) == (DecodedView {
            notifications: notifications_of(entries),
            end: DecodeEnd::Truncated,
            overflowed: false,
        }),
{
    let whole = encode_entries(entries);
    let bytes = whole + piece;
    let at = whole.len() as int;
    assert(Seq::<u8>::empty() + whole + piece =~= bytes);
    lemma_decode_linked_within(Seq::empty(), entries, piece);
    if piece.len() >= HEADER_LEN {
        assert(bytes[at + 8] == piece[8]);
        assert(bytes[at + 9] == piece[9]);
        assert(bytes[at + 10] == piece[10]);
        assert(bytes[at + 11] == piece[11]);
        assert(u32_at(bytes, at + 8) == u32_at(piece, 8));
    }
    assert(entry_at(bytes, at) is None);
    assert(notifications_of(entries) + Seq::<NotificationView>::empty() =~= notifications_of(
        entries,
    ));
}

/// The table of action codes, entry by entry; every other code stands for
/// a change of unknown kind.
pub proof fn lemma_action_table()
    ensures
        change_of(FILE_ACTION_ADDED) == FileChange::Created,
        change_of(FILE_ACTION_MODIFIED) == FileChange::Modified,
        change_of(FILE_ACTION_REMOVED) == FileChange::Deleted,
        change_of(FILE_ACTION_RENAMED_OLD_NAME) == FileChange::RenamedFrom,
        change_of(FILE_ACTION_RENAMED_NEW_NAME) == FileChange::RenamedTo,
        forall|action: u32|
            action != FILE_ACTION_ADDED && action != FILE_ACTION_MODIFIED && action
                != FILE_ACTION_REMOVED && action != FILE_ACTION_RENAMED_OLD_NAME && action
                != FILE_ACTION_RENAMED_NEW_NAME ==> #[trigger] change_of(action)
                == FileChange::Unknown,
{
}

} // verus!

//! The inotify record layout written out, and the proof that decoding
//! reads it back: what the decoder gives for a buffer of records is what
//! walking those records by hand gives.

use crate::cursor::{le_bytes, lemma_u32_at_le_bytes, u32_at};
use crate::unix::{
    decode, decode_from, event_at, meaning_of, notification_of, signed, InotifyEventView,
    MaskMeaning, HEADER_LEN, IN_ATTRIB, IN_CLOSE_WRITE, IN_CREATE, IN_DELETE, IN_DELETE_SELF,
    IN_MODIFY, IN_MOVED_FROM, IN_MOVED_TO, IN_MOVE_SELF, IN_Q_OVERFLOW,
};
use crate::watcher::{DecodeEnd, DecodedView, FileChange, NotificationView, RootEvent};
use vstd::prelude::*;

verus! {

/// A signed 32-bit field as the raw value that is stored for it.
pub open spec fn unsigned(value: i32) -> u32 {
    if value >= 0 {
        value as u32
    } else {
        (value + 0x1_0000_0000) as u32
    }
}

/// A record whose `len` is the length of its name.
pub open spec fn well_formed(event: InotifyEventView) -> bool {
    event.name.len() == event.len
}

/// Every record of a run is well formed.
pub open spec fn all_well_formed(events: Seq<InotifyEventView>) -> bool {
    forall|i: int| 0 <= i < events.len() ==> well_formed(#[trigger] events[i])
}

/// The bytes of one record: header, then name.
#[verifier::opaque]
pub open spec fn encode_event(event: InotifyEventView) -> Seq<u8> {
    le_bytes(unsigned(event.wd)) + le_bytes(event.mask) + le_bytes(event.cookie) + le_bytes(
        event.len,
    ) + event.name
}

/// The bytes of a run of records, one right behind the other.
pub open spec fn encode_events(events: Seq<InotifyEventView>) -> Seq<u8>
    decreases events.len(),
{
    if events.len() == 0 {
        Seq::empty()
    } else {
        encode_event(events[0]) + encode_events(events.drop_first())
    }
}

/// A decoding that found nothing and ended as `end` says.
pub open spec fn nothing(end: DecodeEnd) -> DecodedView {
    DecodedView { notifications: Seq::empty(), end, overflowed: false }
}

/// Walking a run of records by hand, and going on with `tail` behind the
/// last one: a notification for each record in turn, up to the first record
/// that says the root is gone.
pub open spec fn walk_then(events: Seq<InotifyEventView>, tail: DecodedView) -> DecodedView
    decreases events.len(),
{
    if events.len() == 0 {
        tail
    } else {
        match meaning_of(events[0].mask) {
            MaskMeaning::RootInvalidated(how) => nothing(DecodeEnd::RootInvalidated(how)),
            MaskMeaning::Change(_) => {
                let rest = walk_then(events.drop_first(), tail);
                DecodedView {
                    notifications: seq![notification_of(events[0])] + rest.notifications,
                    end: rest.end,
                    overflowed: events[0].mask == IN_Q_OVERFLOW || rest.overflowed,
                }
            },
        }
    }
}

/// Walking a run of records by hand.
pub open spec fn walk(events: Seq<InotifyEventView>) -> DecodedView {
    walk_then(events, nothing(DecodeEnd::Complete))
}

/// No record of a run says that the root is gone.
pub open spec fn all_changes(events: Seq<InotifyEventView>) -> bool {
    forall|i: int|
        0 <= i < events.len() ==> (#[trigger] meaning_of(events[i].mask)) is Change
}

/// Some record of a run is the kernel's notice that its queue ran over.
pub open spec fn any_overflow(events: Seq<InotifyEventView>) -> bool {
    exists|i: int| 0 <= i < events.len() && (#[trigger] events[i]).mask == IN_Q_OVERFLOW
}

/// A signed field survives being stored and read back.
pub proof fn lemma_signed_unsigned(value: i32)
    ensures
        signed(unsigned(value)) == value,
{
}

/// A well-formed record that stands anywhere in a buffer is read back as
/// it was written.
pub proof fn lemma_event_at_encoded(prefix: Seq<u8>, event: InotifyEventView, suffix: Seq<u8>)
    requires
        well_formed(event),
    ensures
        encode_event(event).len() == HEADER_LEN + event.len,
        event_at(prefix + encode_event(event) + suffix, prefix.len() as int) == Some(event),
{
    reveal(encode_event);
    let bytes = prefix + encode_event(event) + suffix;
    let at = prefix.len() as int;
    assert(bytes.subrange(at, at + 4) =~= le_bytes(unsigned(event.wd)));
    assert(bytes.subrange(at + 4, at + 8) =~= le_bytes(event.mask));
    assert(bytes.subrange(at + 8, at + 12) =~= le_bytes(event.cookie));
    assert(bytes.subrange(at + 12, at + 16) =~= le_bytes(event.len));
    lemma_u32_at_le_bytes(bytes, at, unsigned(event.wd));
    lemma_u32_at_le_bytes(bytes, at + 4, event.mask);
    lemma_u32_at_le_bytes(bytes, at + 8, event.cookie);
    lemma_u32_at_le_bytes(bytes, at + 12, event.len);
    lemma_signed_unsigned(event.wd);
    assert(bytes.subrange(at + HEADER_LEN, at + HEADER_LEN + event.len) =~= event.name);
}

/// One step of decoding: a record of a change gives its notification, and
/// then what the bytes behind it decode to.
proof fn lemma_decode_step(bytes: Seq<u8>, at: int, event: InotifyEventView)
    requires
        event_at(bytes, at) == Some(event),
        meaning_of(event.mask) is Change,
    ensures
        decode_from(bytes, at) == (DecodedView {
            notifications: seq![notification_of(event)] + decode_from(
                bytes,
                at + HEADER_LEN + event.len,
            ).notifications,
            end: decode_from(bytes, at + HEADER_LEN + event.len).end,
            overflowed: event.mask == IN_Q_OVERFLOW || decode_from(
                bytes,
                at + HEADER_LEN + event.len,
            ).overflowed,
        }),
{
}

/// Four pieces in a row are the same bytes however they are grouped.
proof fn lemma_regroup(a: Seq<u8>, b: Seq<u8>, c: Seq<u8>, d: Seq<u8>)
    ensures
        a + (b + c) + d == a + b + (c + d),
        a + (b + c) + d == (a + b) + c + d,
{
    assert(a + (b + c) + d =~= a + b + (c + d));
    assert(a + (b + c) + d =~= (a + b) + c + d);
}

/// Decoding a run of well-formed records that stands anywhere in a buffer
/// is walking them by hand, and going on with what the bytes behind them
/// decode to.
pub proof fn lemma_decode_encoded_within(
    prefix: Seq<u8>,
    events: Seq<InotifyEventView>,
    suffix: Seq<u8>,
)
    requires
        all_well_formed(events),
    ensures
        decode_from(prefix + encode_events(events) + suffix, prefix.len() as int) == walk_then(
            events,
            decode_from(
                prefix + encode_events(events) + suffix,
                (prefix.len() + encode_events(events).len()) as int,
            ),
        ),
    decreases events.len(),
{
    let bytes = prefix + encode_events(events) + suffix;
    let at = prefix.len() as int;
    if events.len() > 0 {
        let first = events[0];
        let rest = events.drop_first();
        assert(well_formed(first));
        assert(all_well_formed(rest)) by {
            assert forall|i: int| 0 <= i < rest.len() implies well_formed(#[trigger] rest[i]) by {
                assert(rest[i] == events[i + 1]);
            }
        }
        let later = encode_events(rest) + suffix;
        let moved = prefix + encode_event(first);
        lemma_regroup(prefix, encode_event(first), encode_events(rest), suffix);
        assert(event_at(bytes, at) == Some(first) && moved.len() == at + HEADER_LEN + first.len)
            by {
            lemma_event_at_encoded(prefix, first, later);
        }
        lemma_decode_encoded_within(moved, rest, suffix);
        if meaning_of(first.mask) is Change {
            lemma_decode_step(bytes, at, first);
        }
    }
}

/// Decoding a buffer that holds well-formed records and nothing else gives
/// what walking the records by hand gives: the same notifications, as many
/// and in the same order, and the same end.
pub proof fn lemma_decode_encoded(events: Seq<InotifyEventView>)
    requires
        all_well_formed(events),
    ensures
        decode(encode_events(events)) == walk(events),
{
    let bytes = encode_events(events);
    assert(Seq::<u8>::empty() + bytes + Seq::<u8>::empty() =~= bytes);
    lemma_decode_encoded_within(Seq::empty(), events, Seq::empty());
}

/// Where no record says that the root is gone, walking the records gives
/// one notification for each of them, in their order, and then goes on with
/// the tail.
pub proof fn lemma_walk_all_changes(events: Seq<InotifyEventView>, tail: DecodedView)
    requires
        all_changes(events),
    ensures
        walk_then(events, tail).notifications == Seq::new(
            events.len(),
            |i: int| notification_of(events[i]),
        ) + tail.notifications,
        walk_then(events, tail).end == tail.end,
        walk_then(events, tail).overflowed == (any_overflow(events) || tail.overflowed),
    decreases events.len(),
{
    let mapped = Seq::new(events.len(), |i: int| notification_of(events[i]));
    if events.len() == 0 {
        assert(mapped + tail.notifications =~= tail.notifications);
    } else {
        let rest = events.drop_first();
        assert(meaning_of(events[0].mask) is Change);
        assert forall|i: int| 0 <= i < rest.len() implies (#[trigger] meaning_of(
            rest[i].mask,
        )) is Change by {
            assert(rest[i] == events[i + 1]);
        }
        lemma_walk_all_changes(rest, tail);
        let mapped_rest = Seq::new(rest.len(), |i: int| notification_of(rest[i]));
        assert(mapped =~= seq![notification_of(events[0])] + mapped_rest);
        assert(seq![notification_of(events[0])] + (mapped_rest + tail.notifications) =~= mapped
            + tail.notifications);
        if any_overflow(rest) {
            let i = choose|i: int| 0 <= i < rest.len() && (#[trigger] rest[i]).mask
                == IN_Q_OVERFLOW;
            assert(events[i + 1] == rest[i]);
        }
        if any_overflow(events) {
            let i = choose|i: int| 0 <= i < events.len() && (#[trigger] events[i]).mask
                == IN_Q_OVERFLOW;
            if i > 0 {
                assert(rest[i - 1] == events[i]);
            }
        }
    }
}

/// The notifications of a run of records, one for each record, in their
/// order.
pub open spec fn notifications_of(events: Seq<InotifyEventView>) -> Seq<NotificationView> {
    Seq::new(events.len(), |i: int| notification_of(events[i]))
}

/// A buffer with no filled bytes decodes to no notification at all, and
/// that is not an error.
pub proof fn lemma_decode_empty()
    ensures
        decode(Seq::empty()) == nothing(DecodeEnd::Complete),
{
}

/// A buffer that holds one well-formed record of a change, and nothing
/// else, decodes to exactly one notification: the one the table gives for
/// the record's mask, with the record's name.
pub proof fn lemma_decode_single(event: InotifyEventView)
    requires
        well_formed(event),
        meaning_of(event.mask) is Change,
    ensures
        decode(encode_event(event)) == (DecodedView {
            notifications: seq![notification_of(event)],
            end: DecodeEnd::Complete,
            overflowed: event.mask == IN_Q_OVERFLOW,
        }),
{
    let bytes = encode_event(event);
    assert(Seq::<u8>::empty() + bytes + Seq::<u8>::empty() =~= bytes);
    lemma_event_at_encoded(Seq::empty(), event, Seq::empty());
    let behind = decode_from(bytes, HEADER_LEN + event.len);
    assert(event_at(bytes, HEADER_LEN + event.len) is None);
    assert(behind == nothing(DecodeEnd::Complete));
    assert(seq![notification_of(event)] + behind.notifications =~= seq![notification_of(event)]);
}

/// A buffer of well-formed records of changes, followed by a piece that is
/// not a whole record (a header cut short, or a name that would end behind
/// the last filled byte), decodes to the notifications of the whole records
/// and to nothing for the piece: it is dropped, and decoding ends there.
pub proof fn lemma_decode_truncated_tail(events: Seq<InotifyEventView>, piece: Seq<u8>)
    requires
        all_well_formed(events),
        all_changes(events),
        piece.len() > 0,
        piece.len() < HEADER_LEN || piece.len() < HEADER_LEN + u32_at(piece, 12),
    ensures
        decode(encode_events(events) + piece) == (DecodedView {
            notifications: notifications_of(events),
            end: DecodeEnd::Truncated,
            overflowed: any_overflow(events),
        }),
{
    let whole = encode_events(events);
    let bytes = whole + piece;
    let at = whole.len() as int;
    assert(Seq::<u8>::empty() + whole + piece =~= bytes);
    lemma_decode_encoded_within(Seq::empty(), events, piece);
    if piece.len() >= HEADER_LEN {
        assert(bytes[at + 12] == piece[12]);
        assert(bytes[at + 13] == piece[13]);
        assert(bytes[at + 14] == piece[14]);
        assert(bytes[at + 15] == piece[15]);
        assert(u32_at(bytes, at + 12) == u32_at(piece, 12));
    }
    assert(event_at(bytes, at) is None);
    assert(decode_from(bytes, at) == nothing(DecodeEnd::Truncated));
    lemma_walk_all_changes(events, nothing(DecodeEnd::Truncated));
    assert(notifications_of(events) + Seq::<NotificationView>::empty() =~= notifications_of(
        events,
    ));
}

/// A buffer of well-formed records of changes and nothing else decodes to
/// one notification for each record, in the order of the records.
pub proof fn lemma_decode_all_changes(events: Seq<InotifyEventView>)
    requires
        all_well_formed(events),
        all_changes(events),
    ensures
        decode(encode_events(events)) == (DecodedView {
            notifications: notifications_of(events),
            end: DecodeEnd::Complete,
            overflowed: any_overflow(events),
        }),
{
    lemma_decode_encoded(events);
    lemma_walk_all_changes(events, nothing(DecodeEnd::Complete));
    assert(notifications_of(events) + Seq::<NotificationView>::empty() =~= notifications_of(
        events,
    ));
}

/// A buffer of well-formed records of changes, followed by a well-formed
/// record that says the root is gone, decodes to the notifications of the
/// records in front and ends as `RootInvalidated`: the decoder neither drops
/// what came before nor makes a notification of the record itself.
pub proof fn lemma_decode_root_gone(events: Seq<InotifyEventView>, last: InotifyEventView)
    requires
        all_well_formed(events),
        all_changes(events),
        well_formed(last),
        meaning_of(last.mask) is RootInvalidated,
    ensures
        decode(encode_events(events) + encode_event(last)) == (DecodedView {
            notifications: notifications_of(events),
            end: DecodeEnd::RootInvalidated(meaning_of(last.mask)->RootInvalidated_0),
            overflowed: any_overflow(events),
        }),
{
    let whole = encode_events(events);
    let bytes = whole + encode_event(last);
    let how = meaning_of(last.mask)->RootInvalidated_0;
    assert(Seq::<u8>::empty() + whole + encode_event(last) =~= bytes);
    lemma_decode_encoded_within(Seq::empty(), events, encode_event(last));
    assert(whole + encode_event(last) + Seq::<u8>::empty() =~= bytes);
    lemma_event_at_encoded(whole, last, Seq::empty());
    assert(decode_from(bytes, whole.len() as int) == nothing(DecodeEnd::RootInvalidated(how)));
    lemma_walk_all_changes(events, nothing(DecodeEnd::RootInvalidated(how)));
    assert(notifications_of(events) + Seq::<NotificationView>::empty() =~= notifications_of(
        events,
    ));
}

/// The table of masks, entry by entry; every other mask stands for a change
/// of unknown kind.
pub proof fn lemma_mask_table()
    ensures
        meaning_of(IN_CREATE) == MaskMeaning::Change(FileChange::Created),
        meaning_of(IN_MODIFY) == MaskMeaning::Change(FileChange::Modified),
        meaning_of(IN_ATTRIB) == MaskMeaning::Change(FileChange::Modified),
        meaning_of(IN_CLOSE_WRITE) == MaskMeaning::Change(FileChange::Modified),
        meaning_of(IN_DELETE) == MaskMeaning::Change(FileChange::Deleted),
        meaning_of(IN_MOVED_FROM) == MaskMeaning::Change(FileChange::RenamedFrom),
        meaning_of(IN_MOVED_TO) == MaskMeaning::Change(FileChange::RenamedTo),
        meaning_of(IN_DELETE_SELF) == MaskMeaning::RootInvalidated(RootEvent::Deleted),
        meaning_of(IN_MOVE_SELF) == MaskMeaning::RootInvalidated(RootEvent::Moved),
        forall|mask: u32|
            mask != IN_CREATE && mask != IN_MODIFY && mask != IN_ATTRIB && mask != IN_CLOSE_WRITE
                && mask != IN_DELETE && mask != IN_MOVED_FROM && mask != IN_MOVED_TO && mask
                != IN_DELETE_SELF && mask != IN_MOVE_SELF ==> #[trigger] meaning_of(mask)
                == MaskMeaning::Change(FileChange::Unknown),
{
}

} // verus!

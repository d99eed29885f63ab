//! The queue between the backend's read loop and the consumer.
//!
//! Notifications enter in the order in which they were decoded and leave
//! in that order. Each is held back for a fixed time, [`DEBOUNCE_WINDOW_MS`],
//! counted from its arrival. While it is held, a later notification of the
//! same kind for the same name is merged into it, so that a burst of
//! changes to one file reaches the consumer once.
//!
//! Two things limit the merging. The two halves of a rename are never
//! merged, so that they stay next to each other. And a notification is
//! merged only into the latest one that is pending for its name: if
//! something else happened to that name in between, both are kept.

use crate::watcher::{FileChange, FileChangeNotification, NameView, NotificationView, views};
use std::collections::VecDeque;
use vstd::prelude::*;

verus! {

/// How long a notification is held back, in milliseconds.
pub const DEBOUNCE_WINDOW_MS: u64 = 50;

/// A notification that waits in the queue.
#[derive(Debug)]
struct Pending {
    notification: FileChangeNotification,
    due: u64,
}

/// A waiting notification and the time from which it may leave.
pub struct PendingView {
    pub notification: NotificationView,
    pub due: u64,
}

impl View for Pending {
    type V = PendingView;

    closed spec fn view(&self) -> PendingView {
        PendingView { notification: self.notification@, due: self.due }
    }
}

/// The notifications of a run of queue entries, in the same order.
pub open spec fn notifications_of(queue: Seq<PendingView>) -> Seq<NotificationView> {
    Seq::new(queue.len(), |i: int| queue[i].notification)
}

/// The place of the latest entry for `file`, or -1 where there is none.
pub open spec fn latest_for(queue: Seq<PendingView>, file: NameView) -> int
    decreases queue.len(),
{
    if queue.len() == 0 {
        -1
    } else if queue.last().notification.file == file {
        queue.len() - 1
    } else {
        latest_for(queue.drop_last(), file)
    }
}

/// The kinds that may be merged: every one but the halves of a rename.
pub open spec fn mergeable(action: FileChange) -> bool {
    action != FileChange::RenamedFrom && action != FileChange::RenamedTo
}

/// Whether a notification that arrives at `now` is merged into one that
/// is pending: it is of a kind that may be merged, the latest entry for
/// its name is of the same kind, and that entry is still held back.
pub open spec fn absorbed(queue: Seq<PendingView>, notification: NotificationView, now: u64)
    -> bool {
    let at = latest_for(queue, notification.file);
    &&& mergeable(notification.action)
    &&& at >= 0
    &&& queue[at].notification.action == notification.action
    &&& now < queue[at].due
}

/// The time from which a notification that arrives at `now` may leave: the
/// window later, but not before the entry in front of it, and not beyond
/// the largest time there is.
pub open spec fn due_after(queue: Seq<PendingView>, now: u64) -> u64 {
    let fresh: u64 = if now <= u64::MAX - DEBOUNCE_WINDOW_MS {
        (now + DEBOUNCE_WINDOW_MS) as u64
    } else {
        u64::MAX
    };
    if queue.len() > 0 && queue.last().due > fresh {
        queue.last().due
    } else {
        fresh
    }
}

/// The queue after a notification arrived at `now`.
pub open spec fn offered(queue: Seq<PendingView>, notification: NotificationView, now: u64) -> Seq<
    PendingView,
> {
    if absorbed(queue, notification, now) {
        queue
    } else {
        queue.push(PendingView { notification, due: due_after(queue, now) })
    }
}

/// The number of entries at the front of the queue that may leave at `now`.
pub open spec fn ripe(queue: Seq<PendingView>, now: u64) -> nat
    decreases queue.len(),
{
    if queue.len() > 0 && queue[0].due <= now {
        1 + ripe(queue.drop_first(), now)
    } else {
        0
    }
}

/// No entry may leave before one in front of it.
pub open spec fn in_order(queue: Seq<PendingView>) -> bool {
    forall|i: int, j: int| 0 <= i <= j < queue.len() ==> queue[i].due <= queue[j].due
}

/// The queue of notifications on their way to the consumer.
#[derive(Debug)]
pub struct DispatchQueue {
    pending: VecDeque<Pending>,
}

impl View for DispatchQueue {
    type V = Seq<PendingView>;

    closed spec fn view(&self) -> Seq<PendingView> {
        Seq::new(self.pending@.len(), |i: int| self.pending@[i]@)
    }
}

impl DispatchQueue {
    /// An empty queue.
    pub fn new() -> (queue: DispatchQueue)
        ensures
            queue@ == Seq::<PendingView>::empty(),
    {
        let queue = DispatchQueue { pending: VecDeque::new() };
        assert(queue@ =~= Seq::<PendingView>::empty());
        queue
    }

    /// The number of notifications that wait.
    pub fn len(&self) -> (count: usize)
        ensures
            count == self@.len(),
    {
        self.pending.len()
    }

    pub fn is_empty(&self) -> (empty: bool)
        ensures
            empty == (self@.len() == 0),
    {
        self.pending.len() == 0
    }

    /// The time from which the notification at the front may leave, or
    /// `None` where nothing waits.
    pub fn next_due(&self) -> (due: Option<u64>)
        ensures
            due == (if self@.len() > 0 {
                Some(self@[0].due)
            } else {
                None
            }),
    {
        if self.pending.len() > 0 {
            Some(self.pending[0].due)
        } else {
            None
        }
    }

    /// Takes in a notification that arrived at `now`, and says whether it
    /// was queued (`true`) or merged into one that was waiting (`false`).
    pub fn offer(&mut self, notification: FileChangeNotification, now: u64) -> (queued: bool)
        ensures
            final(self)@ == offered(old(self)@, notification@, now),
            queued == !absorbed(old(self)@, notification@, now),
            in_order(old(self)@) ==> in_order(final(self)@),
    {
        let ghost queue = self@;
        let ghost file = notification@.file;
        let count: usize = self.pending.len();
        let mut i: usize = count;
        let mut found: Option<usize> = None;
        assert(queue.take(count as int) =~= queue);
        while i > 0 && found.is_none()
            invariant
                self@ == queue,
                count == queue.len(),
                self.pending@.len() == count,
                file == notification@.file,
                i <= count,
                found is None ==> latest_for(queue, file) == latest_for(queue.take(i as int), file),
                match found {
                    Some(at) => at < count && latest_for(queue, file) == at,
                    None => true,
                },
            decreases i + (if found is None { 1int } else { 0int }),
        {
            i -= 1;
            assert(queue.take(i + 1).drop_last() =~= queue.take(i as int));
            assert(queue.take(i + 1).last() == queue[i as int]);
            if self.pending[i].notification.file.same_as(&notification.file) {
                found = Some(i);
            }
        }
        let merges = match notification.action {
            FileChange::RenamedFrom | FileChange::RenamedTo => false,
            _ => true,
        };
        let absorb = merges && match found {
            Some(at) => self.pending[at].notification.action == notification.action && now
                < self.pending[at].due,
            None => false,
        };
        assert(found is None ==> latest_for(queue, file) == -1) by {
            assert(queue.take(0) =~= Seq::<PendingView>::empty());
        }
        if absorb {
            return false;
        }
        let fresh: u64 = if now <= u64::MAX - DEBOUNCE_WINDOW_MS {
            now + DEBOUNCE_WINDOW_MS
        } else {
            u64::MAX
        };
        let due: u64 = if count > 0 && self.pending[count - 1].due > fresh {
            self.pending[count - 1].due
        } else {
            fresh
        };
        self.pending.push_back(Pending { notification, due });
        assert(self@ =~= queue.push(PendingView { notification: notification@, due }));
        true
    }

    /// Takes out, in their order, the notifications at the front that may
    /// leave at `now`. The others stay as they are.
    pub fn take_due(&mut self, now: u64) -> (due: Vec<FileChangeNotification>)
        ensures
            views(due@) == notifications_of(old(self)@.take(ripe(old(self)@, now) as int)),
            final(self)@ == old(self)@.skip(ripe(old(self)@, now) as int),
            in_order(old(self)@) ==> in_order(final(self)@),
    {
        let ghost queue = self@;
        let mut due: Vec<FileChangeNotification> = Vec::new();
        let mut ready: bool = self.pending.len() > 0 && self.pending[0].due <= now;
        assert(queue.skip(0) =~= queue);
        assert(views(due@) =~= notifications_of(queue.take(0)));
        while ready
            invariant
                due@.len() <= queue.len(),
                self@ == queue.skip(due@.len() as int),
                views(due@) == notifications_of(queue.take(due@.len() as int)),
                due@.len() + ripe(self@, now) == ripe(queue, now),
                ready == (self@.len() > 0 && self@[0].due <= now),
            decreases self@.len() + (if ready { 1int } else { 0int }),
        {
            let ghost before = self@;
            let ghost taken = due@;
            let front = self.pending.pop_front();
            match front {
                Some(entry) => {
                    assert(self@ =~= before.drop_first());
                    assert(self@ =~= queue.skip(taken.len() as int + 1));
                    assert(entry@ == before[0]);
                    assert(before[0] == queue[taken.len() as int]);
                    due.push(entry.notification);
                    assert(due@.last()@ == queue[taken.len() as int].notification);
                    assert forall|j: int| 0 <= j < due@.len() implies views(due@)[j]
                        == notifications_of(queue.take(taken.len() as int + 1))[j] by {
                        if j < taken.len() {
                            assert(due@[j] == taken[j]);
                            assert(views(taken)[j] == notifications_of(
                                queue.take(taken.len() as int),
                            )[j]);
                        }
                    }
                    assert(views(due@) =~= notifications_of(queue.take(taken.len() as int + 1)));
                },
                None => {},
            }
            ready = self.pending.len() > 0 && self.pending[0].due <= now;
        }
        due
    }

    /// Takes out every notification, in order, whether it may leave yet or
    /// not: what a session that ends still owes its consumer.
    pub fn drain(&mut self) -> (all: Vec<FileChangeNotification>)
        ensures
            views(all@) == notifications_of(old(self)@),
            final(self)@ == Seq::<PendingView>::empty(),
    {
        let ghost queue = self@;
        let mut all: Vec<FileChangeNotification> = Vec::new();
        assert(queue.skip(0) =~= queue);
        assert(views(all@) =~= notifications_of(queue.take(0)));
        while self.pending.len() > 0
            invariant
                all@.len() <= queue.len(),
                self@ == queue.skip(all@.len() as int),
                views(all@) == notifications_of(queue.take(all@.len() as int)),
            decreases self@.len(),
        {
            let ghost before = self@;
            let ghost taken = all@;
            let front = self.pending.pop_front();
            match front {
                Some(entry) => {
                    assert(self@ =~= before.drop_first());
                    assert(self@ =~= queue.skip(taken.len() as int + 1));
                    assert(entry@ == before[0]);
                    assert(before[0] == queue[taken.len() as int]);
                    all.push(entry.notification);
                    assert(all@.last()@ == queue[taken.len() as int].notification);
                    assert forall|j: int| 0 <= j < all@.len() implies views(all@)[j]
                        == notifications_of(queue.take(taken.len() as int + 1))[j] by {
                        if j < taken.len() {
                            assert(all@[j] == taken[j]);
                            assert(views(taken)[j] == notifications_of(
                                queue.take(taken.len() as int),
                            )[j]);
                        }
                    }
                    assert(views(all@) =~= notifications_of(queue.take(taken.len() as int + 1)));
                },
                None => {},
            }
        }
        assert(queue.take(queue.len() as int) =~= queue);
        assert(self@ =~= Seq::<PendingView>::empty());
        all
    }
}

/// In a queue that is in order, what may leave at `now` is exactly what
/// is due by then: every entry that leaves is due, and every entry that
/// stays is not.
pub proof fn lemma_ripe_is_all_that_is_due(queue: Seq<PendingView>, now: u64)
    requires
        in_order(queue),
    ensures
        ripe(queue, now) <= queue.len(),
        forall|i: int| 0 <= i < ripe(queue, now) ==> (#[trigger] queue[i]).due <= now,
        forall|i: int| ripe(queue, now) <= i < queue.len() ==> (#[trigger] queue[i]).due > now,
    decreases queue.len(),
{
    if queue.len() > 0 && queue[0].due <= now {
        let rest = queue.drop_first();
        assert forall|i: int, j: int| 0 <= i <= j < rest.len() implies rest[i].due
            <= rest[j].due by {
            assert(rest[i] == queue[i + 1] && rest[j] == queue[j + 1]);
        }
        lemma_ripe_is_all_that_is_due(rest, now);
        assert forall|i: int| 0 <= i < ripe(queue, now) implies (#[trigger] queue[i]).due
            <= now by {
            if i > 0 {
                assert(queue[i] == rest[i - 1]);
            }
        }
        assert forall|i: int| ripe(queue, now) <= i < queue.len() implies (#[trigger] queue[i]).due
            > now by {
            assert(queue[i] == rest[i - 1]);
        }
    }
}

/// The place that [`latest_for`] gives holds an entry for the name, and no
/// entry behind it is for that name.
pub proof fn lemma_latest_for(queue: Seq<PendingView>, file: NameView)
    ensures
        -1 <= latest_for(queue, file) < queue.len(),
        latest_for(queue, file) >= 0 ==> queue[latest_for(queue, file)].notification.file == file,
        forall|i: int|
            latest_for(queue, file) < i < queue.len() ==> (#[trigger] queue[i]).notification.file
                != file,
    decreases queue.len(),
{
    if queue.len() > 0 && queue.last().notification.file != file {
        let front = queue.drop_last();
        lemma_latest_for(front, file);
        assert forall|i: int| latest_for(queue, file) < i < queue.len() implies (
        #[trigger] queue[i]).notification.file != file by {
            if i < front.len() {
                assert(queue[i] == front[i]);
            }
        }
    }
}

/// Nothing that arrives is lost or put in front of what was there: the
/// queue as it was is the front of the queue as it is, and a notification
/// equal to the one that arrived waits in it. It was either queued at the
/// back, to leave no sooner than the window after its arrival, or an equal
/// one was waiting.
pub proof fn lemma_offer_keeps_every_notification(
    queue: Seq<PendingView>,
    notification: NotificationView,
    now: u64,
)
    ensures
        ({
            let after = offered(queue, notification, now);
            &&& after.take(queue.len() as int) == queue
            &&& exists|i: int| 0 <= i < after.len() && (#[trigger] after[i]).notification
                == notification
            &&& !absorbed(queue, notification, now) ==> after.len() == queue.len() + 1
                && after.last().notification == notification && (after.last().due - now
                >= DEBOUNCE_WINDOW_MS || after.last().due == u64::MAX)
        }),
{
    let after = offered(queue, notification, now);
    assert(after.take(queue.len() as int) =~= queue);
    if absorbed(queue, notification, now) {
        lemma_latest_for(queue, notification.file);
        let at = latest_for(queue, notification.file);
        assert(after[at].notification == notification);
    } else {
        assert(after[queue.len() as int].notification == notification);
    }
}

/// The two halves of a rename, arriving one after the other, wait next to
/// each other at the back of the queue, whatever was waiting before them
/// and whenever they arrive.
pub proof fn lemma_rename_halves_stay_together(
    queue: Seq<PendingView>,
    old_name: NameView,
    new_name: NameView,
    first: u64,
    second: u64,
)
    ensures
        ({
            let from = NotificationView { action: FileChange::RenamedFrom, file: old_name };
            let to = NotificationView { action: FileChange::RenamedTo, file: new_name };
            let after = offered(offered(queue, from, first), to, second);
            &&& after.len() == queue.len() + 2
            &&& after.take(queue.len() as int) == queue
            &&& after[queue.len() as int].notification == from
            &&& after[queue.len() as int + 1].notification == to
        }),
{
    let from = NotificationView { action: FileChange::RenamedFrom, file: old_name };
    let to = NotificationView { action: FileChange::RenamedTo, file: new_name };
    let after = offered(offered(queue, from, first), to, second);
    assert(after.take(queue.len() as int) =~= queue);
}

} // verus!

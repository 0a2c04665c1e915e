//! Short messages to the user, each shown for a few seconds.

use vstd::prelude::*;

verus! {

/// A message.
#[derive(Debug, PartialEq, Eq)]
pub enum Notification {
    Error(String),
    Info(String),
    Success(String),
}

/// What a message says.
pub enum NotificationView {
    Error { text: Seq<char> },
    Info { text: Seq<char> },
    Success { text: Seq<char> },
}

impl View for Notification {
    type V = NotificationView;

    open spec fn view(&self) -> NotificationView {
        match self {
            Notification::Error(text) => NotificationView::Error { text: text@ },
            Notification::Info(text) => NotificationView::Info { text: text@ },
            Notification::Success(text) => NotificationView::Success { text: text@ },
        }
    }
}

/// The nanoseconds that a message is shown.
pub const NOTIFICATION_TIME: u128 = 5_000_000_000;

/// A message and the instant at which it came, in nanoseconds.
pub struct Entry {
    pub notification: Notification,
    pub instant: u128,
}

/// The nanoseconds that have passed since a message came; none before that.
pub open spec fn elapsed(instant: u128, now: u128) -> int {
    if now > instant {
        now - instant
    } else {
        0
    }
}

/// The messages that are still shown.
pub open spec fn still_shown(now: u128) -> spec_fn(Entry) -> bool {
    |entry: Entry| elapsed(entry.instant, now) < NOTIFICATION_TIME
}

/// The messages that are shown, the oldest first.
pub struct NotificationList {
    notifications: Vec<Entry>,
}

impl Default for NotificationList {
    fn default() -> (r: NotificationList)
        ensures
            r.entries() == Seq::<Entry>::empty(),
    {
        NotificationList { notifications: Vec::new() }
    }
}

impl NotificationList {
    /// The messages.
    pub closed spec fn entries(&self) -> Seq<Entry> {
        self.notifications@
    }

    pub fn new() -> (r: Self)
        ensures
            r.entries().len() == 0,
    {
        NotificationList { notifications: Vec::new() }
    }

    pub fn push(&mut self, notification: Notification, now: u128)
        ensures
            final(self).entries() == old(self).entries().push(
                Entry { notification, instant: now },
            ),
    {
        self.notifications.push(Entry { notification, instant: now });
    }

    /// Drops the messages that were shown long enough and tells whether there were any.
    pub fn tick(&mut self, now: u128) -> (r: bool)
        ensures
            final(self).entries() == old(self).entries().filter(still_shown(now)),
            r <==> final(self).entries().len() != old(self).entries().len(),
    {
        let ghost all = self.notifications@;
        let before: usize = self.notifications.len();
        let mut kept: Vec<Entry> = Vec::new();
        let mut rest: Vec<Entry> = Vec::new();
        std::mem::swap(&mut rest, &mut self.notifications);
        for entry in it: rest
            invariant
                it.seq() == all,
                kept@ == all.take(it.index()).filter(still_shown(now)),
        {
            proof {
                reveal(Seq::filter);
                assert(all.take(it.index() + 1).drop_last() =~= all.take(it.index()));
            }
            if now.saturating_sub(entry.instant) < NOTIFICATION_TIME {
                kept.push(entry);
            }
        }
        assert(all.take(all.len() as int) =~= all);
        let after: usize = kept.len();
        self.notifications = kept;
        before != after
    }

    pub fn notifications(&self) -> (r: Vec<&Notification>)
        ensures
            r@.len() == self.entries().len(),
            forall|i: int|
                0 <= i < r@.len() ==> *#[trigger] r@[i] == self.entries()[i].notification,
    {
        let mut r: Vec<&Notification> = Vec::new();
        for i in 0..self.notifications.len()
            invariant
                r@.len() == i,
                forall|j: int|
                    0 <= j < i ==> *#[trigger] r@[j] == self.notifications@[j].notification,
        {
            r.push(&self.notifications[i].notification);
        }
        r
    }
}

/// A message is shown until its time is over, whatever ticks come before.
pub proof fn law_a_message_stays_for_its_time(entries: Seq<Entry>, entry: Entry, now: u128)
    requires
        entries.contains(entry),
    ensures
        entries.filter(still_shown(now)).contains(entry) <==> elapsed(entry.instant, now)
            < NOTIFICATION_TIME,
{
    let p = still_shown(now);
    let i = choose|i: int| 0 <= i < entries.len() && entries[i] == entry;
    if p(entry) {
        entries.lemma_filter_contains(p, i);
    }
    if entries.filter(p).contains(entry) {
        let k = choose|k: int| 0 <= k < entries.filter(p).len() && entries.filter(p)[k] == entry;
        entries.lemma_filter_pred(p, k);
    }
}

} // verus!

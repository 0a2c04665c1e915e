//! The page that shows the queue: a row for each item, in the order of the queue, and what
//! happens when a row is dragged.

use vstd::prelude::*;
use crate::models::TrackStatus;
use crate::tracklist::{picked, QueueItem, Tracklist};

verus! {

/// What is done to the rows of the page. A row is named by the id of its item in the queue.
#[derive(Clone, Copy, Debug, PartialEq, Eq, Structural)]
pub enum RowAction {
    /// The row is taken from the page and forgotten.
    Remove { row: u64 },
    /// A row is built for the item at a place in the queue.
    Build { index: usize },
    /// The row is shown as played, or not.
    Dim { row: u64, dimmed: bool },
    /// The row, which is not on the page, is put at a place.
    Insert { row: u64, place: i32 },
    /// The row is taken from its place and put at another.
    Move { row: u64, place: i32 },
    /// The row is the one that is chosen.
    Select { row: u64 },
    /// No row is chosen.
    Unselect,
}

/// The rows that there are, those on the page in their order, and what was done to them.
pub struct Rows {
    pub rows: Seq<u64>,
    pub shown: Seq<u64>,
    pub done: Seq<RowAction>,
}

/// The ids of items.
pub open spec fn ids(items: Seq<QueueItem>) -> Seq<u64> {
    Seq::new(items.len(), |i: int| items[i].queue_id)
}

/// No row occurs twice, and those on the page are rows.
pub open spec fn rows_ok(rows: Seq<u64>, shown: Seq<u64>) -> bool {
    &&& rows.no_duplicates()
    &&& shown.no_duplicates()
    &&& forall|id: u64| #[trigger] shown.contains(id) ==> rows.contains(id)
}

/// A list of ids without one of them.
pub open spec fn without_id(list: Seq<u64>, id: u64) -> Seq<u64>
    decreases list.len(),
{
    if list.len() == 0 {
        Seq::empty()
    } else if list.last() == id {
        without_id(list.drop_last(), id)
    } else {
        without_id(list.drop_last(), id).push(list.last())
    }
}

/// A row is taken from the page and forgotten.
pub open spec fn removed(r: Rows, id: u64) -> Rows {
    Rows {
        rows: without_id(r.rows, id),
        shown: without_id(r.shown, id),
        done: r.done.push(RowAction::Remove { row: id }),
    }
}

/// The rows of ids that are no longer in the queue are removed.
pub open spec fn purged(all: Seq<u64>, wanted: Seq<u64>, start: Rows) -> Rows
    decreases all.len(),
{
    if all.len() == 0 {
        start
    } else {
        let before = purged(all.drop_last(), wanted, start);
        if wanted.contains(all.last()) {
            before
        } else {
            removed(before, all.last())
        }
    }
}

/// The track that an id stood for; the last where it stood for several.
pub open spec fn track_of(items: Seq<QueueItem>, id: u64) -> Option<u32>
    decreases items.len(),
{
    if items.len() == 0 {
        None
    } else if items.last().queue_id == id {
        Some(items.last().track.id)
    } else {
        track_of(items.drop_last(), id)
    }
}

/// A row is there for the item at a place: the old one where it is of the same track, else a new
/// one.
pub open spec fn with_row_for(
    old_items: Seq<QueueItem>,
    items: Seq<QueueItem>,
    index: int,
    r: Rows,
) -> Rows {
    let id = items[index].queue_id;
    let stale = track_of(old_items, id) matches Some(track) && track != items[index].track.id
        && r.rows.contains(id);
    let kept = if stale {
        removed(r, id)
    } else {
        r
    };
    if kept.rows.contains(id) {
        kept
    } else {
        Rows {
            rows: kept.rows.push(id),
            done: kept.done.push(RowAction::Build { index: index as usize }),
            ..kept
        }
    }
}

/// Rows are there for the first `count` items.
pub open spec fn with_rows(
    old_items: Seq<QueueItem>,
    items: Seq<QueueItem>,
    count: int,
    start: Rows,
) -> Rows
    decreases count,
{
    if count <= 0 {
        start
    } else {
        with_row_for(old_items, items, count - 1, with_rows(old_items, items, count - 1, start))
    }
}

/// Each row is shown as played or not.
pub open spec fn dimmed(items: Seq<QueueItem>, count: int, start: Rows) -> Rows
    decreases count,
{
    if count <= 0 {
        start
    } else {
        let before = dimmed(items, count - 1, start);
        let item = items[count - 1];
        if before.rows.contains(item.queue_id) {
            Rows {
                done: before.done.push(
                    RowAction::Dim {
                        row: item.queue_id,
                        dimmed: item.track.status == TrackStatus::Played,
                    },
                ),
                ..before
            }
        } else {
            before
        }
    }
}

/// The row at a place of the page, or behind the last.
pub open spec fn put_at(shown: Seq<u64>, place: int, id: u64) -> Seq<u64> {
    if place <= shown.len() {
        shown.insert(place, id)
    } else {
        shown.push(id)
    }
}

/// The row of an id stands at a place of the page.
pub open spec fn with_row_at(id: u64, place: int, r: Rows) -> Rows {
    if !r.rows.contains(id) {
        r
    } else if !r.shown.contains(id) {
        Rows {
            shown: put_at(r.shown, place, id),
            done: r.done.push(RowAction::Insert { row: id, place: place as i32 }),
            ..r
        }
    } else if !(0 <= place < r.shown.len() && r.shown[place] == id) {
        Rows {
            shown: put_at(without_id(r.shown, id), place, id),
            done: r.done.push(RowAction::Move { row: id, place: place as i32 }),
            ..r
        }
    } else {
        r
    }
}

/// The rows of the first `count` items stand in their order. A page has no places past the
/// largest number of its kind.
pub open spec fn arranged(all: Seq<u64>, count: int, start: Rows) -> Rows
    decreases count,
{
    if count <= 0 {
        start
    } else {
        let before = arranged(all, count - 1, start);
        if count - 1 > i32::MAX {
            before
        } else {
            with_row_at(all[count - 1], count - 1, before)
        }
    }
}

/// The last of the items that is playing and has a row.
pub open spec fn playing_row(items: Seq<QueueItem>, rows: Seq<u64>) -> Option<u64>
    decreases items.len(),
{
    if items.len() == 0 {
        None
    } else {
        let item = items.last();
        if item.track.status == TrackStatus::Playing && rows.contains(item.queue_id) {
            Some(item.queue_id)
        } else {
            playing_row(items.drop_last(), rows)
        }
    }
}

/// The rows look as the items are, stand in their order, and that of the playing one is chosen.
pub open spec fn refreshed(items: Seq<QueueItem>, start: Rows) -> Rows {
    let looked = dimmed(items, items.len() as int, start);
    let placed = arranged(ids(items), items.len() as int, looked);
    Rows {
        done: placed.done.push(
            match playing_row(items, start.rows) {
                Some(row) => RowAction::Select { row },
                None => RowAction::Unselect,
            },
        ),
        ..placed
    }
}

/// The rows of a queue that changed.
pub open spec fn synchronized(
    old_items: Seq<QueueItem>,
    items: Seq<QueueItem>,
    rows: Seq<u64>,
    shown: Seq<u64>,
) -> Rows {
    let start = Rows { rows, shown, done: Seq::empty() };
    refreshed(
        items,
        with_rows(old_items, items, items.len() as int, purged(rows, ids(items), start)),
    )
}

/// All rows of a queue, built anew.
pub open spec fn all_removed(all: Seq<u64>, start: Rows) -> Rows
    decreases all.len(),
{
    if all.len() == 0 {
        start
    } else {
        let before = all_removed(all.drop_last(), start);
        Rows { done: before.done.push(RowAction::Remove { row: all.last() }), ..before }
    }
}

/// A row is built for each of the first `count` items.
pub open spec fn all_built(items: Seq<QueueItem>, count: int, start: Rows) -> Rows
    decreases count,
{
    if count <= 0 {
        start
    } else {
        let before = all_built(items, count - 1, start);
        let id = items[count - 1].queue_id;
        Rows {
            rows: if before.rows.contains(id) {
                before.rows
            } else {
                before.rows.push(id)
            },
            done: before.done.push(RowAction::Build { index: (count - 1) as usize }),
            ..before
        }
    }
}

/// The rows of a queue whose rows are all built anew.
pub open spec fn rebuilt(items: Seq<QueueItem>, rows: Seq<u64>) -> Rows {
    let cleared = all_removed(rows, Rows { rows: Seq::empty(), shown: Seq::empty(), done: Seq::empty() });
    refreshed(items, all_built(items, items.len() as int, cleared))
}

fn contains_id(list: &Vec<u64>, id: u64) -> (r: bool)
    ensures
        r == list@.contains(id),
{
    for i in 0..list.len()
        invariant
            forall|j: int| 0 <= j < i ==> #[trigger] list@[j] != id,
    {
        if list[i] == id {
            assert(list@[i as int] == id);
            return true;
        }
    }
    false
}

fn drop_id(list: &mut Vec<u64>, id: u64)
    ensures
        final(list)@ == without_id(old(list)@, id),
{
    let ghost all = list@;
    let total: usize = list.len();
    let mut kept: Vec<u64> = Vec::new();
    assert(kept@ =~= without_id(all.take(0), id));
    for i in 0..total
        invariant
            list@ == all,
            total == list@.len(),
            kept@ == without_id(all.take(i as int), id),
    {
        assert(all.take(i + 1).drop_last() =~= all.take(i as int));
        if list[i] != id {
            kept.push(list[i]);
        }
    }
    assert(all.take(total as int) =~= all);
    *list = kept;
}

fn item_track(items: &Vec<QueueItem>, id: u64) -> (r: Option<u32>)
    ensures
        r == track_of(items@, id),
{
    let mut found: Option<u32> = None;
    for i in 0..items.len()
        invariant
            found == track_of(items@.take(i as int), id),
    {
        assert(items@.take(i + 1).drop_last() =~= items@.take(i as int));
        if items[i].queue_id == id {
            found = Some(items[i].track.id);
        }
    }
    assert(items@.take(items@.len() as int) =~= items@);
    found
}

/// The page of the queue.
pub struct QueuePage {
    queue_items: Vec<QueueItem>,
    rows: Vec<u64>,
    shown: Vec<u64>,
}

/// What happened when a row was dropped on another.
pub enum DropOutcome {
    /// The row cannot be dropped there.
    Refused,
    /// The row stands there already.
    Unmoved,
    /// The queue gets a new order.
    Reordered { order: Vec<usize>, actions: Vec<RowAction> },
}

/// The place of a row that is dropped on another: before it, as it stands once the row is taken
/// from its own place, and within the queue.
pub open spec fn drop_place(from: int, to: int, count: int) -> int {
    let shifted = if from < to {
        to - 1
    } else {
        to
    };
    if shifted < count - 1 {
        shifted
    } else {
        count - 1
    }
}

/// An item taken from one place and put at another.
pub open spec fn item_moved<T>(list: Seq<T>, from: int, to: int) -> Seq<T> {
    list.remove(from).insert(to, list[from])
}

/// The places of a queue in their order.
pub open spec fn places(count: nat) -> Seq<usize> {
    Seq::new(count, |i: int| i as usize)
}

/// Takes a value from one place and puts it at another, or behind the last. A place that is not
/// there is left alone.
pub fn move_index(vec: &mut Vec<usize>, from: usize, to: usize)
    ensures
        final(vec)@ == if from < old(vec)@.len() {
            item_moved(
                old(vec)@,
                from as int,
                if to < old(vec)@.len() {
                    to as int
                } else {
                    old(vec)@.len() - 1
                },
            )
        } else {
            old(vec)@
        },
{
    if from >= vec.len() {
        return ;
    }
    let value: usize = vec.remove(from);
    let place: usize = if to < vec.len() {
        to
    } else {
        vec.len()
    };
    vec.insert(place, value);
}

impl QueuePage {
    /// The items of the queue.
    pub closed spec fn items(&self) -> Seq<QueueItem> {
        self.queue_items@
    }

    /// The ids of the items that have a row.
    pub closed spec fn row_ids(&self) -> Seq<u64> {
        self.rows@
    }

    /// The rows on the page, in their order.
    pub closed spec fn page(&self) -> Seq<u64> {
        self.shown@
    }

    /// No row occurs twice, and those on the page are rows.
    pub open spec fn wf(&self) -> bool {
        rows_ok(self.row_ids(), self.page())
    }

    pub fn new() -> (r: Self)
        ensures
            r.wf(),
            r.items().len() == 0,
            r.row_ids().len() == 0,
            r.page().len() == 0,
    {
        QueuePage { queue_items: Vec::new(), rows: Vec::new(), shown: Vec::new() }
    }

    /// The place in the queue of a row that was activated.
    pub fn activated(&self, index: i32) -> (r: Option<usize>)
        ensures
            r == if index >= 0 {
                Some(index as usize)
            } else {
                None
            },
    {
        if index >= 0 {
            Some(index as usize)
        } else {
            None
        }
    }

    /// Shows another queue.
    pub fn load(&mut self, tracklist: &Tracklist) -> (r: Vec<RowAction>)
        ensures
            old(self).wf() ==> final(self).wf(),
            final(self).items() == tracklist.items(),
            ({
                let after = synchronized(
                    old(self).items(),
                    tracklist.items(),
                    old(self).row_ids(),
                    old(self).page(),
                );
                final(self).row_ids() == after.rows && final(self).page() == after.shown && r@
                    == after.done
            }),
    {
        let queue = tracklist.queue();
        let mut items: Vec<QueueItem> = Vec::new();
        for i in 0..queue.len()
            invariant
                queue@.len() == tracklist.items().len(),
                forall|j: int| 0 <= j < queue@.len() ==> *#[trigger] queue@[j] == tracklist.items()[j],
                items@ == tracklist.items().take(i as int),
        {
            let item: QueueItem = queue[i].clone();
            items.push(item);
            assert(items@ =~= tracklist.items().take(i + 1));
        }
        assert(items@ =~= tracklist.items());
        self.sync_queue_list(items)
    }

    /// Brings the rows in line with the items of a queue.
    pub fn sync_queue_list(&mut self, items: Vec<QueueItem>) -> (r: Vec<RowAction>)
        ensures
            old(self).wf() ==> final(self).wf(),
            final(self).items() == items@,
            ({
                let after = synchronized(
                    old(self).items(),
                    items@,
                    old(self).row_ids(),
                    old(self).page(),
                );
                final(self).row_ids() == after.rows && final(self).page() == after.shown && r@
                    == after.done
            }),
    {
        let mut done: Vec<RowAction> = Vec::new();
        let ghost start = Rows { rows: self.rows@, shown: self.shown@, done: done@ };
        assert(start.done =~= Seq::<RowAction>::empty());
        self.purge_rows(&items, &mut done);
        let ghost cleaned = purged(start.rows, ids(items@), start);
        for i in 0..items.len()
            invariant
                self.queue_items@ == old(self).queue_items@,
                (Rows { rows: self.rows@, shown: self.shown@, done: done@ }) == with_rows(
                    self.queue_items@,
                    items@,
                    i as int,
                    cleaned,
                ),
        {
            let id: u64 = items[i].queue_id;
            let stale = match item_track(&self.queue_items, id) {
                Some(track) => track != items[i].track.id,
                None => false,
            };
            if stale && contains_id(&self.rows, id) {
                drop_id(&mut self.rows, id);
                drop_id(&mut self.shown, id);
                done.push(RowAction::Remove { row: id });
            }
            if !contains_id(&self.rows, id) {
                self.rows.push(id);
                done.push(RowAction::Build { index: i });
            }
        }
        self.refresh_rows(&items, &mut done);
        proof {
            if old(self).wf() {
                lemma_synchronized_keeps(
                    old(self).items(),
                    items@,
                    old(self).row_ids(),
                    old(self).page(),
                );
            }
        }
        self.queue_items = items;
        done
    }

    /// Removes the rows of items that are not in the queue.
    fn purge_rows(&mut self, items: &Vec<QueueItem>, done: &mut Vec<RowAction>)
        ensures
            final(self).queue_items == old(self).queue_items,
            (Rows { rows: final(self).rows@, shown: final(self).shown@, done: final(done)@ })
                == purged(
                old(self).rows@,
                ids(items@),
                (Rows { rows: old(self).rows@, shown: old(self).shown@, done: old(done)@ }),
            ),
    {
        let ghost start = Rows { rows: self.rows@, shown: self.shown@, done: done@ };
        let mut all: Vec<u64> = Vec::new();
        for i in 0..self.rows.len()
            invariant
                all@ == self.rows@.take(i as int),
        {
            all.push(self.rows[i]);
            assert(all@ =~= self.rows@.take(i + 1));
        }
        assert(all@ =~= self.rows@);
        let ghost wanted = ids(items@);
        for i in 0..all.len()
            invariant
                wanted == ids(items@),
                self.queue_items == old(self).queue_items,
                (Rows { rows: self.rows@, shown: self.shown@, done: done@ }) == purged(
                    all@.take(i as int),
                    wanted,
                    start,
                ),
        {
            assert(all@.take(i + 1).drop_last() =~= all@.take(i as int));
            let id: u64 = all[i];
            let mut found = false;
            for j in 0..items.len()
                invariant
                    wanted == ids(items@),
                    found <==> exists|k: int| 0 <= k < j && #[trigger] wanted[k] == id,
            {
                assert(wanted[j as int] == items@[j as int].queue_id);
                if items[j].queue_id == id {
                    found = true;
                }
            }
            assert(found == wanted.contains(id));
            if !found {
                drop_id(&mut self.rows, id);
                drop_id(&mut self.shown, id);
                done.push(RowAction::Remove { row: id });
            }
        }
        assert(all@.take(all@.len() as int) =~= all@);
    }

    /// Builds all rows anew.
    pub fn sync_existing_queue_list(&mut self) -> (r: Vec<RowAction>)
        ensures
            final(self).wf(),
            final(self).items() == old(self).items(),
            ({
                let after = rebuilt(old(self).items(), old(self).row_ids());
                final(self).row_ids() == after.rows && final(self).page() == after.shown && r@
                    == after.done
            }),
    {
        let mut done: Vec<RowAction> = Vec::new();
        let ghost start = Rows { rows: Seq::empty(), shown: Seq::empty(), done: Seq::empty() };
        let total: usize = self.rows.len();
        assert(done@ =~= Seq::<RowAction>::empty());
        for i in 0..total
            invariant
                total == self.rows@.len(),
                *self == *old(self),
                (Rows { rows: Seq::empty(), shown: Seq::empty(), done: done@ }) == all_removed(
                    self.rows@.take(i as int),
                    start,
                ),
        {
            assert(self.rows@.take(i + 1).drop_last() =~= self.rows@.take(i as int));
            done.push(RowAction::Remove { row: self.rows[i] });
        }
        assert(self.rows@.take(total as int) =~= self.rows@);
        let ghost cleared = all_removed(self.rows@, start);
        let mut items: Vec<QueueItem> = Vec::new();
        std::mem::swap(&mut items, &mut self.queue_items);
        self.rows = Vec::new();
        self.shown = Vec::new();
        assert((Rows { rows: self.rows@, shown: self.shown@, done: done@ }) == all_built(
            items@,
            0,
            cleared,
        )) by {
            assert(self.rows@ =~= Seq::<u64>::empty());
            assert(self.shown@ =~= Seq::<u64>::empty());
        }
        for i in 0..items.len()
            invariant
                (Rows { rows: self.rows@, shown: self.shown@, done: done@ }) == all_built(
                    items@,
                    i as int,
                    cleared,
                ),
        {
            let id: u64 = items[i].queue_id;
            if !contains_id(&self.rows, id) {
                self.rows.push(id);
            }
            done.push(RowAction::Build { index: i });
        }
        self.refresh_rows(&items, &mut done);
        proof {
            lemma_rebuilt_keeps(items@, old(self).row_ids());
        }
        self.queue_items = items;
        done
    }

    /// Makes the rows look as the items are and stand in their order.
    fn refresh_rows(&mut self, items: &Vec<QueueItem>, done: &mut Vec<RowAction>)
        ensures
            final(self).queue_items == old(self).queue_items,
            (Rows { rows: final(self).rows@, shown: final(self).shown@, done: final(done)@ })
                == refreshed(
                items@,
                (Rows { rows: old(self).rows@, shown: old(self).shown@, done: old(done)@ }),
            ),
    {
        let ghost start = Rows { rows: self.rows@, shown: self.shown@, done: done@ };
        let mut playing: Option<u64> = None;
        for i in 0..items.len()
            invariant
                *self == *old(self),
                start.rows == self.rows@,
                (Rows { rows: self.rows@, shown: self.shown@, done: done@ }) == dimmed(
                    items@,
                    i as int,
                    start,
                ),
                playing == playing_row(items@.take(i as int), start.rows),
        {
            assert(items@.take(i + 1).drop_last() =~= items@.take(i as int));
            let id: u64 = items[i].queue_id;
            if contains_id(&self.rows, id) {
                let status: TrackStatus = items[i].track.status;
                done.push(RowAction::Dim { row: id, dimmed: status == TrackStatus::Played });
                if status == TrackStatus::Playing {
                    playing = Some(id);
                }
            }
        }
        assert(items@.take(items@.len() as int) =~= items@);
        let ghost looked = dimmed(items@, items@.len() as int, start);
        let ghost all = ids(items@);
        for i in 0..items.len()
            invariant
                all == ids(items@),
                self.queue_items == old(self).queue_items,
                (Rows { rows: self.rows@, shown: self.shown@, done: done@ }) == arranged(
                    all,
                    i as int,
                    looked,
                ),
        {
            assert(all[i as int] == items@[i as int].queue_id);
            let id: u64 = items[i].queue_id;
            if i <= 2147483647 && contains_id(&self.rows, id) {
                let place: i32 = i as i32;
                if !contains_id(&self.shown, id) {
                    self.put(i, id);
                    done.push(RowAction::Insert { row: id, place });
                } else if !(i < self.shown.len() && self.shown[i] == id) {
                    drop_id(&mut self.shown, id);
                    self.put(i, id);
                    done.push(RowAction::Move { row: id, place });
                }
            }
        }
        match playing {
            Some(row) => {
                done.push(RowAction::Select { row });
            },
            None => {
                done.push(RowAction::Unselect);
            },
        }
    }

    fn put(&mut self, place: usize, id: u64)
        ensures
            final(self).queue_items == old(self).queue_items,
            final(self).rows == old(self).rows,
            final(self).shown@ == put_at(old(self).shown@, place as int, id),
    {
        if place <= self.shown.len() {
            self.shown.insert(place, id);
        } else {
            self.shown.push(id);
        }
    }

    /// The place in the queue of the item whose row is to be removed, and what is done to the
    /// rows. Places that are not there are left alone.
    pub fn remove_clicked(&mut self, index: i32) -> (r: Option<(usize, Vec<RowAction>)>)
        ensures
            old(self).wf() ==> final(self).wf(),
            final(self).items() == old(self).items(),
            match r {
                Some(step) => {
                    let after = synchronized(
                        old(self).items(),
                        old(self).items(),
                        old(self).row_ids(),
                        old(self).page(),
                    );
                    &&& 0 <= index < old(self).items().len()
                    &&& step.0 == index
                    &&& final(self).row_ids() == after.rows
                    &&& final(self).page() == after.shown
                    &&& step.1@ == after.done
                },
                None => !(0 <= index < old(self).items().len()) && *final(self) == *old(self),
            },
    {
        if index < 0 {
            return None;
        }
        let place: usize = index as usize;
        if place >= self.queue_items.len() {
            return None;
        }
        let items = self.copy_items();
        let actions = self.sync_queue_list(items);
        Some((place, actions))
    }

    fn copy_items(&self) -> (r: Vec<QueueItem>)
        ensures
            r@ == self.items(),
    {
        let mut items: Vec<QueueItem> = Vec::new();
        for i in 0..self.queue_items.len()
            invariant
                items@ == self.queue_items@.take(i as int),
        {
            let item: QueueItem = self.queue_items[i].clone();
            items.push(item);
            assert(items@ =~= self.queue_items@.take(i + 1));
        }
        assert(items@ =~= self.queue_items@);
        items
    }

    /// The row of the place that is dragged.
    pub fn drag_prepare(&self, index: i32) -> (r: Option<i32>)
        ensures
            r == if index < 0 {
                None
            } else {
                Some(index)
            },
    {
        if index < 0 {
            None
        } else {
            Some(index)
        }
    }

    /// A row was dropped on another: its item goes before that of the other.
    pub fn dropped(&mut self, from: i32, to: i32) -> (r: DropOutcome)
        ensures
            old(self).wf() ==> final(self).wf(),
            ({
                let items = old(self).items();
                let refused = from < 0 || to < 0 || from >= items.len();
                let unmoved = from == to || from + 1 == to;
                let place = drop_place(from as int, to as int, items.len() as int);
                let moved = item_moved(items, from as int, place);
                match r {
                    DropOutcome::Refused => refused && *final(self) == *old(self),
                    DropOutcome::Unmoved => !refused && unmoved && *final(self) == *old(self),
                    DropOutcome::Reordered { order, actions } => {
                        let after = synchronized(
                            moved,
                            moved,
                            old(self).row_ids(),
                            old(self).page(),
                        );
                        &&& !refused && !unmoved
                        &&& order@ == item_moved(places(items.len()), from as int, place)
                        &&& final(self).items() == moved
                        &&& final(self).row_ids() == after.rows
                        &&& final(self).page() == after.shown
                        &&& actions@ == after.done
                    },
                }
            }),
    {
        if from < 0 || to < 0 {
            return DropOutcome::Refused;
        }
        let from_index: usize = from as usize;
        let to_index: usize = to as usize;
        let total: usize = self.queue_items.len();
        if from_index >= total {
            return DropOutcome::Refused;
        }
        if from_index == to_index || from_index + 1 == to_index {
            return DropOutcome::Unmoved;
        }
        let ghost before = self.queue_items@;
        let mut order: Vec<usize> = Vec::new();
        for i in 0..total
            invariant
                order@ == places(i as nat),
        {
            order.push(i);
            assert(order@ =~= places((i + 1) as nat));
        }
        let item = self.queue_items.remove(from_index);
        let shifted: usize = if from_index < to_index {
            to_index - 1
        } else {
            to_index
        };
        let place: usize = if shifted < total - 1 {
            shifted
        } else {
            total - 1
        };
        self.queue_items.insert(place, item);
        assert(self.queue_items@ == item_moved(before, from as int, place as int));
        move_index(&mut order, from_index, place);
        let items = self.copy_items();
        let actions = self.sync_queue_list(items);
        DropOutcome::Reordered { order, actions }
    }
}

proof fn lemma_without_id(list: Seq<u64>, id: u64)
    ensures
        forall|x: u64| #[trigger]
            without_id(list, id).contains(x) <==> list.contains(x) && x != id,
        list.no_duplicates() ==> without_id(list, id).no_duplicates(),
        without_id(list, id).len() <= list.len(),
    decreases list.len(),
{
    if list.len() > 0 {
        let front = list.drop_last();
        let rest = without_id(front, id);
        let all = without_id(list, id);
        let last = list.last();
        lemma_without_id(front, id);
        assert(list =~= front.push(last));
        assert forall|x: u64| #[trigger] all.contains(x) <==> list.contains(x) && x != id by {
            if list.contains(x) && x != last {
                let k = choose|k: int| 0 <= k < list.len() && list[k] == x;
                assert(front[k] == x);
                assert(rest.contains(x) <==> x != id);
            }
            if rest.contains(x) {
                let k = choose|k: int| 0 <= k < front.len() && front[k] == x;
                assert(front.contains(x));
                assert(list[k] == x);
                let m = choose|m: int| 0 <= m < rest.len() && rest[m] == x;
                assert(all[m] == x);
            }
            assert(list[list.len() - 1] == last);
            if last != id {
                assert(all[all.len() - 1] == last);
            }
            if all.contains(x) && !rest.contains(x) {
                let m = choose|m: int| 0 <= m < all.len() && all[m] == x;
                if m < rest.len() {
                    assert(rest[m] == x);
                }
            }
        }
        if list.no_duplicates() {
            assert(front.no_duplicates()) by {
                assert forall|i: int, j: int|
                    0 <= i < front.len() && 0 <= j < front.len() && i != j implies front[i]
                    != front[j] by {
                    assert(list[i] != list[j]);
                }
            }
            if last != id && rest.contains(last) {
                assert(front.contains(last));
                let k = choose|k: int| 0 <= k < front.len() && front[k] == last;
                assert(list[k] == list[list.len() - 1]);
            }
            assert forall|i: int, j: int|
                0 <= i < all.len() && 0 <= j < all.len() && i != j implies all[i] != all[j] by {
                if last != id {
                    if i == rest.len() {
                        assert(rest.contains(all[j]));
                    } else if j == rest.len() {
                        assert(rest.contains(all[i]));
                    }
                }
            }
        }
    }
}

/// Taking out an id keeps what stands before it.
proof fn lemma_without_id_keeps_front(list: Seq<u64>, id: u64, front: int)
    requires
        0 <= front <= list.len(),
        forall|i: int| 0 <= i < front ==> #[trigger] list[i] != id,
    ensures
        without_id(list, id).len() >= front,
        without_id(list, id).take(front) == list.take(front),
    decreases list.len(),
{
    if list.len() > 0 {
        if front < list.len() {
            lemma_without_id_keeps_front(list.drop_last(), id, front);
            assert(list.drop_last().take(front) =~= list.take(front));
            assert(without_id(list, id).take(front) =~= without_id(list.drop_last(), id).take(
                front,
            ));
        } else {
            lemma_without_id_keeps_front(list.drop_last(), id, front - 1);
            let rest = without_id(list.drop_last(), id);
            assert(list[front - 1] != id);
            assert(list.drop_last().take(front - 1) =~= list.drop_last());
            lemma_without_id(list.drop_last(), id);
            assert(rest.take(front - 1) =~= rest);
            assert(without_id(list, id) =~= list);
            assert(without_id(list, id).take(front) =~= list.take(front));
        }
    }
}

/// Rows that can be brought in order: each id has one, no row is twice on the page, and no other
/// rows are there.
pub open spec fn can_be_arranged(all: Seq<u64>, r: Rows) -> bool {
    &&& r.shown.no_duplicates()
    &&& forall|id: u64| #[trigger] r.shown.contains(id) ==> all.contains(id)
    &&& forall|id: u64| #[trigger] all.contains(id) ==> r.rows.contains(id)
}

proof fn lemma_arranged(all: Seq<u64>, count: int, start: Rows)
    requires
        all.no_duplicates(),
        all.len() <= i32::MAX,
        0 <= count <= all.len(),
        can_be_arranged(all, start),
    ensures
        can_be_arranged(all, arranged(all, count, start)),
        arranged(all, count, start).rows == start.rows,
        arranged(all, count, start).shown.len() >= count,
        arranged(all, count, start).shown.take(count) == all.take(count),
    decreases count,
{
    if count > 0 {
        lemma_arranged(all, count - 1, start);
        let before = arranged(all, count - 1, start);
        let after = arranged(all, count, start);
        let at = count - 1;
        let id = all[at];
        assert(all.contains(id));
        assert forall|i: int| 0 <= i < at implies #[trigger] before.shown[i] != id by {
            assert(before.shown[i] == before.shown.take(at)[i]);
            assert(all.take(at)[i] == all[i]);
        }
        if !before.shown.contains(id) {
            assert(after.shown == before.shown.insert(at, id));
            lemma_inserted(before.shown, at, id);
            assert(after.shown.take(count) =~= all.take(count)) by {
                assert forall|i: int| 0 <= i < count implies after.shown.take(count)[i]
                    == all.take(count)[i] by {
                    if i < at {
                        assert(before.shown.take(at)[i] == all.take(at)[i]);
                    }
                }
            }
        } else if !(at < before.shown.len() && before.shown[at] == id) {
            let rest = without_id(before.shown, id);
            lemma_without_id(before.shown, id);
            lemma_without_id_keeps_front(before.shown, id, at);
            assert(after.shown == rest.insert(at, id));
            lemma_inserted(rest, at, id);
            assert(after.shown.take(count) =~= all.take(count)) by {
                assert forall|i: int| 0 <= i < count implies after.shown.take(count)[i]
                    == all.take(count)[i] by {
                    if i < at {
                        assert(rest.take(at)[i] == before.shown.take(at)[i]);
                        assert(before.shown.take(at)[i] == all.take(at)[i]);
                    }
                }
            }
        } else {
            assert(after.shown.take(count) =~= all.take(count)) by {
                assert forall|i: int| 0 <= i < count implies after.shown.take(count)[i]
                    == all.take(count)[i] by {
                    if i < at {
                        assert(before.shown.take(at)[i] == all.take(at)[i]);
                    }
                }
            }
        }
    } else {
        assert(start.shown.take(0) =~= all.take(0));
    }
}

proof fn lemma_inserted(list: Seq<u64>, at: int, id: u64)
    requires
        0 <= at <= list.len(),
        list.no_duplicates(),
        !list.contains(id),
    ensures
        list.insert(at, id).no_duplicates(),
        forall|x: u64| #[trigger]
            list.insert(at, id).contains(x) <==> list.contains(x) || x == id,
{
    let more = list.insert(at, id);
    assert forall|i: int, j: int|
        0 <= i < more.len() && 0 <= j < more.len() && i != j implies more[i] != more[j] by {
        let a = if i < at {
            i
        } else {
            i - 1
        };
        let b = if j < at {
            j
        } else {
            j - 1
        };
        if i == at {
            assert(list[b] != id);
        } else if j == at {
            assert(list[a] != id);
        } else {
            assert(list[a] != list[b]);
        }
    }
    assert forall|x: u64| #[trigger] more.contains(x) <==> list.contains(x) || x == id by {
        if more.contains(x) && x != id {
            let k = choose|k: int| 0 <= k < more.len() && more[k] == x;
            let a = if k < at {
                k
            } else {
                k - 1
            };
            assert(list[a] == x);
        }
        if list.contains(x) {
            let k = choose|k: int| 0 <= k < list.len() && list[k] == x;
            let a = if k < at {
                k
            } else {
                k + 1
            };
            assert(more[a] == x);
        }
        assert(more[at] == id);
    }
}

proof fn lemma_purged(all: Seq<u64>, wanted: Seq<u64>, start: Rows)
    ensures
        forall|id: u64| #[trigger]
            purged(all, wanted, start).rows.contains(id) <==> start.rows.contains(id) && (
            !all.contains(id) || wanted.contains(id)),
        forall|id: u64| #[trigger]
            purged(all, wanted, start).shown.contains(id) <==> start.shown.contains(id) && (
            !all.contains(id) || wanted.contains(id)),
        start.rows.no_duplicates() ==> purged(all, wanted, start).rows.no_duplicates(),
        start.shown.no_duplicates() ==> purged(all, wanted, start).shown.no_duplicates(),
    decreases all.len(),
{
    if all.len() > 0 {
        let front = all.drop_last();
        let last = all.last();
        lemma_purged(front, wanted, start);
        let before = purged(front, wanted, start);
        lemma_without_id(before.rows, last);
        lemma_without_id(before.shown, last);
        assert forall|id: u64| all.contains(id) <==> front.contains(id) || id == last by {
            if all.contains(id) {
                let k = choose|k: int| 0 <= k < all.len() && all[k] == id;
                if k < front.len() {
                    assert(front[k] == id);
                }
            }
            if front.contains(id) {
                let k = choose|k: int| 0 <= k < front.len() && front[k] == id;
                assert(all[k] == id);
            }
            assert(all[all.len() - 1] == last);
        }
    }
}

proof fn lemma_with_rows(old_items: Seq<QueueItem>, items: Seq<QueueItem>, count: int, start: Rows)
    requires
        0 <= count <= items.len(),
        start.rows.no_duplicates(),
        start.shown.no_duplicates(),
        forall|id: u64| #[trigger] start.shown.contains(id) ==> start.rows.contains(id),
        forall|id: u64| #[trigger] start.rows.contains(id) ==> ids(items).contains(id),
    ensures
        ({
            let r = with_rows(old_items, items, count, start);
            &&& r.rows.no_duplicates()
            &&& r.shown.no_duplicates()
            &&& forall|id: u64| #[trigger] r.shown.contains(id) ==> r.rows.contains(id)
            &&& forall|id: u64| #[trigger] r.rows.contains(id) ==> ids(items).contains(id)
            &&& forall|i: int| 0 <= i < count ==> r.rows.contains(#[trigger] ids(items)[i])
        }),
    decreases count,
{
    if count > 0 {
        lemma_with_rows(old_items, items, count - 1, start);
        let before = with_rows(old_items, items, count - 1, start);
        let id = items[count - 1].queue_id;
        assert(ids(items)[count - 1] == id);
        assert(ids(items).contains(id));
        lemma_without_id(before.rows, id);
        lemma_without_id(before.shown, id);
        let after = with_rows(old_items, items, count, start);
        let stale = track_of(old_items, id) matches Some(track) && track
            != items[count - 1].track.id && before.rows.contains(id);
        let kept = if stale {
            removed(before, id)
        } else {
            before
        };
        if !kept.rows.contains(id) {
            lemma_inserted(kept.rows, kept.rows.len() as int, id);
            assert(kept.rows.push(id) =~= kept.rows.insert(kept.rows.len() as int, id));
        }
        assert forall|i: int| 0 <= i < count implies after.rows.contains(#[trigger] ids(items)[i]) by {
            let x = ids(items)[i];
            if x != id {
                assert(before.rows.contains(x));
                assert(kept.rows.contains(x));
            }
        }
    }
}

proof fn lemma_dimmed(items: Seq<QueueItem>, count: int, start: Rows)
    ensures
        dimmed(items, count, start).rows == start.rows,
        dimmed(items, count, start).shown == start.shown,
    decreases count,
{
    if count > 0 {
        lemma_dimmed(items, count - 1, start);
    }
}

/// Putting a row that is not on the page at a place of it.
proof fn lemma_put(shown: Seq<u64>, place: int, id: u64)
    requires
        0 <= place,
        shown.no_duplicates(),
        !shown.contains(id),
    ensures
        put_at(shown, place, id).no_duplicates(),
        forall|x: u64| #[trigger]
            put_at(shown, place, id).contains(x) <==> shown.contains(x) || x == id,
{
    if place <= shown.len() {
        lemma_inserted(shown, place, id);
    } else {
        lemma_inserted(shown, shown.len() as int, id);
        assert(shown.push(id) =~= shown.insert(shown.len() as int, id));
    }
}

proof fn lemma_arranged_keeps(all: Seq<u64>, count: int, start: Rows)
    requires
        rows_ok(start.rows, start.shown),
    ensures
        arranged(all, count, start).rows == start.rows,
        rows_ok(start.rows, arranged(all, count, start).shown),
    decreases count,
{
    if count > 0 {
        lemma_arranged_keeps(all, count - 1, start);
        let before = arranged(all, count - 1, start);
        let id = all[count - 1];
        if count - 1 <= i32::MAX && before.rows.contains(id) {
            if !before.shown.contains(id) {
                lemma_put(before.shown, count - 1, id);
            } else {
                lemma_without_id(before.shown, id);
                lemma_put(without_id(before.shown, id), count - 1, id);
            }
        }
    }
}

proof fn lemma_refreshed_keeps(items: Seq<QueueItem>, start: Rows)
    requires
        rows_ok(start.rows, start.shown),
    ensures
        refreshed(items, start).rows == start.rows,
        rows_ok(start.rows, refreshed(items, start).shown),
{
    lemma_dimmed(items, items.len() as int, start);
    lemma_arranged_keeps(
        ids(items),
        items.len() as int,
        dimmed(items, items.len() as int, start),
    );
}

/// Bringing the rows in line with a queue, whatever its ids are, makes no row occur twice.
proof fn lemma_synchronized_keeps(
    old_items: Seq<QueueItem>,
    items: Seq<QueueItem>,
    rows: Seq<u64>,
    shown: Seq<u64>,
)
    requires
        rows_ok(rows, shown),
    ensures
        ({
            let after = synchronized(old_items, items, rows, shown);
            rows_ok(after.rows, after.shown)
        }),
{
    let start = Rows { rows, shown, done: Seq::empty() };
    let cleaned = purged(rows, ids(items), start);
    lemma_purged(rows, ids(items), start);
    lemma_with_rows(old_items, items, items.len() as int, cleaned);
    lemma_refreshed_keeps(items, with_rows(old_items, items, items.len() as int, cleaned));
}

proof fn lemma_all_removed(all: Seq<u64>, start: Rows)
    ensures
        all_removed(all, start).rows == start.rows,
        all_removed(all, start).shown == start.shown,
    decreases all.len(),
{
    if all.len() > 0 {
        lemma_all_removed(all.drop_last(), start);
    }
}

proof fn lemma_all_built(items: Seq<QueueItem>, count: int, start: Rows)
    requires
        rows_ok(start.rows, start.shown),
    ensures
        ({
            let after = all_built(items, count, start);
            rows_ok(after.rows, after.shown)
        }),
    decreases count,
{
    if count > 0 {
        lemma_all_built(items, count - 1, start);
        let before = all_built(items, count - 1, start);
        let id = items[count - 1].queue_id;
        if !before.rows.contains(id) {
            lemma_inserted(before.rows, before.rows.len() as int, id);
            assert(before.rows.push(id) =~= before.rows.insert(before.rows.len() as int, id));
        }
    }
}

/// No row occurs twice among rows that are all built anew.
proof fn lemma_rebuilt_keeps(items: Seq<QueueItem>, rows: Seq<u64>)
    ensures
        rows_ok(rebuilt(items, rows).rows, rebuilt(items, rows).shown),
{
    let start = Rows { rows: Seq::empty(), shown: Seq::empty(), done: Seq::empty() };
    lemma_all_removed(rows, start);
    let cleared = all_removed(rows, start);
    lemma_all_built(items, items.len() as int, cleared);
    lemma_refreshed_keeps(items, all_built(items, items.len() as int, cleared));
}

/// Whatever was on the page before, once the rows are in line with a queue the page shows a row
/// for each of its items, in its order, and no other.
pub proof fn law_the_page_follows_the_queue(
    old_items: Seq<QueueItem>,
    items: Seq<QueueItem>,
    rows: Seq<u64>,
    shown: Seq<u64>,
)
    requires
        ids(items).no_duplicates(),
        items.len() <= i32::MAX,
        rows_ok(rows, shown),
    ensures
        synchronized(old_items, items, rows, shown).shown == ids(items),
        synchronized(old_items, items, rows, shown).rows.no_duplicates(),
        forall|id: u64| #[trigger]
            synchronized(old_items, items, rows, shown).rows.contains(id) <==> ids(
                items,
            ).contains(id),
{
    let all = ids(items);
    let start = Rows { rows, shown, done: Seq::empty() };
    let cleaned = purged(rows, all, start);
    lemma_purged(rows, all, start);
    lemma_with_rows(old_items, items, items.len() as int, cleaned);
    let ready = with_rows(old_items, items, items.len() as int, cleaned);
    lemma_dimmed(items, items.len() as int, ready);
    let looked = dimmed(items, items.len() as int, ready);
    assert forall|id: u64| #[trigger] all.contains(id) implies looked.rows.contains(id) by {
        let k = choose|k: int| 0 <= k < all.len() && all[k] == id;
        assert(ready.rows.contains(all[k]));
    }
    assert(can_be_arranged(all, looked));
    lemma_arranged(all, all.len() as int, looked);
    lemma_synchronized_keeps(old_items, items, rows, shown);
    let placed = arranged(all, all.len() as int, looked);
    let n = all.len() as int;
    assert(all.take(n) =~= all);
    if placed.shown.len() > n {
        let extra = placed.shown[n];
        assert(placed.shown.contains(extra));
        assert(all.contains(extra));
        let k = choose|k: int| 0 <= k < n && all[k] == extra;
        assert(placed.shown.take(n)[k] == extra);
        assert(placed.shown[k] == placed.shown[n]);
    }
    assert(placed.shown =~= all);
}

/// The order that is sent to the player when a row is dropped moves its queue just as the page
/// moves its own: item by item the two stay the same.
pub proof fn law_a_drop_moves_both_queues_alike(items: Seq<QueueItem>, from: int, to: int)
    requires
        0 <= from < items.len() <= usize::MAX,
        0 <= to < items.len(),
    ensures
        picked(items, item_moved(places(items.len()), from, to)) == item_moved(items, from, to),
{
    let order = item_moved(places(items.len()), from, to);
    let moved = item_moved(items, from, to);
    assert forall|i: int| 0 <= i < order.len() implies (#[trigger] order[i]) < items.len()
        && moved[i] == items[order[i] as int] by {}
    lemma_picked(items, order, order.len() as int);
    assert(order.take(order.len() as int) =~= order);
    assert(moved =~= picked(items, order));
}

proof fn lemma_picked(items: Seq<QueueItem>, order: Seq<usize>, count: int)
    requires
        0 <= count <= order.len(),
        forall|i: int| 0 <= i < order.len() ==> (#[trigger] order[i]) < items.len(),
    ensures
        picked(items, order.take(count)).len() == count,
        forall|i: int|
            0 <= i < count ==> #[trigger] picked(items, order.take(count))[i]
                == items[order[i] as int],
    decreases count,
{
    if count > 0 {
        lemma_picked(items, order, count - 1);
        assert(order.take(count).drop_last() =~= order.take(count - 1));
        assert(order.take(count).last() == order[count - 1]);
    }
}

} // verus!

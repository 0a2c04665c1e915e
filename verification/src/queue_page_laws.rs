//! What the page of the queue can be relied on to do.

use vstd::prelude::*;
use crate::models::TrackStatus;
use crate::queue_page::{
    arranged, dimmed, drop_place, ids, item_moved, law_the_page_follows_the_queue, move_index,
    places, playing_row, purged, put_at, refreshed, removed, rows_ok, synchronized, track_of,
    with_row_at, with_row_for, with_rows, without_id, DropOutcome, QueuePage, RowAction, Rows,
};
use crate::tracklist::{QueueItem, Tracklist};

verus! {

/// A page after one action: a row that is removed is gone, one that is inserted or moved stands at
/// its place, or last where there is no such place.
pub open spec fn after_action(page: Seq<u64>, action: RowAction) -> Seq<u64> {
    match action {
        RowAction::Remove { row } => page.filter(|id: u64| id != row),
        RowAction::Insert { row, place } => if place <= page.len() {
            page.insert(place as int, row)
        } else {
            page.push(row)
        },
        RowAction::Move { row, place } => {
            let rest = page.filter(|id: u64| id != row);
            if place <= rest.len() {
                rest.insert(place as int, row)
            } else {
                rest.push(row)
            }
        },
        _ => page,
    }
}

/// A page after actions.
pub open spec fn replayed(page: Seq<u64>, actions: Seq<RowAction>) -> Seq<u64>
    decreases actions.len(),
{
    if actions.len() == 0 {
        page
    } else {
        after_action(replayed(page, actions.drop_last()), actions.last())
    }
}

proof fn lemma_without_is_filter(list: Seq<u64>, row: u64)
    ensures
        without_id(list, row) == list.filter(|id: u64| id != row),
    decreases list.len(),
{
    reveal(Seq::filter);
    if list.len() > 0 {
        lemma_without_is_filter(list.drop_last(), row);
    }
}

/// What was done to rows leads from a page to theirs, and all that was done before is kept.
spec fn leads(page: Seq<u64>, start: Rows, after: Rows) -> bool {
    &&& replayed(page, after.done) == after.shown
    &&& start.done.len() <= after.done.len()
    &&& after.done.take(start.done.len() as int) == start.done
}

proof fn lemma_one_more(page: Seq<u64>, before: Rows, after: Rows, action: RowAction)
    requires
        replayed(page, before.done) == before.shown,
        after.done == before.done.push(action),
        after.shown == after_action(before.shown, action),
    ensures
        leads(page, before, after),
{
    assert(after.done.drop_last() =~= before.done);
    assert(after.done.take(before.done.len() as int) =~= before.done);
}

proof fn lemma_none_more(page: Seq<u64>, before: Rows)
    requires
        replayed(page, before.done) == before.shown,
    ensures
        leads(page, before, before),
{
    assert(before.done.take(before.done.len() as int) =~= before.done);
}

proof fn lemma_leads_on(page: Seq<u64>, a: Rows, b: Rows, c: Rows)
    requires
        leads(page, a, b),
        leads(page, b, c),
    ensures
        leads(page, a, c),
{
    assert(c.done.take(a.done.len() as int) =~= b.done.take(a.done.len() as int)) by {
        assert forall|i: int| 0 <= i < a.done.len() implies c.done[i] == b.done[i] by {
            assert(c.done.take(b.done.len() as int)[i] == b.done[i]);
        }
    }
}

proof fn lemma_removed_leads(page: Seq<u64>, r: Rows, id: u64)
    requires
        replayed(page, r.done) == r.shown,
    ensures
        leads(page, r, removed(r, id)),
{
    lemma_without_is_filter(r.shown, id);
    lemma_one_more(page, r, removed(r, id), RowAction::Remove { row: id });
}

proof fn lemma_purged_leads(page: Seq<u64>, all: Seq<u64>, wanted: Seq<u64>, start: Rows)
    requires
        replayed(page, start.done) == start.shown,
    ensures
        leads(page, start, purged(all, wanted, start)),
    decreases all.len(),
{
    if all.len() == 0 {
        lemma_none_more(page, start);
    } else {
        let before = purged(all.drop_last(), wanted, start);
        lemma_purged_leads(page, all.drop_last(), wanted, start);
        if !wanted.contains(all.last()) {
            lemma_removed_leads(page, before, all.last());
            lemma_leads_on(page, start, before, removed(before, all.last()));
        }
    }
}

proof fn lemma_with_rows_leads(
    page: Seq<u64>,
    old_items: Seq<QueueItem>,
    items: Seq<QueueItem>,
    count: int,
    start: Rows,
)
    requires
        replayed(page, start.done) == start.shown,
    ensures
        leads(page, start, with_rows(old_items, items, count, start)),
    decreases count,
{
    if count <= 0 {
        lemma_none_more(page, start);
    } else {
        let before = with_rows(old_items, items, count - 1, start);
        lemma_with_rows_leads(page, old_items, items, count - 1, start);
        let id = items[count - 1].queue_id;
        let stale = track_of(old_items, id) matches Some(track) && track != items[count
            - 1].track.id && before.rows.contains(id);
        let kept = if stale {
            removed(before, id)
        } else {
            before
        };
        if stale {
            lemma_removed_leads(page, before, id);
        } else {
            lemma_none_more(page, before);
        }
        lemma_leads_on(page, start, before, kept);
        let after = with_row_for(old_items, items, count - 1, before);
        if !kept.rows.contains(id) {
            lemma_one_more(page, kept, after, RowAction::Build { index: (count - 1) as usize });
            lemma_leads_on(page, start, kept, after);
        }
    }
}

proof fn lemma_dimmed_leads(page: Seq<u64>, items: Seq<QueueItem>, count: int, start: Rows)
    requires
        replayed(page, start.done) == start.shown,
    ensures
        leads(page, start, dimmed(items, count, start)),
        dimmed(items, count, start).rows == start.rows,
        forall|i: int|
            0 <= i < count && start.rows.contains((#[trigger] items[i]).queue_id) ==> dimmed(
                items,
                count,
                start,
            ).done.contains(
                RowAction::Dim {
                    row: items[i].queue_id,
                    dimmed: items[i].track.status == TrackStatus::Played,
                },
            ),
    decreases count,
{
    if count <= 0 {
        lemma_none_more(page, start);
    } else {
        let before = dimmed(items, count - 1, start);
        let after = dimmed(items, count, start);
        lemma_dimmed_leads(page, items, count - 1, start);
        let item = items[count - 1];
        let action = RowAction::Dim {
            row: item.queue_id,
            dimmed: item.track.status == TrackStatus::Played,
        };
        if before.rows.contains(item.queue_id) {
            lemma_one_more(page, before, after, action);
            lemma_leads_on(page, start, before, after);
            assert(after.done[before.done.len() as int] == action);
        }
        assert forall|i: int|
            0 <= i < count && start.rows.contains((#[trigger] items[i]).queue_id) implies
            after.done.contains(
            RowAction::Dim {
                row: items[i].queue_id,
                dimmed: items[i].track.status == TrackStatus::Played,
            },
        ) by {
            if i < count - 1 {
                let wanted = RowAction::Dim {
                    row: items[i].queue_id,
                    dimmed: items[i].track.status == TrackStatus::Played,
                };
                let k = choose|k: int| 0 <= k < before.done.len() && before.done[k] == wanted;
                assert(after.done[k] == wanted);
            }
        }
    }
}

proof fn lemma_arranged_leads(page: Seq<u64>, all: Seq<u64>, count: int, start: Rows)
    requires
        replayed(page, start.done) == start.shown,
    ensures
        leads(page, start, arranged(all, count, start)),
    decreases count,
{
    if count <= 0 {
        lemma_none_more(page, start);
    } else {
        let before = arranged(all, count - 1, start);
        let after = arranged(all, count, start);
        lemma_arranged_leads(page, all, count - 1, start);
        let place = count - 1;
        if place <= i32::MAX {
            let id = all[place];
            if !before.rows.contains(id) {
            } else if !before.shown.contains(id) {
                lemma_one_more(
                    page,
                    before,
                    after,
                    RowAction::Insert { row: id, place: place as i32 },
                );
                lemma_leads_on(page, start, before, after);
            } else if !(place < before.shown.len() && before.shown[place] == id) {
                lemma_without_is_filter(before.shown, id);
                lemma_one_more(page, before, after, RowAction::Move { row: id, place: place as i32 });
                lemma_leads_on(page, start, before, after);
            }
        }
    }
}

proof fn lemma_playing_row(items: Seq<QueueItem>, rows: Seq<u64>)
    ensures
        match playing_row(items, rows) {
            Some(row) => exists|i: int|
                0 <= i < items.len() && (#[trigger] items[i]).queue_id == row
                    && items[i].track.status == TrackStatus::Playing,
            None => forall|i: int|
                0 <= i < items.len() && (#[trigger] items[i]).track.status == TrackStatus::Playing
                    ==> !rows.contains(items[i].queue_id),
        },
    decreases items.len(),
{
    if items.len() > 0 {
        let front = items.drop_last();
        lemma_playing_row(front, rows);
        let item = items[items.len() - 1];
        if item.track.status == TrackStatus::Playing && rows.contains(item.queue_id) {
            assert(items.last() == item);
        } else {
            match playing_row(front, rows) {
                Some(row) => {
                    let i = choose|i: int|
                        0 <= i < front.len() && (#[trigger] front[i]).queue_id == row
                            && front[i].track.status == TrackStatus::Playing;
                    assert(items[i].queue_id == row);
                },
                None => {
                    assert forall|i: int|
                        0 <= i < items.len() && (#[trigger] items[i]).track.status
                            == TrackStatus::Playing implies !rows.contains(items[i].queue_id) by {
                        if i < front.len() {
                            assert(front[i] == items[i]);
                        }
                    }
                },
            }
        }
    }
}

/// A page that is brought in line with a queue shows a row for each of its items, in its order, and
/// no other. What is done to its rows leads there from the page as it was: played items are shown as
/// such, and last of all the row of the item that plays is chosen, or none.
pub proof fn law_the_rows_follow_the_queue(
    page: &mut QueuePage,
    items: Vec<QueueItem>,
    r: Vec<RowAction>,
    at: int,
)
    requires
        old(page).wf(),
        call_ensures(QueuePage::sync_queue_list, (page, items), r),
        forall|i: int, j: int|
            0 <= i < j < items@.len() ==> (#[trigger] items@[i]).queue_id != (
            #[trigger] items@[j]).queue_id,
        items@.len() <= i32::MAX,
        0 <= at < items@.len(),
    ensures
        final(page).items() == items@,
        final(page).page().len() == items@.len(),
        forall|i: int|
            0 <= i < items@.len() ==> #[trigger] final(page).page()[i] == items@[i].queue_id,
        replayed(old(page).page(), r@) == final(page).page(),
        r@.contains(
            RowAction::Dim {
                row: items@[at].queue_id,
                dimmed: items@[at].track.status == TrackStatus::Played,
            },
        ),
        r@.len() > 0,
        items@[at].track.status == TrackStatus::Playing && (forall|i: int|
            0 <= i < items@.len() && (#[trigger] items@[i]).track.status == TrackStatus::Playing ==> i
                == at) ==> r@.last() == (RowAction::Select { row: items@[at].queue_id }),
        (forall|i: int|
            0 <= i < items@.len() ==> (#[trigger] items@[i]).track.status != TrackStatus::Playing)
            ==> r@.last() == RowAction::Unselect,
{
    let q = items@;
    let all = ids(q);
    let shown = old(page).page();
    let start = Rows { rows: old(page).row_ids(), shown, done: Seq::empty() };
    assert(all.no_duplicates()) by {
        assert forall|i: int, j: int| 0 <= i < all.len() && 0 <= j < all.len() && i != j implies
            all[i] != all[j] by {
            if i < j {
                assert(q[i].queue_id != q[j].queue_id);
            } else {
                assert(q[j].queue_id != q[i].queue_id);
            }
        }
    }
    law_the_page_follows_the_queue(old(page).items(), q, old(page).row_ids(), shown);
    let after = synchronized(old(page).items(), q, old(page).row_ids(), shown);
    assert forall|i: int| 0 <= i < q.len() implies #[trigger] final(page).page()[i]
        == q[i].queue_id by {
        assert(all[i] == q[i].queue_id);
    }
    let cleaned = purged(start.rows, all, start);
    lemma_purged_leads(shown, start.rows, all, start);
    let ready = with_rows(old(page).items(), q, q.len() as int, cleaned);
    lemma_with_rows_leads(shown, old(page).items(), q, q.len() as int, cleaned);
    let looked = dimmed(q, q.len() as int, ready);
    lemma_dimmed_leads(shown, q, q.len() as int, ready);
    let placed = arranged(all, q.len() as int, looked);
    lemma_arranged_leads(shown, all, q.len() as int, looked);
    let last = match playing_row(q, ready.rows) {
        Some(row) => RowAction::Select { row },
        None => RowAction::Unselect,
    };
    lemma_one_more(shown, placed, after, last);
    lemma_arranged_rows(all, q.len() as int, looked);
    assert(after.rows == ready.rows);
    assert(all[at] == q[at].queue_id);
    assert(all.contains(q[at].queue_id));
    assert(ready.rows.contains(q[at].queue_id));
    let dim = RowAction::Dim {
        row: q[at].queue_id,
        dimmed: q[at].track.status == TrackStatus::Played,
    };
    let k = choose|k: int| 0 <= k < looked.done.len() && looked.done[k] == dim;
    assert(placed.done.take(looked.done.len() as int)[k] == dim);
    assert(after.done[k] == dim);
    lemma_playing_row(q, ready.rows);
    if q[at].track.status == TrackStatus::Playing {
        assert(playing_row(q, ready.rows) is Some);
    }
}

proof fn lemma_arranged_rows(all: Seq<u64>, count: int, start: Rows)
    ensures
        arranged(all, count, start).rows == start.rows,
    decreases count,
{
    if count > 0 {
        lemma_arranged_rows(all, count - 1, start);
    }
}

/// Loading a queue brings the page in line with its items.
pub proof fn law_loading_brings_the_page_in_line(
    page: &mut QueuePage,
    other: &mut QueuePage,
    tracklist: &Tracklist,
    items: Vec<QueueItem>,
    r: Vec<RowAction>,
    synced: Vec<RowAction>,
)
    requires
        call_ensures(QueuePage::load, (page, tracklist), r),
        *old(page) == *old(other),
        items@ == tracklist.items(),
        call_ensures(QueuePage::sync_queue_list, (other, items), synced),
    ensures
        r@ == synced@,
        final(page).items() == final(other).items(),
        final(page).page() == final(other).page(),
        final(page).row_ids() == final(other).row_ids(),
{
}

/// A row that is dropped on another stands right before it, or last, and all other items keep their
/// order; the order that the player is sent does the same to its queue.
pub proof fn law_a_dropped_row_stands_before_the_other(
    page: &mut QueuePage,
    from: i32,
    to: i32,
    r: DropOutcome,
)
    requires
        old(page).wf(),
        call_ensures(QueuePage::dropped, (page, from, to), r),
        0 <= from < old(page).items().len() <= i32::MAX,
        0 <= to,
        from != to,
        from + 1 != to,
    ensures
        ({
            let items = old(page).items();
            let moved = final(page).items();
            let place = if to >= items.len() {
                items.len() - 1
            } else if from < to {
                to - 1
            } else {
                to as int
            };
            &&& r matches DropOutcome::Reordered { order, actions } && {
                &&& order@.len() == items.len()
                &&& forall|i: int|
                    0 <= i < items.len() ==> (#[trigger] order@[i]) < items.len() && moved[i]
                        == items[order@[i] as int]
            }
            &&& moved.len() == items.len()
            &&& moved[place] == items[from as int]
            &&& to < items.len() ==> moved[place + 1] == items[to as int]
            &&& moved.remove(place) == items.remove(from as int)
        }),
{
    let items = old(page).items();
    let moved = final(page).items();
    let place = drop_place(from as int, to as int, items.len() as int);
    assert(moved.remove(place) =~= items.remove(from as int));
}

/// A row that is dropped where it stands stays, and one that is not there is refused.
pub proof fn law_a_row_dropped_in_place_stays(
    page: &mut QueuePage,
    from: i32,
    to: i32,
    r: DropOutcome,
)
    requires
        call_ensures(QueuePage::dropped, (page, from, to), r),
    ensures
        from < 0 || to < 0 || from >= old(page).items().len() ==> r is Refused && *final(page) == *old(page),
        0 <= from < old(page).items().len() && to >= 0 && (from == to || from + 1 == to) ==> r
            is Unmoved && *final(page) == *old(page),
{
}

/// A place that is moved stands at its new place, or last, and all others keep their order.
pub proof fn law_a_moved_place_stands_at_its_place(vec: &mut Vec<usize>, from: usize, to: usize)
    requires
        call_ensures(move_index, (vec, from, to), ()),
    ensures
        from < old(vec)@.len() ==> {
            let at = if to < old(vec)@.len() {
                to as int
            } else {
                old(vec)@.len() - 1
            };
            &&& final(vec)@.len() == old(vec)@.len()
            &&& final(vec)@[at] == old(vec)@[from as int]
            &&& final(vec)@.remove(at) == old(vec)@.remove(from as int)
        },
        from >= old(vec)@.len() ==> final(vec)@ == old(vec)@,
{
    if from < old(vec)@.len() {
        let at = if to < old(vec)@.len() {
            to as int
        } else {
            old(vec)@.len() - 1
        };
        assert(final(vec)@.remove(at) =~= old(vec)@.remove(from as int));
    }
}

/// A row stands for its place in the queue, where there is one.
pub proof fn law_a_row_stands_for_its_place(
    page: &mut QueuePage,
    before: &QueuePage,
    index: i32,
    r: Option<(usize, Vec<RowAction>)>,
    activated: Option<usize>,
    dragged: Option<i32>,
)
    requires
        *before == *old(page),
        call_ensures(QueuePage::remove_clicked, (page, index), r),
        call_ensures(QueuePage::activated, (before, index), activated),
        call_ensures(QueuePage::drag_prepare, (before, index), dragged),
    ensures
        0 <= index < old(page).items().len() ==> (r matches Some(step) && step.0 == index),
        index < 0 || index >= old(page).items().len() ==> r is None && *final(page) == *old(page),
        final(page).items() == old(page).items(),
        index >= 0 ==> activated == Some(index as usize) && dragged == Some(index),
        index < 0 ==> activated is None && dragged is None,
{
}

} // verus!

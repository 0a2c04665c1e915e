//! What the commands that keep a session's queue in step with the local one bring about.

use vstd::prelude::*;
use crate::connect_queue::{
    command_view, delta, explains_move, inside, is_known, is_new, known_ids, move_command, outside,
    run_end, session_ids, Autoplay, ControllerCommand, LocalItem, law_a_move_reaches_the_local_queue,
    lemma_new_items_have_no_ids,
};
use crate::sequences::{
    first_match, is_first, lemma_first_match, lemma_first_match_is_first, lemma_match_exists,
    lemma_no_match,
};

verus! {

/// Every item of a local queue is known to the session, under these ids.
pub open spec fn is_known_as(local: Seq<LocalItem>, ids: Seq<i32>) -> bool {
    &&& local.len() == ids.len()
    &&& forall|i: int| 0 <= i < local.len() ==> (#[trigger] local[i]).1 == Some(ids[i])
}

/// The session's queue has these ids.
pub open spec fn is_queue_of(session: Seq<(i32, u32)>, ids: Seq<i32>) -> bool {
    &&& session.len() == ids.len()
    &&& forall|i: int| 0 <= i < session.len() ==> (#[trigger] session[i]).0 == ids[i]
}

/// No hints are given about autoplay.
pub open spec fn is_plain(autoplay: Autoplay) -> bool {
    !autoplay.reset && !autoplay.loading
}

proof fn lemma_known_as(local: Seq<LocalItem>, ids: Seq<i32>)
    requires
        is_known_as(local, ids),
    ensures
        known_ids(local) == ids,
        first_match(local, is_new()) is None,
    decreases local.len(),
{
    lemma_no_match(local, is_new());
    if local.len() > 0 {
        let rest = local.drop_last();
        assert forall|i: int| 0 <= i < rest.len() implies (#[trigger] rest[i]).1 == Some(
            ids.drop_last()[i],
        ) by {
            assert(local[i].1 == Some(ids[i]));
        }
        lemma_known_as(rest, ids.drop_last());
        assert(local[local.len() - 1].1 == Some(ids[ids.len() - 1]));
        assert(known_ids(local) =~= ids);
    } else {
        assert(known_ids(local) =~= ids);
    }
}

proof fn lemma_queue_of(session: Seq<(i32, u32)>, ids: Seq<i32>)
    requires
        is_queue_of(session, ids),
    ensures
        session_ids(session) == ids,
{
    assert(session_ids(session) =~= ids);
}

proof fn lemma_outside_filter(ids: Seq<i32>, drop: Seq<i32>)
    ensures
        outside(ids, drop) == ids.filter(|id: i32| !drop.contains(id)),
    decreases ids.len(),
{
    reveal(Seq::filter);
    if ids.len() > 0 {
        lemma_outside_filter(ids.drop_last(), drop);
    }
}

proof fn lemma_inside_filter(ids: Seq<i32>, keep: Seq<i32>)
    ensures
        inside(ids, keep) == ids.filter(|id: i32| keep.contains(id)),
    decreases ids.len(),
{
    reveal(Seq::filter);
    if ids.len() > 0 {
        lemma_inside_filter(ids.drop_last(), keep);
    }
}

/// The queues agree: nothing is asked.
pub proof fn law_queues_that_agree_need_no_command(
    session: &[(i32, u32)],
    local: &[LocalItem],
    current: usize,
    r: Option<ControllerCommand>,
    ids: Seq<i32>,
)
    requires
        call_ensures(delta, (session, local, current), r),
        is_queue_of(session@, ids),
        is_known_as(local@, ids),
    ensures
        r is None,
{
    lemma_queue_of(session@, ids);
    lemma_known_as(local@, ids);
}

/// A local queue that is empty clears the session's.
pub proof fn law_an_empty_queue_clears_the_sessions(
    session: &[(i32, u32)],
    local: &[LocalItem],
    current: usize,
    r: Option<ControllerCommand>,
)
    requires
        call_ensures(delta, (session, local, current), r),
    ensures
        local@.len() == 0 && session@.len() > 0 ==> r == Some(ControllerCommand::ClearQueue),
        local@.len() == 0 && session@.len() == 0 ==> r is None,
        r == Some(ControllerCommand::ClearQueue) ==> local@.len() == 0,
{
    if r == Some(ControllerCommand::ClearQueue) && local@.len() > 0 {
        lemma_first_match_is_first(local@, is_new());
    }
}

/// A local queue that holds an item that the session has dropped is behind, and asks nothing.
pub proof fn law_a_queue_that_is_behind_asks_nothing(
    session: &[(i32, u32)],
    local: &[LocalItem],
    current: usize,
    r: Option<ControllerCommand>,
    at: int,
    id: i32,
)
    requires
        call_ensures(delta, (session, local, current), r),
        0 <= at < local@.len(),
        local@[at].1 == Some(id),
        forall|k: int| 0 <= k < session@.len() ==> (#[trigger] session@[k]).0 != id,
    ensures
        r is None,
{
    lemma_known_contains(local@, at);
    let known = known_ids(local@);
    let k = choose|k: int| 0 <= k < known.len() && known[k] == id;
    let ids = session_ids(session@);
    assert(!ids.contains(known[k])) by {
        if ids.contains(id) {
            let j = choose|j: int| 0 <= j < ids.len() && ids[j] == id;
            assert(session@[j].0 == id);
        }
    }
}

proof fn lemma_known_contains(local: Seq<LocalItem>, at: int)
    requires
        0 <= at < local.len(),
        local[at].1 is Some,
    ensures
        known_ids(local).contains(local[at].1->0),
    decreases local.len(),
{
    let rest = local.drop_last();
    let all = known_ids(local);
    if at < rest.len() {
        lemma_known_contains(rest, at);
        let before = known_ids(rest);
        let k = choose|k: int| 0 <= k < before.len() && before[k] == local[at].1->0;
        assert(all[k] == before[k]);
    } else {
        assert(all[all.len() - 1] == local[at].1->0);
    }
}

/// A queue of which the session knows nothing is loaded whole, in its order, from the current item
/// on.
pub proof fn law_a_queue_of_new_items_is_loaded(
    session: &[(i32, u32)],
    local: &[LocalItem],
    current: usize,
    r: Option<ControllerCommand>,
)
    requires
        call_ensures(delta, (session, local, current), r),
        local@.len() > 0,
        forall|i: int| 0 <= i < local@.len() ==> (#[trigger] local@[i]).1 is None,
        current <= u32::MAX,
    ensures
        r matches Some(command) && (command matches ControllerCommand::LoadTracks {
            track_ids,
            position,
            shuffle_seed,
            shuffle_pivot_index,
            autoplay,
        } && {
            &&& track_ids@.len() == local@.len()
            &&& forall|i: int| 0 <= i < local@.len() ==> #[trigger] track_ids@[i] == local@[i].2
            &&& position == current
            &&& shuffle_seed is None
            &&& shuffle_pivot_index is None
            &&& is_plain(autoplay)
        }),
{
    assert forall|j: int| 0 <= j < local@.len() implies is_new()(#[trigger] local@[j]) by {}
    lemma_new_items_have_no_ids(local@);
}

/// Whatever is loaded is the local queue, in its order, from the current item on.
pub proof fn law_what_is_loaded_is_the_local_queue(
    session: &[(i32, u32)],
    local: &[LocalItem],
    current: usize,
    r: Option<ControllerCommand>,
)
    requires
        call_ensures(delta, (session, local, current), r),
        current <= u32::MAX,
    ensures
        r matches Some(command) ==> (command matches ControllerCommand::LoadTracks {
            track_ids,
            position,
            ..
        } ==> {
            &&& track_ids@.len() == local@.len()
            &&& forall|i: int| 0 <= i < local@.len() ==> #[trigger] track_ids@[i] == local@[i].2
            &&& position == current
        }),
{
    lemma_first_match_is_first(local@, is_new());
}

/// Where items of the session are no longer queued locally, and the others stand in the session's
/// order, just those are removed: without them the session's queue is the local one.
pub proof fn law_items_that_are_gone_are_removed(
    session: &[(i32, u32)],
    local: &[LocalItem],
    current: usize,
    r: Option<ControllerCommand>,
    ids: Seq<i32>,
    kept: Seq<i32>,
)
    requires
        call_ensures(delta, (session, local, current), r),
        is_queue_of(session@, ids),
        is_known_as(local@, kept),
        kept.len() > 0,
        kept != ids,
        kept == ids.filter(|id: i32| kept.contains(id)),
    ensures
        r matches Some(command) && (command matches ControllerCommand::RemoveTracks {
            queue_item_ids,
            autoplay,
        } && {
            &&& ids.filter(|id: i32| !queue_item_ids@.contains(id)) == kept
            &&& queue_item_ids@ == ids.filter(|id: i32| !kept.contains(id))
            &&& is_plain(autoplay)
        }),
{
    lemma_queue_of(session@, ids);
    lemma_known_as(local@, kept);
    lemma_inside_filter(ids, kept);
    lemma_outside_filter(ids, kept);
    assert forall|k: int| 0 <= k < kept.len() implies ids.contains(#[trigger] kept[k]) by {
        assert(kept.contains(kept[k]));
        ids.lemma_filter_contains_rev(|id: i32| kept.contains(id), kept[k]);
    }
    let gone = ids.filter(|id: i32| !kept.contains(id));
    assert forall|id: i32| ids.contains(id) implies (!gone.contains(id) <==> kept.contains(id)) by {
        let p = |x: i32| !kept.contains(x);
        if gone.contains(id) {
            let k = choose|k: int| 0 <= k < gone.len() && gone[k] == id;
            ids.lemma_filter_pred(p, k);
        }
        if !kept.contains(id) {
            let k = choose|k: int| 0 <= k < ids.len() && ids[k] == id;
            ids.lemma_filter_contains(p, k);
        }
    }
    lemma_filters_agree(
        ids,
        ids,
        |id: i32| !gone.contains(id),
        |id: i32| kept.contains(id),
    );
}

proof fn lemma_filters_agree(
    part: Seq<i32>,
    ids: Seq<i32>,
    p: spec_fn(i32) -> bool,
    q: spec_fn(i32) -> bool,
)
    requires
        forall|id: i32| ids.contains(id) ==> (#[trigger] p(id) <==> q(id)),
        forall|k: int| 0 <= k < part.len() ==> ids.contains(#[trigger] part[k]),
    ensures
        part.filter(p) == part.filter(q),
    decreases part.len(),
{
    reveal(Seq::filter);
    if part.len() > 0 {
        let rest = part.drop_last();
        assert forall|k: int| 0 <= k < rest.len() implies ids.contains(#[trigger] rest[k]) by {
            assert(rest[k] == part[k]);
        }
        lemma_filters_agree(rest, ids, p, q);
        assert(ids.contains(part[part.len() - 1]));
        assert(p(part.last()) <==> q(part.last()));
    }
}

/// An item that was moved is moved in the session too: taken out of the session's queue and put
/// behind the item that is named, or to the front, it makes that queue the local one.
pub proof fn law_a_moved_item_is_moved(
    session: &[(i32, u32)],
    local: &[LocalItem],
    current: usize,
    r: Option<ControllerCommand>,
    ids: Seq<i32>,
    order: Seq<i32>,
    queue_item_ids: Vec<i32>,
    after: Option<i32>,
    autoplay: Autoplay,
)
    requires
        call_ensures(delta, (session, local, current), r),
        is_queue_of(session@, ids),
        is_known_as(local@, order),
        order.no_duplicates(),
        r == Some(ControllerCommand::ReorderTracks { queue_item_ids, after, autoplay }),
    ensures
        queue_item_ids@.len() == 1,
        is_plain(autoplay),
        ({
            let moved = queue_item_ids@[0];
            let rest = ids.filter(|id: i32| id != moved);
            exists|at: int|
                #![trigger rest.insert(at, moved)]
                0 <= at <= rest.len() && rest.insert(at, moved) == order && after == (if at > 0 {
                    Some(rest[at - 1])
                } else {
                    None
                })
        }),
{
    lemma_queue_of(session@, ids);
    lemma_known_as(local@, order);
    let i = first_match(order, explains_move(ids, order))->0;
    lemma_first_match_is_first(order, explains_move(ids, order));
    assert(command_view(r) == move_command(ids, order));
    assert(queue_item_ids@ == seq![order[i]]);
    let moved = order[i];
    lemma_outside_filter(ids, seq![moved]);
    lemma_outside_filter(order, seq![moved]);
    let p = |id: i32| !seq![moved].contains(id);
    let q = |id: i32| id != moved;
    assert forall|id: i32| #[trigger] p(id) <==> q(id) by {
        assert(seq![moved][0] == moved);
        if seq![moved].contains(id) {
            assert(id == moved);
        }
    }
    assert forall|k: int| 0 <= k < ids.len() implies ids.contains(#[trigger] ids[k]) by {}
    assert forall|k: int| 0 <= k < order.len() implies order.contains(#[trigger] order[k]) by {}
    lemma_filters_agree(ids, ids, p, q);
    lemma_filters_agree(order, order, p, q);
    let rest = ids.filter(|id: i32| id != moved);
    lemma_filters_agree(ids, ids, p, |id: i32| id != moved);
    assert forall|k: int| 0 <= k < order.len() implies (p(#[trigger] order[k]) <==> k != i) by {
        assert(p(order[k]) <==> q(order[k]));
    }
    lemma_without_one(order, i, p);
    assert(explains_move(ids, order)(moved));
    assert(rest == order.take(i) + order.skip(i + 1));
    assert(rest.insert(i, moved) =~= order);
}

proof fn lemma_without_one(ids: Seq<i32>, i: int, p: spec_fn(i32) -> bool)
    requires
        0 <= i < ids.len(),
        forall|k: int| 0 <= k < ids.len() ==> (p(#[trigger] ids[k]) <==> k != i),
    ensures
        ids.filter(p) == ids.take(i) + ids.skip(i + 1),
{
    let front = ids.take(i);
    let mid = seq![ids[i]];
    let back = ids.skip(i + 1);
    assert(ids =~= front + mid + back);
    Seq::filter_distributes_over_add(front + mid, back, p);
    Seq::filter_distributes_over_add(front, mid, p);
    assert forall|k: int| 0 <= k < front.len() implies p(#[trigger] front[k]) by {
        assert(front[k] == ids[k]);
    }
    assert forall|k: int| 0 <= k < back.len() implies p(#[trigger] back[k]) by {
        assert(back[k] == ids[i + 1 + k]);
    }
    lemma_all_pass(front, p);
    lemma_all_pass(back, p);
    let none = Seq::<i32>::empty();
    lemma_all_pass(none, p);
    assert(mid.filter(p) == none) by {
        reveal(Seq::filter);
        assert(mid.drop_last() =~= none);
        assert(!p(ids[i]));
    }
    assert(ids.filter(p) =~= front + back);
}

proof fn lemma_all_pass(s: Seq<i32>, p: spec_fn(i32) -> bool)
    requires
        forall|k: int| 0 <= k < s.len() ==> p(#[trigger] s[k]),
    ensures
        s.filter(p) == s,
    decreases s.len(),
{
    reveal(Seq::filter);
    if s.len() > 0 {
        let rest = s.drop_last();
        assert forall|k: int| 0 <= k < rest.len() implies p(#[trigger] rest[k]) by {
            assert(rest[k] == s[k]);
        }
        lemma_all_pass(rest, p);
        assert(p(s[s.len() - 1]));
        assert(s.filter(p) =~= s);
    } else {
        assert(s.filter(p) =~= s);
    }
}

/// Where one item was moved and nothing else has changed, a move is asked for, and nothing more
/// than that.
pub proof fn law_one_move_asks_for_one_move(
    session: &[(i32, u32)],
    local: &[LocalItem],
    current: usize,
    r: Option<ControllerCommand>,
    ids: Seq<i32>,
    order: Seq<i32>,
    moved: i32,
)
    requires
        call_ensures(delta, (session, local, current), r),
        is_queue_of(session@, ids),
        is_known_as(local@, order),
        ids.len() == order.len(),
        ids != order,
        order.contains(moved),
        forall|k: int| 0 <= k < order.len() ==> ids.contains(#[trigger] order[k]),
        forall|k: int| 0 <= k < ids.len() ==> order.contains(#[trigger] ids[k]),
        ids.filter(|id: i32| id != moved) == order.filter(|id: i32| id != moved),
    ensures
        r matches Some(command) && command is ReorderTracks,
{
    lemma_queue_of(session@, ids);
    lemma_known_as(local@, order);
    lemma_outside_filter(ids, seq![moved]);
    lemma_outside_filter(order, seq![moved]);
    lemma_inside_filter(ids, order);
    lemma_all_pass(ids, |id: i32| order.contains(id));
    let p = |id: i32| !seq![moved].contains(id);
    let q = |id: i32| id != moved;
    assert forall|id: i32| #[trigger] p(id) <==> q(id) by {
        assert(seq![moved][0] == moved);
        if seq![moved].contains(id) {
            assert(id == moved);
        }
    }
    assert forall|k: int| 0 <= k < ids.len() implies ids.contains(#[trigger] ids[k]) by {}
    assert forall|k: int| 0 <= k < order.len() implies order.contains(#[trigger] order[k]) by {}
    lemma_filters_agree(ids, ids, p, q);
    lemma_filters_agree(order, order, p, q);
    let at = choose|at: int| 0 <= at < order.len() && order[at] == moved;
    assert(explains_move(ids, order)(order[at]));
    lemma_match_exists(order, explains_move(ids, order), at);
}

/// New items between items that the session knows are inserted there, all at once and in their
/// order: behind the item that stands before them, or at the front. At the end they are added.
pub proof fn law_new_items_are_sent_to_their_place(
    session: &[(i32, u32)],
    local: &[LocalItem],
    current: usize,
    r: Option<ControllerCommand>,
    ids: Seq<i32>,
    at: int,
    end: int,
)
    requires
        call_ensures(delta, (session, local, current), r),
        is_queue_of(session@, ids),
        ids.len() > 0,
        0 <= at < end <= local@.len(),
        local@.len() == ids.len() + (end - at),
        forall|i: int| 0 <= i < at ==> (#[trigger] local@[i]).1 == Some(ids[i]),
        forall|i: int| at <= i < end ==> (#[trigger] local@[i]).1 is None,
        forall|i: int|
            end <= i < local@.len() ==> (#[trigger] local@[i]).1 == Some(ids[i - (end - at)]),
    ensures
        end < local@.len() ==> (r matches Some(command) && (
        command matches ControllerCommand::InsertTracks {
            track_ids,
            after,
            shuffle_seed,
            autoplay,
        } && {
            &&& track_ids@.len() == end - at
            &&& forall|i: int|
                0 <= i < end - at ==> #[trigger] track_ids@[i] == local@[at + i].2
            &&& at > 0 ==> after == Some(ids[at - 1])
            &&& at == 0 ==> after is None
            &&& shuffle_seed is None
            &&& is_plain(autoplay)
        })),
        end == local@.len() ==> (r matches Some(command) && (
        command matches ControllerCommand::AddTracks { track_ids, shuffle_seed, autoplay } && {
            &&& track_ids@.len() == end - at
            &&& forall|i: int|
                0 <= i < end - at ==> #[trigger] track_ids@[i] == local@[at + i].2
            &&& shuffle_seed is None
            &&& is_plain(autoplay)
        })),
{
    let all = local@;
    lemma_queue_of(session@, ids);
    lemma_around(all, ids, at, end);
    assert forall|k: int| 0 <= k < known_ids(all).len() implies ids.contains(
        #[trigger] known_ids(all)[k],
    ) by {
        assert(ids[k] == known_ids(all)[k]);
    }
    if at > 0 {
        assert(all[at - 1].1 == Some(ids[at - 1]));
    }
}

proof fn lemma_around(all: Seq<LocalItem>, ids: Seq<i32>, at: int, end: int)
    requires
        0 <= at < end <= all.len(),
        all.len() == ids.len() + (end - at),
        forall|i: int| 0 <= i < at ==> (#[trigger] all[i]).1 == Some(ids[i]),
        forall|i: int| at <= i < end ==> (#[trigger] all[i]).1 is None,
        forall|i: int| end <= i < all.len() ==> (#[trigger] all[i]).1 == Some(ids[i - (end - at)]),
    ensures
        known_ids(all) == ids,
        first_match(all, is_new()) == Some(at),
        run_end(all, at) == end,
{
    let front = all.take(at);
    let run = all.subrange(at, end);
    let back = all.skip(end);
    assert(known_ids(all) == ids) by {
        assert forall|i: int| 0 <= i < front.len() implies (#[trigger] front[i]).1 == Some(
            ids.take(at)[i],
        ) by {
            assert(all[i].1 == Some(ids[i]));
        }
        lemma_known_as(front, ids.take(at));
        assert forall|i: int| 0 <= i < back.len() implies (#[trigger] back[i]).1 == Some(
            ids.skip(at)[i],
        ) by {
            assert(all[end + i].1 == Some(ids[at + i]));
        }
        lemma_known_as(back, ids.skip(at));
        assert forall|i: int| 0 <= i < run.len() implies is_new()(#[trigger] run[i]) by {
            assert(all[at + i].1 is None);
        }
        lemma_new_items_have_no_ids(run);
        assert(all =~= front + (run + back));
        lemma_known_joined(front, run + back);
        lemma_known_joined(run, back);
        assert(known_ids(all) =~= ids);
    }
    assert(is_first(all, is_new(), at)) by {
        assert(all[at].1 is None);
        assert forall|j: int| 0 <= j < at implies !is_new()(#[trigger] all[j]) by {
            assert(all[j].1 == Some(ids[j]));
        }
    }
    lemma_first_match(all, is_new(), at);
    let tail = all.skip(at);
    assert forall|j: int| 0 <= j < end - at implies !is_known()(#[trigger] tail[j]) by {
        assert(all[at + j].1 is None);
    }
    if end < all.len() {
        assert(all[end].1 is Some);
        assert(is_known()(tail[end - at]));
        lemma_first_match(tail, is_known(), end - at);
    } else {
        lemma_no_match(tail, is_known());
    }
}

proof fn lemma_known_joined(front: Seq<LocalItem>, back: Seq<LocalItem>)
    ensures
        known_ids(front + back) == known_ids(front) + known_ids(back),
    decreases back.len(),
{
    if back.len() == 0 {
        assert(front + back =~= front);
        assert(known_ids(front) + known_ids(back) =~= known_ids(front));
    } else {
        lemma_known_joined(front, back.drop_last());
        assert((front + back).drop_last() =~= front + back.drop_last());
        assert(known_ids(front + back) =~= known_ids(front) + known_ids(back));
    }
}

} // verus!

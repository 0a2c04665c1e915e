//! Keeping a shared session's queue in step with the local one.

use vstd::prelude::*;
use crate::sequences::{
    first_match, lemma_first_match, lemma_first_match_is_first, lemma_no_match,
};

verus! {

/// Hints about the autoplay tracks that follow the queue.
#[derive(Clone, Copy, Debug, PartialEq, Eq, Structural)]
pub struct Autoplay {
    pub reset: bool,
    pub loading: bool,
}

/// What is asked of the session and of its renderers.
#[derive(Debug, PartialEq)]
pub enum ControllerCommand {
    SetActiveRenderer(i32),
    ClearQueue,
    /// Replaces the queue and starts at `position`.
    LoadTracks {
        track_ids: Vec<u32>,
        position: u32,
        shuffle_seed: Option<u32>,
        shuffle_pivot_index: Option<i32>,
        autoplay: Autoplay,
    },
    /// Inserts after the given queue item, or at the front.
    InsertTracks {
        track_ids: Vec<u32>,
        after: Option<i32>,
        shuffle_seed: Option<u32>,
        autoplay: Autoplay,
    },
    AddTracks { track_ids: Vec<u32>, shuffle_seed: Option<u32>, autoplay: Autoplay },
    RemoveTracks { queue_item_ids: Vec<i32>, autoplay: Autoplay },
    /// Moves the given queue items after another one, or to the front.
    ReorderTracks { queue_item_ids: Vec<i32>, after: Option<i32>, autoplay: Autoplay },
}

/// A command with its lists as sequences.
pub enum CommandModel {
    SetActiveRenderer(i32),
    ClearQueue,
    LoadTracks {
        track_ids: Seq<u32>,
        position: u32,
        shuffle_seed: Option<u32>,
        shuffle_pivot_index: Option<i32>,
        autoplay: Autoplay,
    },
    InsertTracks {
        track_ids: Seq<u32>,
        after: Option<i32>,
        shuffle_seed: Option<u32>,
        autoplay: Autoplay,
    },
    AddTracks { track_ids: Seq<u32>, shuffle_seed: Option<u32>, autoplay: Autoplay },
    RemoveTracks { queue_item_ids: Seq<i32>, autoplay: Autoplay },
    ReorderTracks { queue_item_ids: Seq<i32>, after: Option<i32>, autoplay: Autoplay },
}

impl View for ControllerCommand {
    type V = CommandModel;

    open spec fn view(&self) -> CommandModel {
        match self {
            ControllerCommand::SetActiveRenderer(id) => CommandModel::SetActiveRenderer(*id),
            ControllerCommand::ClearQueue => CommandModel::ClearQueue,
            ControllerCommand::LoadTracks {
                track_ids,
                position,
                shuffle_seed,
                shuffle_pivot_index,
                autoplay,
            } => CommandModel::LoadTracks {
                track_ids: track_ids@,
                position: *position,
                shuffle_seed: *shuffle_seed,
                shuffle_pivot_index: *shuffle_pivot_index,
                autoplay: *autoplay,
            },
            ControllerCommand::InsertTracks { track_ids, after, shuffle_seed, autoplay } =>
                CommandModel::InsertTracks {
                track_ids: track_ids@,
                after: *after,
                shuffle_seed: *shuffle_seed,
                autoplay: *autoplay,
            },
            ControllerCommand::AddTracks { track_ids, shuffle_seed, autoplay } =>
                CommandModel::AddTracks {
                track_ids: track_ids@,
                shuffle_seed: *shuffle_seed,
                autoplay: *autoplay,
            },
            ControllerCommand::RemoveTracks { queue_item_ids, autoplay } =>
                CommandModel::RemoveTracks {
                queue_item_ids: queue_item_ids@,
                autoplay: *autoplay,
            },
            ControllerCommand::ReorderTracks { queue_item_ids, after, autoplay } =>
                CommandModel::ReorderTracks {
                queue_item_ids: queue_item_ids@,
                after: *after,
                autoplay: *autoplay,
            },
        }
    }
}

/// The command as a model, where there is one.
pub open spec fn command_view(command: Option<ControllerCommand>) -> Option<CommandModel> {
    match command {
        Some(command) => Some(command@),
        None => None,
    }
}

/// No hints about autoplay tracks.
pub open spec fn no_autoplay() -> Autoplay {
    Autoplay { reset: false, loading: false }
}

fn default_autoplay() -> (r: Autoplay)
    ensures
        r == no_autoplay(),
{
    Autoplay { reset: false, loading: false }
}

/// A local queue item: its queue id, its session id if it has one, and its track.
pub type LocalItem = (u64, Option<i32>, u32);

/// The session ids of the session's queue.
pub open spec fn session_ids(session: Seq<(i32, u32)>) -> Seq<i32> {
    session.map_values(|item: (i32, u32)| item.0)
}

/// The session ids of the local items that have one, in order.
pub open spec fn known_ids(local: Seq<LocalItem>) -> Seq<i32>
    decreases local.len(),
{
    if local.len() == 0 {
        Seq::empty()
    } else {
        let rest = known_ids(local.drop_last());
        match local.last().1 {
            Some(id) => rest.push(id),
            None => rest,
        }
    }
}

/// The tracks of local items.
pub open spec fn track_ids_of(local: Seq<LocalItem>) -> Seq<u32> {
    local.map_values(|item: LocalItem| item.2)
}

/// An item that the session does not know.
pub open spec fn is_new() -> spec_fn(LocalItem) -> bool {
    |item: LocalItem| item.1 is None
}

/// An item that the session knows.
pub open spec fn is_known() -> spec_fn(LocalItem) -> bool {
    |item: LocalItem| item.1 is Some
}

/// `ids` without those that `drop` holds.
pub open spec fn outside(ids: Seq<i32>, drop: Seq<i32>) -> Seq<i32>
    decreases ids.len(),
{
    if ids.len() == 0 {
        Seq::empty()
    } else {
        let rest = outside(ids.drop_last(), drop);
        if drop.contains(ids.last()) {
            rest
        } else {
            rest.push(ids.last())
        }
    }
}

/// `ids` without those that `keep` does not hold.
pub open spec fn inside(ids: Seq<i32>, keep: Seq<i32>) -> Seq<i32>
    decreases ids.len(),
{
    if ids.len() == 0 {
        Seq::empty()
    } else {
        let rest = inside(ids.drop_last(), keep);
        if keep.contains(ids.last()) {
            rest.push(ids.last())
        } else {
            rest
        }
    }
}

/// The command that loads the whole local queue.
pub open spec fn load_command(local: Seq<LocalItem>, current: int) -> CommandModel {
    CommandModel::LoadTracks {
        track_ids: track_ids_of(local),
        position: if 0 <= current <= u32::MAX {
            current as u32
        } else {
            0
        },
        shuffle_seed: None,
        shuffle_pivot_index: None,
        autoplay: no_autoplay(),
    }
}

/// The end of the run of new items that starts at `start`.
pub open spec fn run_end(local: Seq<LocalItem>, start: int) -> int {
    match first_match(local.skip(start), is_known()) {
        Some(n) => start + n,
        None => local.len() as int,
    }
}

/// The command for the first run of new items, if there is one.
pub open spec fn new_run_command(local: Seq<LocalItem>) -> Option<CommandModel> {
    match first_match(local, is_new()) {
        None => None,
        Some(start) => {
            let end = run_end(local, start);
            let track_ids = track_ids_of(local.subrange(start, end));
            Some(
                if end == local.len() {
                    CommandModel::AddTracks {
                        track_ids,
                        shuffle_seed: None,
                        autoplay: no_autoplay(),
                    }
                } else {
                    CommandModel::InsertTracks {
                        track_ids,
                        after: if start > 0 {
                            local[start - 1].1
                        } else {
                            None
                        },
                        shuffle_seed: None,
                        autoplay: no_autoplay(),
                    }
                },
            )
        },
    }
}

/// The queues agree but for the place of `moved`.
pub open spec fn explains_move(ids: Seq<i32>, known: Seq<i32>) -> spec_fn(i32) -> bool {
    |moved: i32| outside(ids, seq![moved]) == outside(known, seq![moved])
}

/// The command that moves one item, if one move makes the session's queue the known one.
pub open spec fn move_command(ids: Seq<i32>, known: Seq<i32>) -> Option<CommandModel> {
    match first_match(known, explains_move(ids, known)) {
        None => None,
        Some(i) => Some(
            CommandModel::ReorderTracks {
                queue_item_ids: seq![known[i]],
                after: if i > 0 {
                    Some(known[i - 1])
                } else {
                    None
                },
                autoplay: no_autoplay(),
            },
        ),
    }
}

/// The command that brings the session's queue to the local one, or nothing when they agree or
/// the local queue lags behind an adoption.
pub open spec fn delta_command(
    session: Seq<(i32, u32)>,
    local: Seq<LocalItem>,
    current: int,
) -> Option<CommandModel> {
    let ids = session_ids(session);
    let known = known_ids(local);
    if local.len() == 0 {
        if session.len() > 0 {
            Some(CommandModel::ClearQueue)
        } else {
            None
        }
    } else if exists|k: int| 0 <= k < known.len() && !ids.contains(#[trigger] known[k]) {
        None
    } else if known.len() == 0 {
        Some(load_command(local, current))
    } else if known == ids {
        new_run_command(local)
    } else if first_match(local, is_new()) is Some {
        Some(load_command(local, current))
    } else if inside(ids, known) == known {
        Some(
            CommandModel::RemoveTracks {
                queue_item_ids: outside(ids, known),
                autoplay: no_autoplay(),
            },
        )
    } else if known.len() == ids.len() && move_command(ids, known) is Some {
        move_command(ids, known)
    } else {
        Some(load_command(local, current))
    }
}

/// Whether `ids` holds `id`.
fn holds(ids: &Vec<i32>, id: i32) -> (r: bool)
    ensures
        r == ids@.contains(id),
{
    for i in 0..ids.len()
        invariant
            forall|j: int| 0 <= j < i ==> ids@[j] != id,
    {
        if ids[i] == id {
            return true;
        }
    }
    false
}

/// Whether the lists are equal.
fn same_ids(a: &Vec<i32>, b: &Vec<i32>) -> (r: bool)
    ensures
        r == (a@ == b@),
{
    if a.len() != b.len() {
        return false;
    }
    for i in 0..a.len()
        invariant
            a@.len() == b@.len(),
            forall|j: int| 0 <= j < i ==> a@[j] == b@[j],
    {
        if a[i] != b[i] {
            return false;
        }
    }
    assert(a@ =~= b@);
    true
}

/// `ids` without those that `drop` holds.
fn ids_outside(ids: &Vec<i32>, drop: &Vec<i32>) -> (r: Vec<i32>)
    ensures
        r@ == outside(ids@, drop@),
{
    let mut r: Vec<i32> = Vec::new();
    for i in 0..ids.len()
        invariant
            r@ == outside(ids@.take(i as int), drop@),
    {
        assert(ids@.take(i + 1).drop_last() =~= ids@.take(i as int));
        if !holds(drop, ids[i]) {
            r.push(ids[i]);
        }
    }
    assert(ids@.take(ids@.len() as int) =~= ids@);
    r
}

/// `ids` without those that `keep` does not hold.
fn ids_inside(ids: &Vec<i32>, keep: &Vec<i32>) -> (r: Vec<i32>)
    ensures
        r@ == inside(ids@, keep@),
{
    let mut r: Vec<i32> = Vec::new();
    for i in 0..ids.len()
        invariant
            r@ == inside(ids@.take(i as int), keep@),
    {
        assert(ids@.take(i + 1).drop_last() =~= ids@.take(i as int));
        if holds(keep, ids[i]) {
            r.push(ids[i]);
        }
    }
    assert(ids@.take(ids@.len() as int) =~= ids@);
    r
}

/// The controller command that brings the session's queue to the local one, or `None` when they
/// agree or the local queue lags behind an adoption.
pub fn delta(session_queue: &[(i32, u32)], local: &[LocalItem], current: usize) -> (r: Option<
    ControllerCommand,
>)
    ensures
        command_view(r) == delta_command(session_queue@, local@, current as int),
{
    let mut ids: Vec<i32> = Vec::new();
    for i in 0..session_queue.len()
        invariant
            ids@.len() == i,
            forall|j: int| 0 <= j < i ==> #[trigger] ids@[j] == session_queue@[j].0,
    {
        ids.push(session_queue[i].0);
    }
    assert(ids@ =~= session_ids(session_queue@));
    let mut known: Vec<i32> = Vec::new();
    for i in 0..local.len()
        invariant
            known@ == known_ids(local@.take(i as int)),
    {
        assert(local@.take(i + 1).drop_last() =~= local@.take(i as int));
        if let Some(id) = local[i].1 {
            known.push(id);
        }
    }
    assert(local@.take(local@.len() as int) =~= local@);
    if local.len() == 0 {
        return if session_queue.len() > 0 {
            Some(ControllerCommand::ClearQueue)
        } else {
            None
        };
    }
    for k in 0..known.len()
        invariant
            local@.len() > 0,
            ids@ == session_ids(session_queue@),
            known@ == known_ids(local@),
            forall|j: int| 0 <= j < k ==> ids@.contains(#[trigger] known@[j]),
    {
        if !holds(&ids, known[k]) {
            assert(!session_ids(session_queue@).contains(known_ids(local@)[k as int]));
            return None;
        }
    }
    if known.len() == 0 {
        return Some(load_tracks(local, current));
    }
    if same_ids(&known, &ids) {
        return first_new_run(local);
    }
    if first_new(local).is_some() {
        return Some(load_tracks(local, current));
    }
    let remaining = ids_inside(&ids, &known);
    if same_ids(&remaining, &known) {
        return Some(
            ControllerCommand::RemoveTracks {
                queue_item_ids: ids_outside(&ids, &known),
                autoplay: default_autoplay(),
            },
        );
    }
    if known.len() == ids.len() {
        if let Some(command) = single_move(&ids, &known) {
            return Some(command);
        }
    }
    Some(load_tracks(local, current))
}

fn load_tracks(local: &[LocalItem], current: usize) -> (r: ControllerCommand)
    ensures
        r@ == load_command(local@, current as int),
{
    ControllerCommand::LoadTracks {
        track_ids: tracks_between(local, 0, local.len()),
        position: if current as u128 <= u32::MAX as u128 {
            current as u32
        } else {
            0
        },
        shuffle_seed: None,
        shuffle_pivot_index: None,
        autoplay: default_autoplay(),
    }
}

/// The tracks of the items from `start` to before `end`.
fn tracks_between(local: &[LocalItem], start: usize, end: usize) -> (r: Vec<u32>)
    requires
        start <= end <= local@.len(),
    ensures
        r@ == track_ids_of(local@.subrange(start as int, end as int)),
        start == 0 && end == local@.len() ==> r@ == track_ids_of(local@),
{
    let mut tracks: Vec<u32> = Vec::new();
    let mut i: usize = start;
    while i < end
        invariant
            start <= i <= end <= local@.len(),
            tracks@.len() == i - start,
            forall|j: int| 0 <= j < tracks@.len() ==> #[trigger] tracks@[j] == local@[start + j].2,
        decreases end - i,
    {
        tracks.push(local[i].2);
        i += 1;
    }
    assert(tracks@ =~= track_ids_of(local@.subrange(start as int, end as int)));
    assert(start == 0 && end == local@.len() ==> tracks@ =~= track_ids_of(local@));
    tracks
}

/// The place of the first item that the session does not know.
fn first_new(local: &[LocalItem]) -> (r: Option<usize>)
    ensures
        match r {
            Some(i) => first_match(local@, is_new()) == Some(i as int) && i < local@.len(),
            None => first_match(local@, is_new()) is None,
        },
{
    for i in 0..local.len()
        invariant
            forall|j: int| 0 <= j < i ==> !is_new()(#[trigger] local@[j]),
    {
        if local[i].1.is_none() {
            proof {
                lemma_first_match(local@, is_new(), i as int);
            }
            return Some(i);
        }
    }
    proof {
        lemma_no_match(local@, is_new());
    }
    None
}

fn first_new_run(local: &[LocalItem]) -> (r: Option<ControllerCommand>)
    ensures
        command_view(r) == new_run_command(local@),
{
    let start: usize = match first_new(local) {
        Some(start) => start,
        None => return None,
    };
    let total: usize = local.len();
    let ghost tail = local@.skip(start as int);
    let mut end: usize = start;
    while end < total && local[end].1.is_none()
        invariant
            total == local@.len(),
            start <= end <= total,
            tail == local@.skip(start as int),
            forall|j: int| 0 <= j < end - start ==> !is_known()(#[trigger] tail[j]),
        decreases total - end,
    {
        end += 1;
    }
    proof {
        if end < total {
            lemma_first_match(tail, is_known(), end - start);
        } else {
            lemma_no_match(tail, is_known());
        }
    }
    let track_ids = tracks_between(local, start, end);
    Some(
        if end == total {
            ControllerCommand::AddTracks {
                track_ids,
                shuffle_seed: None,
                autoplay: default_autoplay(),
            }
        } else {
            ControllerCommand::InsertTracks {
                track_ids,
                after: if start > 0 {
                    local[start - 1].1
                } else {
                    None
                },
                shuffle_seed: None,
                autoplay: default_autoplay(),
            }
        },
    )
}

fn single_move(ids: &Vec<i32>, known: &Vec<i32>) -> (r: Option<ControllerCommand>)
    ensures
        command_view(r) == move_command(ids@, known@),
{
    for i in 0..known.len()
        invariant
            forall|j: int| 0 <= j < i ==> !explains_move(ids@, known@)(#[trigger] known@[j]),
    {
        let moved: i32 = known[i];
        let mut alone: Vec<i32> = Vec::new();
        alone.push(moved);
        assert(alone@ =~= seq![moved]);
        if same_ids(&ids_outside(ids, &alone), &ids_outside(known, &alone)) {
            proof {
                lemma_first_match(known@, explains_move(ids@, known@), i as int);
            }
            let command = ControllerCommand::ReorderTracks {
                queue_item_ids: alone,
                after: if i > 0 {
                    Some(known[i - 1])
                } else {
                    None
                },
                autoplay: default_autoplay(),
            };
            return Some(command);
        }
    }
    proof {
        lemma_no_match(known@, explains_move(ids@, known@));
    }
    None
}

/// `ids` after one of them was moved behind another one, or to the front.
pub open spec fn moved_behind(ids: Seq<i32>, moved: i32, after: Option<i32>) -> Seq<i32> {
    let rest = outside(ids, seq![moved]);
    let at = match after {
        Some(id) => match first_match(rest, |other: i32| other == id) {
            Some(i) => i + 1,
            None => rest.len() as int,
        },
        None => 0,
    };
    rest.insert(at, moved)
}

/// What is outside is what was there and is not dropped.
proof fn lemma_outside_contains(ids: Seq<i32>, drop: Seq<i32>, id: i32)
    ensures
        outside(ids, drop).contains(id) <==> ids.contains(id) && !drop.contains(id),
    decreases ids.len(),
{
    if ids.len() > 0 {
        let rest = outside(ids.drop_last(), drop);
        lemma_outside_contains(ids.drop_last(), drop, id);
        if ids.contains(id) {
            let k = choose|k: int| 0 <= k < ids.len() && ids[k] == id;
            if k < ids.len() - 1 {
                assert(ids.drop_last()[k] == id);
            }
        }
        if ids.drop_last().contains(id) {
            let k = choose|k: int| 0 <= k < ids.drop_last().len() && ids.drop_last()[k] == id;
            assert(ids[k] == id);
        }
        if !drop.contains(ids.last()) {
            let all = rest.push(ids.last());
            assert(all[rest.len() as int] == ids.last());
            if rest.contains(id) {
                let k = choose|k: int| 0 <= k < rest.len() && rest[k] == id;
                assert(all[k] == id);
            }
            if all.contains(id) {
                let k = choose|k: int| 0 <= k < all.len() && all[k] == id;
                if k < rest.len() {
                    assert(rest[k] == id);
                }
            }
        }
        if ids.last() == id {
            assert(ids[ids.len() - 1] == id);
        }
    }
}

proof fn lemma_dropping_the_missing(part: Seq<i32>, ids: Seq<i32>, known: Seq<i32>)
    requires
        forall|k: int| 0 <= k < part.len() ==> ids.contains(#[trigger] part[k]),
    ensures
        outside(part, outside(ids, known)) == inside(part, known),
    decreases part.len(),
{
    if part.len() > 0 {
        assert forall|k: int| 0 <= k < part.drop_last().len() implies ids.contains(
            #[trigger] part.drop_last()[k],
        ) by {
            assert(part[k] == part.drop_last()[k]);
        }
        lemma_dropping_the_missing(part.drop_last(), ids, known);
        assert(ids.contains(part[part.len() - 1]));
        lemma_outside_contains(ids, known, part.last());
    }
}

/// A removal makes the session's queue the local one: what remains of the session's items are
/// the local items, in order.
pub proof fn law_a_removal_reaches_the_local_queue(
    session: Seq<(i32, u32)>,
    local: Seq<LocalItem>,
    current: int,
    queue_item_ids: Seq<i32>,
    autoplay: Autoplay,
)
    requires
        delta_command(session, local, current) == Some(
            CommandModel::RemoveTracks { queue_item_ids, autoplay },
        ),
    ensures
        outside(session_ids(session), queue_item_ids) == known_ids(local),
        first_match(local, is_new()) is None,
{
    let ids = session_ids(session);
    let known = known_ids(local);
    assert forall|k: int| 0 <= k < ids.len() implies ids.contains(#[trigger] ids[k]) by {}
    lemma_dropping_the_missing(ids, ids, known);
}

proof fn lemma_outside_one(ids: Seq<i32>, i: int)
    requires
        ids.no_duplicates(),
        0 <= i < ids.len(),
    ensures
        outside(ids, seq![ids[i]]) == ids.take(i) + ids.skip(i + 1),
    decreases ids.len(),
{
    let one = seq![ids[i]];
    assert(one.contains(ids[i])) by {
        assert(one[0] == ids[i]);
    }
    let last = ids.len() - 1;
    let front = ids.drop_last();
    if i == last {
        lemma_outside_none(front, ids[i]);
        assert(ids.take(i) + ids.skip(i + 1) =~= front);
    } else {
        assert(front[i] == ids[i]);
        lemma_outside_one(front, i);
        assert(!one.contains(ids.last()));
        assert(ids.take(i) + ids.skip(i + 1) =~= (front.take(i) + front.skip(i + 1)).push(
            ids.last(),
        ));
    }
}

proof fn lemma_outside_none(ids: Seq<i32>, id: i32)
    requires
        forall|k: int| 0 <= k < ids.len() ==> #[trigger] ids[k] != id,
    ensures
        outside(ids, seq![id]) == ids,
    decreases ids.len(),
{
    if ids.len() > 0 {
        lemma_outside_none(ids.drop_last(), id);
        assert(ids[ids.len() - 1] != id);
        assert(!seq![id].contains(ids.last()));
        assert(ids.drop_last().push(ids.last()) =~= ids);
    } else {
        assert(ids =~= Seq::<i32>::empty());
    }
}

/// A move makes the session's queue the local one, where no item is queued twice.
pub proof fn law_a_move_reaches_the_local_queue(
    ids: Seq<i32>,
    known: Seq<i32>,
    moved: i32,
    after: Option<i32>,
)
    requires
        known.no_duplicates(),
        move_command(ids, known) == Some(
            CommandModel::ReorderTracks {
                queue_item_ids: seq![moved],
                after,
                autoplay: no_autoplay(),
            },
        ),
    ensures
        moved_behind(ids, moved, after) == known,
{
    lemma_first_match_is_first(known, explains_move(ids, known));
    let i = first_match(known, explains_move(ids, known))->0;
    assert(seq![known[i]][0] == seq![moved][0]);
    assert(explains_move(ids, known)(known[i]));
    let rest = outside(ids, seq![moved]);
    lemma_outside_one(known, i);
    assert(rest == known.take(i) + known.skip(i + 1));
    if i > 0 {
        let id = known[i - 1];
        let wanted = |other: i32| other == id;
        assert(rest[i - 1] == id);
        assert forall|j: int| 0 <= j < i - 1 implies !wanted(#[trigger] rest[j]) by {
            assert(rest[j] == known[j]);
        }
        lemma_first_match(rest, wanted, i - 1);
    }
    assert(rest.insert(i, moved) =~= known);
}

proof fn lemma_known_prefix(local: Seq<LocalItem>)
    requires
        forall|j: int| 0 <= j < local.len() ==> (#[trigger] local[j]).1 is Some,
    ensures
        known_ids(local).len() == local.len(),
        forall|j: int| 0 <= j < local.len() ==> local[j].1 == Some(#[trigger] known_ids(local)[j]),
    decreases local.len(),
{
    if local.len() > 0 {
        let rest = local.drop_last();
        assert forall|j: int| 0 <= j < rest.len() implies (#[trigger] rest[j]).1 is Some by {
            assert(rest[j] == local[j]);
        }
        lemma_known_prefix(rest);
        assert(local[local.len() - 1].1 is Some);
        assert forall|j: int| 0 <= j < local.len() implies local[j].1 == Some(
            #[trigger] known_ids(local)[j],
        ) by {
            if j < rest.len() {
                assert(known_ids(rest)[j] == known_ids(local)[j]);
                assert(rest[j] == local[j]);
            }
        }
    }
}

/// New items go where they stand locally: everything before the first run of new items is known
/// to the session, in the local order, so that the item before the run is where the run belongs;
/// the run ends at an item that the session knows or at the end of the queue.
pub proof fn law_a_new_run_follows_its_predecessor(local: Seq<LocalItem>)
    requires
        first_match(local, is_new()) is Some,
    ensures
        ({
            let start = first_match(local, is_new())->0;
            let end = run_end(local, start);
            let before = known_ids(local.take(start));
            &&& 0 <= start < end <= local.len()
            &&& before.len() == start
            &&& forall|j: int| 0 <= j < start ==> local[j].1 == Some(#[trigger] before[j])
            &&& forall|j: int| start <= j < end ==> is_new()(#[trigger] local[j])
            &&& end < local.len() ==> is_known()(local[end])
        }),
{
    lemma_first_match_is_first(local, is_new());
    let start = first_match(local, is_new())->0;
    let front = local.take(start);
    assert forall|j: int| 0 <= j < front.len() implies (#[trigger] front[j]).1 is Some by {
        assert(!is_new()(local[j]));
    }
    lemma_known_prefix(front);
    let tail = local.skip(start);
    lemma_first_match_is_first(tail, is_known());
    let end = run_end(local, start);
    assert(is_new()(local[start]));
    assert(tail[0] == local[start]);
    assert forall|j: int| start <= j < end implies is_new()(#[trigger] local[j]) by {
        assert(tail[j - start] == local[j]);
    }
    assert forall|j: int| 0 <= j < start implies local[j].1 == Some(
        #[trigger] known_ids(front)[j],
    ) by {
        assert(front[j] == local[j]);
    }
}

proof fn lemma_known_ids_joined(front: Seq<LocalItem>, back: Seq<LocalItem>)
    ensures
        known_ids(front + back) == known_ids(front) + known_ids(back),
    decreases back.len(),
{
    if back.len() == 0 {
        assert(front + back =~= front);
        assert(known_ids(front) + known_ids(back) =~= known_ids(front));
    } else {
        lemma_known_ids_joined(front, back.drop_last());
        assert((front + back).drop_last() =~= front + back.drop_last());
        assert(known_ids(front + back) =~= known_ids(front) + known_ids(back));
    }
}

/// A queue of new items holds none that the session knows.
pub proof fn lemma_new_items_have_no_ids(local: Seq<LocalItem>)
    requires
        forall|j: int| 0 <= j < local.len() ==> is_new()(#[trigger] local[j]),
    ensures
        known_ids(local) == Seq::<i32>::empty(),
    decreases local.len(),
{
    if local.len() > 0 {
        assert(is_new()(local[local.len() - 1]));
        assert forall|j: int| 0 <= j < local.drop_last().len() implies is_new()(
            #[trigger] local.drop_last()[j],
        ) by {
            assert(local.drop_last()[j] == local[j]);
        }
        lemma_new_items_have_no_ids(local.drop_last());
    }
}

/// New items reach the session: where the known items are those of the session, in its order, the
/// first run of new items is sent, to the place where it stands. The session's items before that
/// place are the local ones before the run, and those behind it are the known ones that follow;
/// a run at the end of the queue is added at the end of the session's.
pub proof fn law_an_insertion_reaches_the_session(
    session: Seq<(i32, u32)>,
    local: Seq<LocalItem>,
    current: int,
)
    requires
        known_ids(local).len() > 0,
        known_ids(local) == session_ids(session),
        first_match(local, is_new()) is Some,
    ensures
        ({
            let start = first_match(local, is_new())->0;
            let end = run_end(local, start);
            let run = track_ids_of(local.subrange(start, end));
            &&& 0 <= start < end <= local.len()
            &&& start <= session.len()
            &&& forall|j: int| 0 <= j < start ==> local[j].1 == Some(#[trigger] session[j].0)
            &&& known_ids(local.skip(end)) == session_ids(session).skip(start)
            &&& delta_command(session, local, current) == Some(
                if end == local.len() {
                    CommandModel::AddTracks {
                        track_ids: run,
                        shuffle_seed: None,
                        autoplay: no_autoplay(),
                    }
                } else {
                    CommandModel::InsertTracks {
                        track_ids: run,
                        after: if start > 0 {
                            Some(session[start - 1].0)
                        } else {
                            None
                        },
                        shuffle_seed: None,
                        autoplay: no_autoplay(),
                    }
                },
            )
            &&& end == local.len() ==> start == session.len()
        }),
{
    law_a_new_run_follows_its_predecessor(local);
    let start = first_match(local, is_new())->0;
    let end = run_end(local, start);
    let front = local.take(start);
    let run = local.subrange(start, end);
    let back = local.skip(end);
    assert(local =~= front + (run + back));
    lemma_known_ids_joined(front, run + back);
    lemma_known_ids_joined(run, back);
    assert forall|j: int| 0 <= j < run.len() implies is_new()(#[trigger] run[j]) by {
        assert(run[j] == local[start + j]);
    }
    lemma_new_items_have_no_ids(run);
    assert(known_ids(run) + known_ids(back) =~= known_ids(back));
    let ids = session_ids(session);
    assert(ids == known_ids(front) + known_ids(back));
    assert(ids.skip(start) =~= known_ids(back));
    assert forall|j: int| 0 <= j < start implies local[j].1 == Some(#[trigger] session[j].0) by {
        assert(ids[j] == known_ids(front)[j]);
        assert(local[j].1 == Some(known_ids(front)[j]));
    }
    assert(!(exists|k: int|
        0 <= k < known_ids(local).len() && !ids.contains(#[trigger] known_ids(local)[k])));
    if end == local.len() {
        assert(back =~= Seq::<LocalItem>::empty());
        assert(ids.len() == start);
    } else if start > 0 {
        assert(local[start - 1].1 == Some(session[start - 1].0));
    }
}

/// Nothing is asked of the session only where the queues agree or the local one lags behind an
/// adoption.
pub proof fn law_no_command_means_agreement(
    session: Seq<(i32, u32)>,
    local: Seq<LocalItem>,
    current: int,
)
    requires
        delta_command(session, local, current) is None,
        forall|k: int|
            0 <= k < known_ids(local).len() ==> session_ids(session).contains(
                #[trigger] known_ids(local)[k],
            ),
    ensures
        known_ids(local) == session_ids(session),
        first_match(local, is_new()) is None,
{
    if local.len() == 0 {
        assert(known_ids(local) =~= session_ids(session));
        lemma_no_match(local, is_new());
    }
}

} // verus!

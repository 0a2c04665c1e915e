//! The decisions behind the web pages: playlists, favourites and what is playing.

use vstd::prelude::*;
use crate::models::{PlaylistSimple, Track};
use crate::sequences::{first_match, lemma_first_match, lemma_no_match};
use crate::text::{decimal, decimal_text, owned, two_digit_text, two_digits};
use crate::tracklist::{playing, PlayingEntity, Tracklist};

verus! {

/// A track that was moved: where it was, and the place that it now stands before.
#[derive(Clone, Copy, Debug, PartialEq, Eq)]
pub struct MovedIndexOutput {
    pub moved_index: usize,
    pub insert_before: usize,
}

/// How far an item was moved: twice the distance, and one more to the right.
pub open spec fn move_rank(new_pos: int, old_idx: int) -> int {
    if new_pos >= old_idx {
        if new_pos == old_idx {
            0
        } else {
            2 * (new_pos - old_idx) + 1
        }
    } else {
        2 * (old_idx - new_pos)
    }
}

/// The item at `p` was moved the farthest; of several, it is the first.
pub open spec fn is_farthest(perm: Seq<usize>, p: int) -> bool {
    &&& 0 <= p < perm.len()
    &&& perm[p] != p
    &&& forall|i: int|
        0 <= i < perm.len() ==> move_rank(i, #[trigger] perm[i] as int) <= move_rank(
            p,
            perm[p] as int,
        )
    &&& forall|i: int|
        0 <= i < p ==> move_rank(i, #[trigger] perm[i] as int) < move_rank(p, perm[p] as int)
}

/// Every item stands where it stood.
pub open spec fn is_in_place(perm: Seq<usize>) -> bool {
    forall|i: int| 0 <= i < perm.len() ==> #[trigger] perm[i] == i
}

/// The item that an order moves: the one that was moved the farthest, to the right rather than to
/// the left, and the item that it now stands before.
pub fn moved_index(perm: &[usize]) -> (r: Option<MovedIndexOutput>)
    ensures
        match r {
            Some(output) => exists|p: int| #[trigger]
                is_farthest(perm@, p) && output.moved_index == perm@[p] && output.insert_before
                    == if p + 1 < perm@.len() {
                    perm@[p + 1] as int
                } else {
                    perm@.len() as int
                },
            None => forall|i: int| 0 <= i < perm@.len() ==> #[trigger] perm@[i] == i,
        },
        r is None ==> is_in_place(perm@),
{
    let total: usize = perm.len();
    let mut best: Option<usize> = None;
    for i in 0..total
        invariant
            total == perm@.len(),
            match best {
                Some(p) => p < i && is_farthest(perm@.take(i as int), p as int),
                None => forall|j: int| 0 <= j < i ==> #[trigger] perm@[j] == j,
            },
    {
        let old_idx: usize = perm[i];
        let ghost before = perm@.take(i as int);
        let ghost after = perm@.take(i + 1);
        assert(forall|j: int| 0 <= j < i ==> #[trigger] after[j] == before[j]);
        let distance: usize = if i >= old_idx {
            i - old_idx
        } else {
            old_idx - i
        };
        let right: bool = i > old_idx;
        let better: bool = match best {
            None => i != old_idx,
            Some(p) => {
                let known: usize = perm[p];
                let known_distance: usize = if p >= known {
                    p - known
                } else {
                    known - p
                };
                let known_right: bool = p > known;
                assert(before[p as int] == known);
                i != old_idx && (distance > known_distance || (distance == known_distance && right
                    && !known_right))
            },
        };
        if better {
            best = Some(i);
            assert(is_farthest(after, i as int)) by {
                assert forall|j: int| 0 <= j < i implies move_rank(j, #[trigger] after[j] as int)
                    < move_rank(i as int, after[i as int] as int) by {
                    assert(after[j] == before[j]);
                }
            }
        } else if let Some(p) = best {
            assert(is_farthest(after, p as int));
        }
    }
    assert(perm@.take(total as int) =~= perm@);
    match best {
        Some(p) => {
            assert(is_farthest(perm@, p as int));
            let insert_before: usize = if p < total - 1 {
                perm[p + 1]
            } else {
                total
            };
            Some(MovedIndexOutput { moved_index: perm[p], insert_before })
        },
        None => None,
    }
}

/// The order of `n` items after the one at `from` was moved to `to`.
pub open spec fn moved_order(n: int, from: int, to: int) -> Seq<usize> {
    Seq::new(
        n as nat,
        |i: int|
            if i == to {
                from as usize
            } else if from <= i < to {
                (i + 1) as usize
            } else if to < i <= from {
                (i - 1) as usize
            } else {
                i as usize
            },
    )
}

/// The order of `n` items when the one at `moved` is put before the one at `before`, or last
/// where there is none.
pub open spec fn put_before(n: int, moved: int, before: int) -> Seq<usize> {
    let rest = Seq::new(
        (n - 1) as nat,
        |i: int|
            if i < moved {
                i as usize
            } else {
                (i + 1) as usize
            },
    );
    rest.insert(
        if before <= moved {
            before
        } else {
            before - 1
        },
        moved as usize,
    )
}

/// A move is found again: where one item was moved, putting the item that is found before the
/// place that is found gives the same order.
pub proof fn law_a_move_is_found_again(n: int, from: int, to: int, p: int)
    requires
        0 <= from < n <= usize::MAX,
        0 <= to < n,
        from != to,
        is_farthest(moved_order(n, from, to), p),
    ensures
        ({
            let perm = moved_order(n, from, to);
            let before = if p + 1 < n {
                perm[p + 1] as int
            } else {
                n
            };
            put_before(n, perm[p] as int, before) == perm
        }),
{
    let perm = moved_order(n, from, to);
    assert(perm[to] == from);
    assert(move_rank(to, from) >= 2);
    let moved = perm[p] as int;
    let before = if p + 1 < n {
        perm[p + 1] as int
    } else {
        n
    };
    if p != to {
        assert(move_rank(p, moved) >= move_rank(to, from));
        if from < to {
            assert(from <= p < to);
            assert(moved == p + 1);
        } else {
            assert(to < p <= from);
            assert(moved == p - 1);
            assert(from == to + 1);
        }
    }
    assert(put_before(n, moved, before) =~= perm);
}

pub fn index_if_playlist(playing_entity: Option<&PlayingEntity>, playlist_id: u32) -> (r: Option<
    usize,
>)
    ensures
        r == (match playing_entity {
            Some(entity) => match *entity {
                PlayingEntity::Playlist(list) => if list.playlist_id == playlist_id {
                    Some(list.index)
                } else {
                    None
                },
                PlayingEntity::Track(_) => None,
            },
            None => None,
        }),
{
    match playing_entity {
        Some(PlayingEntity::Playlist(list)) => if list.playlist_id == playlist_id {
            Some(list.index)
        } else {
            None
        },
        _ => None,
    }
}

/// A time in minutes and seconds.
pub open spec fn minutes_and_seconds(mseconds: nat) -> Seq<char> {
    two_digits(mseconds / 1000 / 60) + ":"@ + two_digits(mseconds / 1000 % 60)
}

pub fn mseconds_to_mm_ss(mseconds: u128) -> (r: String)
    ensures
        r@ == minutes_and_seconds(mseconds as nat),
{
    let seconds: u128 = mseconds / 1000;
    two_digit_text(seconds / 60).concat(":").concat(two_digit_text(seconds % 60).as_str())
}

/// What the page of the track that plays shows.
#[derive(Debug, PartialEq)]
pub struct NowPlayingContext {
    pub position_string: String,
    pub duration_string: String,
}

/// The texts of the page of the track that plays; the position is in nanoseconds.
pub fn now_playing_context(tracklist: &Tracklist, position: u128) -> (r: NowPlayingContext)
    ensures
        r.position_string@ == minutes_and_seconds((position / 1_000_000) as nat),
        r.duration_string@ == minutes_and_seconds(
            match first_match(tracklist.items(), playing()) {
                Some(i) => {
                    let mseconds = tracklist.items()[i].track.duration_seconds * 1000;
                    if mseconds > u32::MAX {
                        u32::MAX as nat
                    } else {
                        mseconds as nat
                    }
                },
                None => 0,
            },
        ),
{
    let duration: u128 = match tracklist.current_track() {
        Some(track) => {
            let mseconds: u128 = track.duration_seconds as u128 * 1000;
            if mseconds > u32::MAX as u128 {
                u32::MAX as u128
            } else {
                mseconds
            }
        },
        None => 0,
    };
    NowPlayingContext {
        position_string: mseconds_to_mm_ss(position / 1_000_000),
        duration_string: mseconds_to_mm_ss(duration),
    }
}

/// What a new order of a playlist asks of the service.
#[derive(Clone, Copy, Debug, PartialEq, Eq)]
pub enum ReorderPlan {
    /// Nothing was moved.
    Nothing,
    Move { insert_before: usize, playlist_track_id: u64 },
    /// The moved track is not one of the playlist.
    Failed,
}

/// What a new order of a playlist asks of the service: the one track that was moved is moved.
pub fn reorder_plan(tracks: &Vec<Track>, new_order: &[usize]) -> (r: ReorderPlan)
    ensures
        if forall|i: int| 0 <= i < new_order@.len() ==> #[trigger] new_order@[i] == i {
            r == ReorderPlan::Nothing
        } else {
            exists|p: int| #[trigger]
                is_farthest(new_order@, p) && r == (if new_order@[p] < tracks@.len()
                    && tracks@[new_order@[p] as int].playlist_track_id is Some {
                    ReorderPlan::Move {
                        insert_before: if p + 1 < new_order@.len() {
                            new_order@[p + 1]
                        } else {
                            new_order@.len() as usize
                        },
                        playlist_track_id: tracks@[new_order@[p] as int].playlist_track_id->0,
                    }
                } else {
                    ReorderPlan::Failed
                })
        },
{
    match moved_index(new_order) {
        None => ReorderPlan::Nothing,
        Some(output) => {
            if output.moved_index >= tracks.len() {
                return ReorderPlan::Failed;
            }
            match tracks[output.moved_index].playlist_track_id {
                Some(id) => ReorderPlan::Move {
                    insert_before: output.insert_before,
                    playlist_track_id: id,
                },
                None => ReorderPlan::Failed,
            }
        },
    }
}

/// A playlist of the user.
pub open spec fn is_owned() -> spec_fn(PlaylistSimple) -> bool {
    |playlist: PlaylistSimple| playlist.is_owned
}

/// The playlists that a track can be added to: those of the user.
pub fn owned_playlists(playlists: &[PlaylistSimple]) -> (r: Vec<PlaylistSimple>)
    ensures
        r@ == playlists@.filter(is_owned()),
{
    let mut kept: Vec<PlaylistSimple> = Vec::new();
    for i in 0..playlists.len()
        invariant
            kept@ == playlists@.take(i as int).filter(is_owned()),
    {
        proof {
            reveal(Seq::filter);
            assert(playlists@.take(i + 1).drop_last() =~= playlists@.take(i as int));
        }
        if playlists[i].is_owned {
            kept.push(playlists[i].clone());
        }
    }
    assert(playlists@.take(playlists@.len() as int) =~= playlists@);
    kept
}

/// What the page of a playlist shows beside its tracks.
pub struct PlaylistContent {
    pub duration_minutes: u32,
    pub is_favorite: bool,
    pub click: String,
    pub playing_index: Option<usize>,
}

/// What the page of a playlist shows beside its tracks.
pub fn playlist_content(
    playlist_id: u32,
    duration_seconds: u32,
    favorites: &Vec<PlaylistSimple>,
    playing_entity: Option<&PlayingEntity>,
) -> (r: PlaylistContent)
    ensures
        r.duration_minutes == duration_seconds / 60,
        r.is_favorite == exists|i: int|
            0 <= i < favorites@.len() && (#[trigger] favorites@[i]).id == playlist_id,
        r.click@ == "/playlist/"@ + decimal(playlist_id as nat) + "/play/"@,
        r.playing_index == (match playing_entity {
            Some(entity) => match *entity {
                PlayingEntity::Playlist(list) => if list.playlist_id == playlist_id {
                    Some(list.index)
                } else {
                    None
                },
                PlayingEntity::Track(_) => None,
            },
            None => None,
        }),
{
    let mut is_favorite: bool = false;
    for i in 0..favorites.len()
        invariant
            is_favorite == exists|j: int|
                0 <= j < i && (#[trigger] favorites@[j]).id == playlist_id,
    {
        if favorites[i].id == playlist_id {
            is_favorite = true;
        }
    }
    PlaylistContent {
        duration_minutes: duration_seconds / 60,
        is_favorite,
        click: owned("/playlist/").concat(decimal_text(playlist_id as u128).as_str()).concat(
            "/play/",
        ),
        playing_index: index_if_playlist(playing_entity, playlist_id),
    }
}

/// The address of the contents of a playlist.
pub fn content_url(playlist_id: u32) -> (r: String)
    ensures
        r@ == "/playlist/"@ + decimal(playlist_id as nat) + "/content"@,
{
    owned("/playlist/").concat(decimal_text(playlist_id as u128).as_str()).concat("/content")
}

/// The address of a playlist that was made.
pub fn playlist_url(playlist_id: u32) -> (r: String)
    ensures
        r@ == "/playlist/"@ + decimal(playlist_id as nat),
{
    owned("/playlist/").concat(decimal_text(playlist_id as u128).as_str())
}

/// What is done with the tracks of a playlist.
#[derive(Clone, Copy, Debug, PartialEq, Eq, Structural)]
pub enum PlaylistAction {
    AddToQueue,
    PlayNext,
}

/// The message after something was done with a playlist.
pub fn action_message(action: PlaylistAction, title: &str) -> (r: String)
    ensures
        r@ == match action {
            PlaylistAction::AddToQueue => title@ + " added to queue"@,
            PlaylistAction::PlayNext => "Playing "@ + title@ + " next"@,
        },
{
    match action {
        PlaylistAction::AddToQueue => owned(title).concat(" added to queue"),
        PlaylistAction::PlayNext => owned("Playing ").concat(title).concat(" next"),
    }
}

/// The message after a track was added to a playlist.
pub fn added_message(title: &str) -> (r: String)
    ensures
        r@ == "Added to "@ + title@,
{
    owned("Added to ").concat(title)
}

/// So many tracks before the chosen one are queued too.
pub const TRACKS_BEFORE: usize = 3;

/// What playing a favourite track does.
#[derive(Debug, PartialEq)]
pub enum FavoritePlan {
    /// These tracks are queued and the one at `start_index` plays.
    PlayTracks { track_ids: Vec<u32>, start_index: usize },
    PlayTrack(u32),
}

/// The track has the id.
pub open spec fn has_track_id(id: u32) -> spec_fn(Track) -> bool {
    |track: Track| track.id == id
}

/// What playing a favourite track does: the favourites are queued from shortly before it; a track
/// that is not a favourite plays alone.
pub fn play_favorite_track(tracks: &Vec<Track>, track_id: u32) -> (r: FavoritePlan)
    ensures
        match first_match(tracks@, has_track_id(track_id)) {
            Some(pos) => {
                let start = if pos < TRACKS_BEFORE {
                    0
                } else {
                    pos - TRACKS_BEFORE
                };
                r matches FavoritePlan::PlayTracks { track_ids, start_index } && start_index == pos
                    - start && track_ids@ == tracks@.skip(start).map_values(|t: Track| t.id)
            },
            None => r == FavoritePlan::PlayTrack(track_id),
        },
{
    let total: usize = tracks.len();
    let mut pos: usize = 0;
    while pos < total && tracks[pos].id != track_id
        invariant
            total == tracks@.len(),
            pos <= total,
            forall|j: int| 0 <= j < pos ==> !has_track_id(track_id)(#[trigger] tracks@[j]),
        decreases total - pos,
    {
        pos += 1;
    }
    if pos == total {
        proof {
            lemma_no_match(tracks@, has_track_id(track_id));
        }
        return FavoritePlan::PlayTrack(track_id);
    }
    proof {
        lemma_first_match(tracks@, has_track_id(track_id), pos as int);
    }
    let start: usize = pos.saturating_sub(TRACKS_BEFORE);
    let mut track_ids: Vec<u32> = Vec::new();
    let mut i: usize = start;
    while i < total
        invariant
            total == tracks@.len(),
            start <= i <= total,
            track_ids@.len() == i - start,
            forall|j: int|
                0 <= j < track_ids@.len() ==> #[trigger] track_ids@[j] == tracks@[start + j].id,
        decreases total - i,
    {
        track_ids.push(tracks[i].id);
        i += 1;
    }
    assert(track_ids@ =~= tracks@.skip(start as int).map_values(|t: Track| t.id));
    FavoritePlan::PlayTracks { track_ids, start_index: pos - start }
}

} // verus!

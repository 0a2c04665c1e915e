//! What a device of a vendor session can be relied on to do.

use vstd::prelude::*;
use crate::connect::{BufferState, PlayingState};
use crate::connect_laws::{current_at, none_plays};
use crate::models::{AudioQuality, TrackStatus};
use crate::player_connect::{
    action_models, can_handle, can_tell, convert_audio_quality, current_state, get_queue_index,
    get_queue_item_id, ids_left, is_id, moved_order, place_of, removals, reordering, ConnectState,
    PlaybackView, PlayerAction, PlayerActionModel, PlayerEvent, PlayerStatus, QueueRendererState,
    SessionTrack,
};
use crate::sequences::{
    first_match, is_first, lemma_first_match, lemma_first_match_is_first, lemma_match_exists,
    lemma_no_match,
};
use crate::tracklist::{playing, QueueItem, Tracklist};

verus! {

/// The first item with the id stands at `at` in the session's queue.
pub open spec fn stands_at(ids: Seq<u64>, id: u32, at: int) -> bool {
    &&& 0 <= at < ids.len()
    &&& ids[at] == id
    &&& forall|k: int| 0 <= k < at ==> #[trigger] ids[k] != id
}

/// The session's queue holds no item with the id.
pub open spec fn is_unknown(ids: Seq<u64>, id: u32) -> bool {
    forall|k: int| 0 <= k < ids.len() ==> #[trigger] ids[k] != id
}

proof fn lemma_place(ids: Seq<u64>, id: u32)
    ensures
        match place_of(ids, id) {
            Some(at) => stands_at(ids, id, at),
            None => is_unknown(ids, id),
        },
        forall|at: int| #[trigger] stands_at(ids, id, at) ==> place_of(ids, id) == Some(at),
        is_unknown(ids, id) ==> place_of(ids, id) is None,
{
    lemma_first_match_is_first(ids, is_id(id));
    match place_of(ids, id) {
        Some(at) => {
            assert(is_first(ids, is_id(id), at));
            assert forall|k: int| 0 <= k < at implies #[trigger] ids[k] != id by {
                assert(!is_id(id)(ids[k]));
            }
        },
        None => {
            assert forall|k: int| 0 <= k < ids.len() implies #[trigger] ids[k] != id by {
                assert(!is_id(id)(ids[k]));
            }
        },
    }
    assert forall|at: int| #[trigger] stands_at(ids, id, at) implies place_of(ids, id) == Some(
        at,
    ) by {
        lemma_first_match(ids, is_id(id), at);
    }
    if is_unknown(ids, id) {
        lemma_no_match(ids, is_id(id));
    }
}

proof fn lemma_playing(items: Seq<QueueItem>)
    ensures
        forall|at: int|
            #[trigger] current_at(items, at) ==> first_match(items, playing()) == Some(at),
        none_plays(items) ==> first_match(items, playing()) is None,
{
    assert forall|at: int| #[trigger] current_at(items, at) implies first_match(items, playing())
        == Some(at) by {
        lemma_first_match(items, playing(), at);
    }
    if none_plays(items) {
        lemma_no_match(items, playing());
    }
}

proof fn lemma_actions(r: Seq<PlayerAction>)
    ensures
        action_models(r).len() == r.len(),
        forall|i: int| 0 <= i < r.len() ==> action_models(r)[i] == (#[trigger] r[i])@,
{
}

/// An item is found where it stands first, and its local id is that of the local item there.
pub proof fn law_a_session_item_is_found(
    ids: &Vec<u64>,
    tracklist: &Tracklist,
    id: u32,
    index: Option<usize>,
    local: Option<u64>,
)
    requires
        call_ensures(get_queue_index, (ids, id), index),
        call_ensures(get_queue_item_id, (ids, tracklist, id), local),
    ensures
        index matches Some(at) ==> stands_at(ids@, id, at as int) && local == Some(
            tracklist.items()[at as int].queue_id,
        ),
        index is None ==> is_unknown(ids@, id) && local is None,
{
    lemma_place(ids@, id);
}

/// Told to pause or to stop, the player pauses first, and never plays.
pub proof fn law_a_device_pauses(
    state: &mut ConnectState,
    playback: &PlaybackView,
    playing_state: PlayingState,
    position_ms: Option<u32>,
    item: Option<u64>,
    r: Vec<PlayerAction>,
)
    requires
        call_ensures(
            ConnectState::handle_event,
            (
                state,
                playback,
                PlayerEvent::SetState {
                    playing: playing_state,
                    position_ms,
                    current_queue_item_id: item,
                },
            ),
            r,
        ),
        playing_state == PlayingState::Paused || playing_state == PlayingState::Stopped,
    ensures
        r@.len() >= 2,
        r@[0] is Pause,
        forall|i: int| 0 < i < r@.len() ==> !(#[trigger] r@[i] is Pause) && !(r@[i] is Play),
        final(state).queue_ids@ == old(state).queue_ids@,
{
    lemma_actions(r@);
}

/// Told to play, the player plays first, and never pauses.
pub proof fn law_a_device_plays(
    state: &mut ConnectState,
    playback: &PlaybackView,
    position_ms: Option<u32>,
    item: Option<u64>,
    r: Vec<PlayerAction>,
)
    requires
        call_ensures(
            ConnectState::handle_event,
            (
                state,
                playback,
                PlayerEvent::SetState {
                    playing: PlayingState::Playing,
                    position_ms,
                    current_queue_item_id: item,
                },
            ),
            r,
        ),
    ensures
        r@.len() >= 2,
        r@[0] is Play,
        forall|i: int| 0 < i < r@.len() ==> !(#[trigger] r@[i] is Pause) && !(r@[i] is Play),
        final(state).queue_ids@ == old(state).queue_ids@,
{
    lemma_actions(r@);
}

/// Where the state is unknown, the player neither plays nor pauses.
pub proof fn law_an_unknown_state_changes_nothing(
    state: &mut ConnectState,
    playback: &PlaybackView,
    position_ms: Option<u32>,
    item: Option<u64>,
    r: Vec<PlayerAction>,
)
    requires
        call_ensures(
            ConnectState::handle_event,
            (
                state,
                playback,
                PlayerEvent::SetState {
                    playing: PlayingState::Unknown,
                    position_ms,
                    current_queue_item_id: item,
                },
            ),
            r,
        ),
    ensures
        forall|i: int| 0 <= i < r@.len() ==> !(#[trigger] r@[i] is Pause) && !(r@[i] is Play),
{
    lemma_actions(r@);
}

/// A position that is asked for is sought before any jump, in nanoseconds for its milliseconds, and
/// none is sought otherwise but the start of an item that is jumped to.
pub proof fn law_a_device_seeks(
    state: &mut ConnectState,
    playback: &PlaybackView,
    playing_state: PlayingState,
    position_ms: Option<u32>,
    r: Vec<PlayerAction>,
)
    requires
        call_ensures(
            ConnectState::handle_event,
            (
                state,
                playback,
                PlayerEvent::SetState {
                    playing: playing_state,
                    position_ms,
                    current_queue_item_id: None,
                },
            ),
            r,
        ),
        playing_state != PlayingState::Unknown,
    ensures
        position_ms matches Some(ms) ==> r@.len() == 3 && (
        r@[1] matches PlayerAction::Seek(to) && to == ms * 1_000_000),
        position_ms is None ==> r@.len() == 2,
        r@.last() is RespondState,
{
    lemma_actions(r@);
}

/// An item of the queue is jumped to, and started from its beginning, unless it is where the player
/// is; the state is told last.
pub proof fn law_a_device_jumps(
    state: &mut ConnectState,
    playback: &PlaybackView,
    playing_state: PlayingState,
    item: u64,
    at: int,
    current: int,
    r: Vec<PlayerAction>,
)
    requires
        call_ensures(
            ConnectState::handle_event,
            (
                state,
                playback,
                PlayerEvent::SetState {
                    playing: playing_state,
                    position_ms: None,
                    current_queue_item_id: Some(item),
                },
            ),
            r,
        ),
        playing_state != PlayingState::Unknown,
        item <= u32::MAX,
        stands_at(old(state).queue_ids@, item as u32, at),
        old(state).queue_ids@.len() <= usize::MAX,
        current_at(playback.tracklist.items(), current) || (none_plays(playback.tracklist.items())
            && current == 0),
    ensures
        at != current ==> r@.len() == 4 && (
        r@[1] matches PlayerAction::SkipToPosition { index, force } && index == at && force)
            && r@[2] == PlayerAction::Seek(0),
        at == current ==> r@.len() == 2,
        r@.last() is RespondState,
{
    lemma_place(old(state).queue_ids@, item as u32);
    lemma_playing(playback.tracklist.items());
    lemma_actions(r@);
}

/// An item that the queue does not hold is not jumped to.
pub proof fn law_a_device_stays_without_the_item(
    state: &mut ConnectState,
    playback: &PlaybackView,
    playing_state: PlayingState,
    position_ms: Option<u32>,
    item: u64,
    r: Vec<PlayerAction>,
)
    requires
        call_ensures(
            ConnectState::handle_event,
            (
                state,
                playback,
                PlayerEvent::SetState {
                    playing: playing_state,
                    position_ms,
                    current_queue_item_id: Some(item),
                },
            ),
            r,
        ),
        item <= u32::MAX,
        is_unknown(old(state).queue_ids@, item as u32),
    ensures
        forall|i: int| 0 <= i < r@.len() ==> !(#[trigger] r@[i] is SkipToPosition),
{
    lemma_place(old(state).queue_ids@, item as u32);
    lemma_actions(r@);
}

/// The state that is told: playing only while a track plays, waiting only while it buffers, with
/// the position in milliseconds and the length of the current track.
pub proof fn law_a_device_tells_what_it_does(
    playback: &PlaybackView,
    ids: &Vec<u64>,
    r: QueueRendererState,
    at: int,
)
    requires
        call_ensures(current_state, (playback, ids), r),
        can_tell(ids@, playback.tracklist.items()),
        current_at(playback.tracklist.items(), at),
        playback.position / 1_000_000 <= u32::MAX,
    ensures
        r.playing == PlayingState::Playing <==> playback.status == PlayerStatus::Playing,
        r.playing == PlayingState::Stopped <==> playback.status == PlayerStatus::Stopped,
        r.playing == PlayingState::Paused <==> playback.status == PlayerStatus::Paused
            || playback.status == PlayerStatus::Buffering,
        r.buffer == BufferState::Buffering <==> playback.status == PlayerStatus::Buffering,
        r.buffer == BufferState::Ready <==> playback.status != PlayerStatus::Buffering,
        r.position == playback.position / 1_000_000,
        r.timestamp == playback.timestamp,
        r.duration matches Some(ms) && ms == playback.tracklist.items()[at].track.duration_seconds
            * 1000,
{
    lemma_playing(playback.tracklist.items());
}

/// The items that are told as the current one and the next are those whose ids stand in the
/// session's queue.
pub proof fn law_a_device_tells_its_items(
    playback: &PlaybackView,
    ids: &Vec<u64>,
    r: QueueRendererState,
    at: int,
    place: int,
)
    requires
        call_ensures(current_state, (playback, ids), r),
        can_tell(ids@, playback.tracklist.items()),
        current_at(playback.tracklist.items(), at),
        playback.tracklist.items()[at].queue_id <= u32::MAX,
    ensures
        ({
            let items = playback.tracklist.items();
            let id = items[at].queue_id as u32;
            &&& stands_at(ids@, id, place) ==> r.current_queue_item_id == Some(
                items[place].queue_id as i32,
            )
            &&& is_unknown(ids@, id) ==> r.current_queue_item_id is None
            &&& at + 1 < items.len() && items[at + 1].queue_id <= u32::MAX ==> {
                let next = items[at + 1].queue_id as u32;
                &&& stands_at(ids@, next, place) ==> r.next_queue_item_id == Some(
                    items[place].queue_id as i32,
                )
                &&& is_unknown(ids@, next) ==> r.next_queue_item_id is None
            }
        }),
{
    let items = playback.tracklist.items();
    lemma_playing(items);
    lemma_place(ids@, items[at].queue_id as u32);
    if at + 1 < items.len() {
        lemma_place(ids@, items[at + 1].queue_id as u32);
    }
}

/// A device that becomes active tells its volume, that it is not muted, its quality and its state.
pub proof fn law_an_active_device_presents_itself(
    state: &mut ConnectState,
    before: &ConnectState,
    playback: &PlaybackView,
    r: Vec<PlayerAction>,
    told: QueueRendererState,
)
    requires
        call_ensures(ConnectState::handle_event, (state, playback, PlayerEvent::SetActive), r),
        *before == *old(state),
        call_ensures(current_state, (playback, &before.queue_ids), told),
        can_tell(before.queue_ids@, playback.tracklist.items()),
    ensures
        r@.len() == 1,
        r@[0] == (PlayerAction::RespondActivation {
            muted: false,
            volume: playback.volume_percent,
            max_quality: old(state).audio_quality,
            playback: told,
        }),
{
    lemma_actions(r@);
}

/// The state that is answered after a change, on a heartbeat and on a change of playback is the
/// player's; a heartbeat tells it only of a player that plays or waits, and nothing is told while
/// not connected.
pub proof fn law_the_state_that_is_told_is_the_players(
    state: &mut ConnectState,
    before: &ConnectState,
    playback: &PlaybackView,
    event: PlayerEvent,
    r: Vec<PlayerAction>,
    report: Vec<PlayerAction>,
    told: QueueRendererState,
)
    requires
        call_ensures(ConnectState::handle_event, (state, playback, event), r),
        *before == *old(state),
        can_tell(before.queue_ids@, playback.tracklist.items()),
        call_ensures(ConnectState::handle_playback_changed, (before, playback), report),
        call_ensures(current_state, (playback, &before.queue_ids), told),
    ensures
        before.connected ==> report@.len() == 1 && report@[0] == PlayerAction::ReportState(told),
        !before.connected ==> report@.len() == 0,
        event is SetState ==> r@.len() > 0 && r@.last() == PlayerAction::RespondState(told),
        event is Heartbeat ==> r@.len() == 1 && (playback.status == PlayerStatus::Playing
            || playback.status == PlayerStatus::Buffering ==> r@[0]
            == PlayerAction::RespondHeartbeat(Some(told))),
        event is Heartbeat && playback.status != PlayerStatus::Playing && playback.status
            != PlayerStatus::Buffering ==> r@[0] == PlayerAction::RespondHeartbeat(None),
{
    lemma_actions(r@);
    lemma_actions(report@);
}

/// A volume that is asked for is set where it is another than the player's, and is answered; a
/// change that is only told is set and not answered.
pub proof fn law_a_device_takes_the_volume(
    state: &mut ConnectState,
    playback: &PlaybackView,
    event: PlayerEvent,
    volume: Option<u32>,
    r: Vec<PlayerAction>,
)
    requires
        call_ensures(ConnectState::handle_event, (state, playback, event), r),
        event == (PlayerEvent::SetVolume { volume }) || event == (PlayerEvent::VolumeChanged {
            volume,
        }),
    ensures
        ({
            let asked = if event is SetVolume {
                1int
            } else {
                0
            };
            let changes = volume is Some && volume->0 != playback.volume_percent;
            &&& changes ==> r@.len() == 1 + asked && r@[0] == PlayerAction::SetVolumePercent(
                volume->0,
            )
            &&& !changes ==> r@.len() == asked
            &&& event is SetVolume ==> r@.last() == PlayerAction::RespondVolume(volume)
        }),
{
    lemma_actions(r@);
}

/// The volume is reported as it is while connected.
pub proof fn law_a_device_reports_its_volume(
    state: &ConnectState,
    playback: &PlaybackView,
    r: Vec<PlayerAction>,
)
    requires
        call_ensures(ConnectState::handle_volume_changed, (state, playback), r),
    ensures
        state.connected ==> r@.len() == 1 && r@[0] == PlayerAction::ReportVolume(
            playback.volume_percent,
        ),
        !state.connected ==> r@.len() == 0,
{
    lemma_actions(r@);
}

/// A connection that is made or lost is noted, and no other event changes it.
pub proof fn law_a_connection_is_noted(
    state: &mut ConnectState,
    playback: &PlaybackView,
    event: PlayerEvent,
    r: Vec<PlayerAction>,
)
    requires
        call_ensures(ConnectState::handle_event, (state, playback, event), r),
    ensures
        event is Connected ==> final(state).connected && r@.len() == 0,
        event is Disconnected ==> !final(state).connected && r@.len() == 0,
        !(event is Connected) && !(event is Disconnected) ==> final(state).connected == old(state).connected,
        event is Ignored ==> r@.len() == 0 && final(state).queue_ids@ == old(state).queue_ids@,
        event is QueueCleared ==> r@.len() == 1 && r@[0] is ClearQueue,
        final(state).audio_quality == old(state).audio_quality,
{
    lemma_actions(r@);
}

/// A queue that is stated is loaded and does not start to play, and its items come behind those
/// that are known.
pub proof fn law_a_device_takes_a_stated_queue(
    state: &mut ConnectState,
    playback: &PlaybackView,
    tracks: Vec<SessionTrack>,
    r: Vec<PlayerAction>,
)
    requires
        call_ensures(
            ConnectState::handle_event,
            (state, playback, PlayerEvent::QueueState { tracks }),
            r,
        ),
    ensures
        r@.len() == 1,
        r@[0] matches PlayerAction::NewQueue { items, play } && items@ == tracks@ && !play,
        ({
            let ids = old(state).queue_ids@;
            let all = final(state).queue_ids@;
            &&& all.len() == ids.len() + tracks@.len()
            &&& all.take(ids.len() as int) == ids
            &&& forall|i: int|
                0 <= i < tracks@.len() ==> all[ids.len() + i] == (
                #[trigger] tracks@[i]).queue_item_id
        }),
{
    lemma_actions(r@);
    assert(final(state).queue_ids@.take(old(state).queue_ids@.len() as int)
        =~= old(state).queue_ids@);
}

/// A queue that is loaded anew takes the place of the one that was known, does not start to play,
/// and is entered where the session says, unless the player is there.
pub proof fn law_a_device_loads_a_queue(
    state: &mut ConnectState,
    playback: &PlaybackView,
    tracks: Vec<SessionTrack>,
    queue_position: Option<u32>,
    current: int,
    r: Vec<PlayerAction>,
)
    requires
        call_ensures(
            ConnectState::handle_event,
            (state, playback, PlayerEvent::QueueLoadTracks { tracks, queue_position }),
            r,
        ),
        current_at(playback.tracklist.items(), current) || (none_plays(playback.tracklist.items())
            && current == 0),
    ensures
        r@.len() >= 1,
        r@[0] matches PlayerAction::NewQueue { items, play } && items@ == tracks@ && !play,
        queue_position matches Some(at) ==> (at != current ==> r@.len() == 2 && (
        r@[1] matches PlayerAction::SkipToPosition { index, force } && index == at && force)),
        queue_position is None || queue_position->0 == current ==> r@.len() == 1,
        final(state).queue_ids@.len() == tracks@.len(),
        forall|i: int|
            0 <= i < tracks@.len() ==> final(state).queue_ids@[i] == (
            #[trigger] tracks@[i]).queue_item_id,
{
    lemma_playing(playback.tracklist.items());
    lemma_actions(r@);
}

/// Tracks that are added come last, in their order.
pub proof fn law_a_device_adds_tracks(
    state: &mut ConnectState,
    playback: &PlaybackView,
    tracks: Vec<SessionTrack>,
    r: Vec<PlayerAction>,
)
    requires
        call_ensures(
            ConnectState::handle_event,
            (state, playback, PlayerEvent::QueueTracksAdded { tracks }),
            r,
        ),
    ensures
        r@.len() == 1,
        r@[0] matches PlayerAction::AddTracksToQueue(list) && {
            &&& list@.len() == tracks@.len()
            &&& forall|i: int| 0 <= i < tracks@.len() ==> #[trigger] list@[i] == tracks@[i].track_id
        },
        ({
            let ids = old(state).queue_ids@;
            let all = final(state).queue_ids@;
            &&& all.len() == ids.len() + tracks@.len()
            &&& all.take(ids.len() as int) == ids
            &&& forall|i: int|
                0 <= i < tracks@.len() ==> all[ids.len() + i] == (
                #[trigger] tracks@[i]).queue_item_id
        }),
{
    lemma_actions(r@);
    assert(final(state).queue_ids@.take(old(state).queue_ids@.len() as int)
        =~= old(state).queue_ids@);
}

/// Tracks that are inserted keep their order, and the items around them theirs. They go to the
/// place that is named, where an item has that number, and else to the front.
pub proof fn law_a_device_inserts_tracks(
    state: &mut ConnectState,
    playback: &PlaybackView,
    tracks: Vec<SessionTrack>,
    after: i32,
    r: Vec<PlayerAction>,
)
    requires
        call_ensures(
            ConnectState::handle_event,
            (
                state,
                playback,
                PlayerEvent::QueueTracksInserted { tracks, insert_after: Some(after) },
            ),
            r,
        ),
        after >= 0,
        old(state).queue_ids@.contains(after as u64) ==> after <= old(state).queue_ids@.len(),
        tracks@.len() > 0,
    ensures
        r@.len() == 1,
        r@[0] matches PlayerAction::InsertTracksToQueue { tracks: list, insert_after } && {
            &&& insert_after == after
            &&& list@.len() == tracks@.len()
            &&& forall|i: int| 0 <= i < tracks@.len() ==> #[trigger] list@[i] == tracks@[i].track_id
        },
        ({
            let ids = old(state).queue_ids@;
            let all = final(state).queue_ids@;
            let at = if ids.contains(after as u64) {
                after as int
            } else {
                0
            };
            let n = tracks@.len() as int;
            &&& all.len() == ids.len() + n
            &&& all.take(at) == ids.take(at)
            &&& forall|i: int|
                0 <= i < n ==> all[at + i] == (#[trigger] tracks@[i]).queue_item_id
            &&& all.skip(at + n) == ids.skip(at)
        }),
{
    lemma_actions(r@);
    let ids = old(state).queue_ids@;
    let all = final(state).queue_ids@;
    let at = if ids.contains(after as u64) {
        after as int
    } else {
        0
    };
    assert(after as usize as u64 == after as u64);
    assert(all.take(at) =~= ids.take(at));
    assert(all.skip(at + tracks@.len()) =~= ids.skip(at));
}

/// An item that is removed leaves its place, in the session's queue and in the player's; one that
/// the queue does not hold changes nothing.
pub proof fn law_a_device_removes_an_item(
    state: &mut ConnectState,
    playback: &PlaybackView,
    queue_item_ids: Vec<u32>,
    at: int,
    r: Vec<PlayerAction>,
)
    requires
        call_ensures(
            ConnectState::handle_event,
            (state, playback, PlayerEvent::QueueTracksRemoved { queue_item_ids }),
            r,
        ),
        queue_item_ids@.len() == 1,
        old(state).queue_ids@.len() <= usize::MAX,
    ensures
        stands_at(old(state).queue_ids@, queue_item_ids@[0], at) ==> {
            &&& r@.len() == 1
            &&& r@[0] matches PlayerAction::RemoveIndexFromQueue(index) && index == at
            &&& final(state).queue_ids@ == old(state).queue_ids@.remove(at)
        },
        is_unknown(old(state).queue_ids@, queue_item_ids@[0]) ==> r@.len() == 0 && final(state).queue_ids@ == old(state).queue_ids@,
{
    let ids = old(state).queue_ids@;
    let gone = queue_item_ids@;
    lemma_place(ids, gone[0]);
    lemma_actions(r@);
    reveal_with_fuel(ids_left, 2);
    reveal_with_fuel(removals, 2);
    assert(gone.drop_last() =~= Seq::<u32>::empty());
    assert(ids_left(ids, gone.drop_last()) == ids);
    assert(removals(ids, gone.drop_last()) =~= Seq::<PlayerActionModel>::empty());
}

/// Items that are removed together leave one after the other.
pub proof fn law_items_are_removed_one_by_one(
    state: &mut ConnectState,
    first: &mut ConnectState,
    then: &mut ConnectState,
    playback: &PlaybackView,
    all: Vec<u32>,
    some: Vec<u32>,
    last: Vec<u32>,
    r: Vec<PlayerAction>,
    r1: Vec<PlayerAction>,
    r2: Vec<PlayerAction>,
)
    requires
        call_ensures(
            ConnectState::handle_event,
            (state, playback, PlayerEvent::QueueTracksRemoved { queue_item_ids: all }),
            r,
        ),
        call_ensures(
            ConnectState::handle_event,
            (first, playback, PlayerEvent::QueueTracksRemoved { queue_item_ids: some }),
            r1,
        ),
        call_ensures(
            ConnectState::handle_event,
            (then, playback, PlayerEvent::QueueTracksRemoved { queue_item_ids: last }),
            r2,
        ),
        *old(first) == *old(state),
        *old(then) == *final(first),
        last@.len() == 1,
        all@ == some@ + last@,
    ensures
        final(then).queue_ids@ == final(state).queue_ids@,
        action_models(r@) == action_models(r1@) + action_models(r2@),
{
    let ids = old(state).queue_ids@;
    let left = final(first).queue_ids@;
    assert(all@.drop_last() =~= some@);
    assert(all@.last() == last@[0]);
    assert(last@.drop_last() =~= Seq::<u32>::empty());
    reveal_with_fuel(ids_left, 2);
    reveal_with_fuel(removals, 2);
    assert(ids_left(left, last@.drop_last()) == left);
    assert(removals(left, last@.drop_last()) =~= Seq::<PlayerActionModel>::empty());
    assert(action_models(r@) =~= action_models(r1@) + action_models(r2@));
}

/// A block of items that is moved stands together in its new place, behind the item that it
/// follows, and all others keep their order; the player moves its own items the same way.
pub proof fn law_a_device_reorders_items(
    state: &mut ConnectState,
    playback: &PlaybackView,
    queue_item_ids: Vec<u32>,
    insert_after: u32,
    start: int,
    last: int,
    to: int,
    r: Vec<PlayerAction>,
)
    requires
        call_ensures(
            ConnectState::handle_event,
            (
                state,
                playback,
                PlayerEvent::QueueTracksReordered { queue_item_ids, insert_after },
            ),
            r,
        ),
        queue_item_ids@.len() > 0,
        old(state).queue_ids@.len() <= usize::MAX,
        stands_at(old(state).queue_ids@, queue_item_ids@[0], start),
        stands_at(old(state).queue_ids@, queue_item_ids@.last(), last),
        start <= last,
        if is_unknown(old(state).queue_ids@, insert_after) {
            to == 0
        } else {
            stands_at(old(state).queue_ids@, insert_after, to - 1)
        },
        to <= old(state).queue_ids@.len() - (last + 1 - start),
    ensures
        ({
            let ids = old(state).queue_ids@;
            let block = ids.subrange(start, last + 1);
            let others = ids.take(start) + ids.skip(last + 1);
            &&& final(state).queue_ids@ == others.take(to) + block + others.skip(to)
            &&& r@.len() == 1
            &&& r@[0] matches PlayerAction::ReorderQueue(order) && {
                &&& order@.len() == ids.len()
                &&& forall|i: int|
                    0 <= i < ids.len() ==> (#[trigger] order@[i]) < ids.len() && ids[order@[i] as int]
                        == final(state).queue_ids@[i]
                &&& forall|i: int, j: int|
                    0 <= i < j < ids.len() ==> #[trigger] order@[i] != #[trigger] order@[j]
            }
        }),
{
    let ids = old(state).queue_ids@;
    lemma_place(ids, queue_item_ids@[0]);
    lemma_place(ids, queue_item_ids@.last());
    lemma_place(ids, insert_after);
    lemma_actions(r@);
    assert(reordering(ids, queue_item_ids@, insert_after) == Some((start, last + 1, to)));
    lemma_moved(ids, start, last + 1, to);
    let order = moved_order(ids.len() as int, start, last + 1, to);
    assert(action_models(r@) == seq![PlayerActionModel::ReorderQueue(order)]);
    assert(r@[0]@ == PlayerActionModel::ReorderQueue(order));
}

proof fn lemma_moved(ids: Seq<u64>, start: int, end: int, to: int)
    requires
        0 <= start <= end <= ids.len() <= usize::MAX,
        0 <= to <= ids.len() - (end - start),
    ensures
        ({
            let order = moved_order(ids.len() as int, start, end, to);
            let block = ids.subrange(start, end);
            let others = ids.take(start) + ids.skip(end);
            let moved = others.take(to) + block + others.skip(to);
            &&& order.len() == ids.len()
            &&& order.map_values(|i: usize| ids[i as int]) == moved
            &&& forall|i: int|
                0 <= i < ids.len() ==> (#[trigger] order[i]) < ids.len() && ids[order[i] as int]
                    == moved[i]
            &&& forall|i: int, j: int|
                0 <= i < j < ids.len() ==> #[trigger] order[i] != #[trigger] order[j]
        }),
{
    let order = moved_order(ids.len() as int, start, end, to);
    let block = ids.subrange(start, end);
    let others = ids.take(start) + ids.skip(end);
    let moved = others.take(to) + block + others.skip(to);
    let n = end - start;
    assert forall|i: int| 0 <= i < ids.len() implies (#[trigger] order[i]) == (if i < to {
        if i < start {
            i
        } else {
            i + n
        }
    } else if i < to + n {
        start + (i - to)
    } else if i - n < start {
        i - n
    } else {
        i
    }) by {}
    assert forall|i: int| 0 <= i < ids.len() implies (#[trigger] order[i]) < ids.len()
        && ids[order[i] as int] == moved[i] by {}
    assert(order.map_values(|i: usize| ids[i as int]) =~= moved);
}

/// A reordering of items that the queue does not hold changes nothing, and neither does an insertion
/// without a place.
pub proof fn law_a_device_ignores_what_it_cannot_place(
    state: &mut ConnectState,
    playback: &PlaybackView,
    event: PlayerEvent,
    r: Vec<PlayerAction>,
)
    requires
        call_ensures(ConnectState::handle_event, (state, playback, event), r),
        match event {
            PlayerEvent::QueueTracksInserted { tracks, insert_after } => insert_after is None,
            PlayerEvent::QueueTracksReordered { queue_item_ids, insert_after } =>
                queue_item_ids@.len() == 0 || is_unknown(
                old(state).queue_ids@,
                queue_item_ids@[0],
            ) || is_unknown(old(state).queue_ids@, queue_item_ids@.last()),
            _ => false,
        },
    ensures
        r@.len() == 0,
        final(state).queue_ids@ == old(state).queue_ids@,
{
    if let PlayerEvent::QueueTracksReordered { queue_item_ids, insert_after } = event {
        if queue_item_ids@.len() > 0 {
            lemma_place(old(state).queue_ids@, queue_item_ids@[0]);
            lemma_place(old(state).queue_ids@, queue_item_ids@.last());
        }
    }
    lemma_actions(r@);
}

/// The numbers of the qualities count up from one, the lowest first, and a connection starts with
/// the one that is asked for.
pub proof fn law_qualities_are_numbered(quality: AudioQuality, r: i32, state: ConnectState)
    requires
        call_ensures(convert_audio_quality, (quality,), r),
        call_ensures(ConnectState::new, (quality,), state),
    ensures
        quality == AudioQuality::Mp3 <==> r == 1,
        quality == AudioQuality::CD <==> r == 2,
        quality == AudioQuality::HIFI96 <==> r == 3,
        quality == AudioQuality::HIFI192 <==> r == 4,
        state.audio_quality == r,
        !state.connected,
        state.queue_ids@.len() == 0,
{
}

} // verus!

//! What a renderer of a shared session can be relied on to do.

use vstd::prelude::*;
use crate::connect::{
    activate, ask_remote_state, audio_quality, connect_quality, device, models, playing_connect_id,
    set_active, state_change, update, BufferState, Connect, ConnectAction, ConnectDevice,
    ConnectQuality, Deferred, Device, DeviceKind, NetworkType, NewQueueItem, PlayerState, PlayerView,
    PlayingState, QueueEvent, QueueTrackRef, Remote, RendererCommand, RendererEvent,
    RendererReport, SessionEvent, SessionView, uuid_v5_oid,
};
use crate::connect_queue::{delta, ControllerCommand, LocalItem};
use crate::models::{AudioQuality, Status, TrackStatus, Volume};
use crate::sequences::{
    first_match, is_first, lemma_first_match, lemma_first_match_is_first, lemma_match_exists,
    lemma_no_match,
};
use crate::tracklist::{has_connect_id, playing, QueueItem, Tracklist};

verus! {

/// The current item of a queue, the first that plays, stands at `at`.
pub open spec fn current_at(items: Seq<QueueItem>, at: int) -> bool {
    &&& 0 <= at < items.len()
    &&& items[at].track.status == TrackStatus::Playing
    &&& forall|k: int|
        0 <= k < at ==> (#[trigger] items[k]).track.status != TrackStatus::Playing
}

/// No item of the queue plays.
pub open spec fn none_plays(items: Seq<QueueItem>) -> bool {
    forall|k: int|
        0 <= k < items.len() ==> (#[trigger] items[k]).track.status != TrackStatus::Playing
}

/// The current item has the session id.
pub open spec fn is_current(items: Seq<QueueItem>, id: i32) -> bool {
    exists|at: int| #[trigger] current_at(items, at) && items[at].connect_id == Some(id)
}

/// The first item with the session id stands at `at`.
pub open spec fn held_at(items: Seq<QueueItem>, id: i32, at: int) -> bool {
    &&& 0 <= at < items.len()
    &&& items[at].connect_id == Some(id)
    &&& forall|k: int| 0 <= k < at ==> (#[trigger] items[k]).connect_id != Some(id)
}

/// The queue holds an item with the session id.
pub open spec fn held(items: Seq<QueueItem>, id: i32) -> bool {
    exists|k: int| 0 <= k < items.len() && (#[trigger] items[k]).connect_id == Some(id)
}

/// No item is named, or one that the queue holds.
pub open spec fn can_be_reached(items: Seq<QueueItem>, current: Option<QueueTrackRef>) -> bool {
    current matches Some(track) ==> track.queue_item_id >= 0 && held(items, track.queue_item_id)
}

/// The item that is named is another than the current one.
pub open spec fn is_elsewhere(items: Seq<QueueItem>, current: Option<QueueTrackRef>) -> bool {
    current matches Some(track) && !is_current(items, track.queue_item_id)
}

/// The queue of the session holds an item with the id.
pub open spec fn session_holds(queue: Option<Vec<(i32, u32)>>, id: i32) -> bool {
    match queue {
        Some(items) => exists|k: int| 0 <= k < items@.len() && (#[trigger] items@[k]).0 == id,
        None => false,
    }
}

proof fn lemma_current(items: Seq<QueueItem>)
    ensures
        forall|id: i32|
            (playing_connect_id(items) == Some(id)) <==> #[trigger] is_current(items, id),
        match first_match(items, playing()) {
            Some(at) => current_at(items, at),
            None => none_plays(items),
        },
        forall|at: int|
            #[trigger] current_at(items, at) ==> first_match(items, playing()) == Some(at),
        none_plays(items) ==> first_match(items, playing()) is None,
{
    lemma_first_match_is_first(items, playing());
    assert forall|at: int| #[trigger] current_at(items, at) implies first_match(items, playing())
        == Some(at) by {
        lemma_first_match(items, playing(), at);
    }
    match first_match(items, playing()) {
        Some(at) => {
            assert(is_first(items, playing(), at));
            assert forall|k: int| 0 <= k < at implies (#[trigger] items[k]).track.status
                != TrackStatus::Playing by {
                assert(!playing()(items[k]));
            }
            assert(current_at(items, at));
        },
        None => {
            assert forall|k: int| 0 <= k < items.len() implies (#[trigger] items[k]).track.status
                != TrackStatus::Playing by {
                assert(!playing()(items[k]));
            }
        },
    }
    if none_plays(items) {
        lemma_no_match(items, playing());
    }
}

proof fn lemma_held(items: Seq<QueueItem>, id: i32)
    ensures
        match first_match(items, has_connect_id(id)) {
            Some(at) => held_at(items, id, at) && held(items, id),
            None => !held(items, id),
        },
        forall|at: int|
            #[trigger] held_at(items, id, at) ==> first_match(items, has_connect_id(id)) == Some(at),
        is_current(items, id) ==> held(items, id),
{
    lemma_first_match_is_first(items, has_connect_id(id));
    match first_match(items, has_connect_id(id)) {
        Some(at) => {
            assert(is_first(items, has_connect_id(id), at));
            assert forall|k: int| 0 <= k < at implies (#[trigger] items[k]).connect_id != Some(
                id,
            ) by {
                assert(!has_connect_id(id)(items[k]));
            }
        },
        None => {
            assert forall|k: int| 0 <= k < items.len() implies (#[trigger] items[k]).connect_id
                != Some(id) by {
                assert(!has_connect_id(id)(items[k]));
            }
        },
    }
    assert forall|at: int| #[trigger] held_at(items, id, at) implies first_match(
        items,
        has_connect_id(id),
    ) == Some(at) by {
        lemma_first_match(items, has_connect_id(id), at);
    }
    if is_current(items, id) {
        let at = choose|at: int| #[trigger] current_at(items, at) && items[at].connect_id == Some(id);
        assert(items[at].connect_id == Some(id));
    }
}

/// Each action is what its model says.
proof fn lemma_models(r: Seq<ConnectAction>)
    ensures
        models(r).len() == r.len(),
        forall|i: int| 0 <= i < r.len() ==> models(r)[i] == (#[trigger] r[i])@,
{
}

/// Told to pause or to stop, with no item or one that the queue holds, the player pauses once, as
/// the last thing it does, and never plays.
pub proof fn law_a_pause_is_carried_out(
    connect: &mut Connect,
    session: &SessionView,
    player: &PlayerView,
    playing_state: PlayingState,
    position: Option<u128>,
    current: Option<QueueTrackRef>,
    now: u128,
    r: Vec<ConnectAction>,
)
    requires
        call_ensures(
            Connect::handle_command,
            (
                connect,
                session,
                player,
                RendererCommand::SetState { playing: Some(playing_state), position, current },
                now,
            ),
            r,
        ),
        playing_state == PlayingState::Paused || playing_state == PlayingState::Stopped,
        can_be_reached(player.tracklist.items(), current),
    ensures
        r@.len() > 0,
        r@.last() is Pause,
        forall|i: int|
            0 <= i < r@.len() - 1 ==> !(#[trigger] r@[i] is Pause) && !(r@[i] is Play),
        *final(connect) == *old(connect),
{
    let items = player.tracklist.items();
    lemma_current(items);
    if let Some(track) = current {
        lemma_held(items, track.queue_item_id);
    }
    lemma_models(r@);
}

/// Told to play, with no item or one that the queue holds, the player plays once, as the last thing
/// it does, and never pauses.
pub proof fn law_a_start_is_carried_out(
    connect: &mut Connect,
    session: &SessionView,
    player: &PlayerView,
    position: Option<u128>,
    current: Option<QueueTrackRef>,
    now: u128,
    r: Vec<ConnectAction>,
)
    requires
        call_ensures(
            Connect::handle_command,
            (
                connect,
                session,
                player,
                RendererCommand::SetState {
                    playing: Some(PlayingState::Playing),
                    position,
                    current,
                },
                now,
            ),
            r,
        ),
        can_be_reached(player.tracklist.items(), current),
    ensures
        r@.len() > 0,
        r@.last() is Play,
        forall|i: int|
            0 <= i < r@.len() - 1 ==> !(#[trigger] r@[i] is Pause) && !(r@[i] is Play),
        *final(connect) == *old(connect),
{
    let items = player.tracklist.items();
    lemma_current(items);
    if let Some(track) = current {
        lemma_held(items, track.queue_item_id);
    }
    lemma_models(r@);
}

/// Where nothing is said of playing or pausing, the player does neither, but that an item that is
/// jumped to plays.
pub proof fn law_an_unsaid_state_is_kept(
    connect: &mut Connect,
    session: &SessionView,
    player: &PlayerView,
    playing_state: Option<PlayingState>,
    position: Option<u128>,
    current: Option<QueueTrackRef>,
    now: u128,
    r: Vec<ConnectAction>,
)
    requires
        call_ensures(
            Connect::handle_command,
            (
                connect,
                session,
                player,
                RendererCommand::SetState { playing: playing_state, position, current },
                now,
            ),
            r,
        ),
        playing_state is None || playing_state == Some(PlayingState::Unknown),
        can_be_reached(player.tracklist.items(), current),
    ensures
        forall|i: int| 0 <= i < r@.len() ==> !(#[trigger] r@[i] is Pause),
        forall|i: int|
            0 <= i < r@.len() && #[trigger] r@[i] is Play ==> playing_state is None && i
                == r@.len() - 1 && is_elsewhere(player.tracklist.items(), current),
        playing_state is None && is_elsewhere(player.tracklist.items(), current) ==> r@.len() > 0
            && r@.last() is Play,
        *final(connect) == *old(connect),
{
    let items = player.tracklist.items();
    lemma_current(items);
    if let Some(track) = current {
        lemma_held(items, track.queue_item_id);
    }
    lemma_models(r@);
}

/// An item of the queue that is named is jumped to before anything else, whatever else is asked,
/// unless it is the current one, and nothing else is jumped to.
pub proof fn law_a_jump_reaches_its_item(
    connect: &mut Connect,
    session: &SessionView,
    player: &PlayerView,
    playing_state: Option<PlayingState>,
    position: Option<u128>,
    current: Option<QueueTrackRef>,
    now: u128,
    r: Vec<ConnectAction>,
    at: int,
)
    requires
        call_ensures(
            Connect::handle_command,
            (
                connect,
                session,
                player,
                RendererCommand::SetState { playing: playing_state, position, current },
                now,
            ),
            r,
        ),
        current matches Some(track) ==> track.queue_item_id >= 0 && held_at(
            player.tracklist.items(),
            track.queue_item_id,
            at,
        ),
        player.tracklist.items().len() <= usize::MAX,
    ensures
        is_elsewhere(player.tracklist.items(), current) ==> r@.len() > 0 && (
        r@[0] matches ConnectAction::SkipToPosition { index, force } && index == at && force),
        forall|i: int|
            0 <= i < r@.len() && #[trigger] r@[i] is SkipToPosition ==> i == 0 && is_elsewhere(
                player.tracklist.items(),
                current,
            ),
{
    let items = player.tracklist.items();
    lemma_current(items);
    if let Some(track) = current {
        lemma_held(items, track.queue_item_id);
    }
    lemma_models(r@);
}

/// A position that is named is sought once, but that an item that is jumped to starts at its
/// beginning anyway, and no other position is.
pub proof fn law_a_position_is_sought(
    connect: &mut Connect,
    session: &SessionView,
    player: &PlayerView,
    playing_state: Option<PlayingState>,
    position: Option<u128>,
    current: Option<QueueTrackRef>,
    now: u128,
    r: Vec<ConnectAction>,
)
    requires
        call_ensures(
            Connect::handle_command,
            (
                connect,
                session,
                player,
                RendererCommand::SetState { playing: playing_state, position, current },
                now,
            ),
            r,
        ),
        can_be_reached(player.tracklist.items(), current),
    ensures
        ({
            let elsewhere = is_elsewhere(player.tracklist.items(), current);
            let at = if elsewhere {
                1int
            } else {
                0
            };
            match position {
                Some(to) => if elsewhere && to == 0 {
                    forall|i: int| 0 <= i < r@.len() ==> !(#[trigger] r@[i] is Seek)
                } else {
                    &&& r@.len() > at
                    &&& r@[at] == ConnectAction::Seek(to)
                    &&& forall|i: int|
                        0 <= i < r@.len() && #[trigger] r@[i] is Seek ==> i == at
                },
                None => forall|i: int| 0 <= i < r@.len() ==> !(#[trigger] r@[i] is Seek),
            }
        }),
{
    let items = player.tracklist.items();
    lemma_current(items);
    if let Some(track) = current {
        lemma_held(items, track.queue_item_id);
    }
    lemma_models(r@);
}

/// A negative item stops the player, whatever else is asked.
pub proof fn law_a_negative_item_stops(
    connect: &mut Connect,
    session: &SessionView,
    player: &PlayerView,
    playing_state: Option<PlayingState>,
    position: Option<u128>,
    track: QueueTrackRef,
    now: u128,
    r: Vec<ConnectAction>,
)
    requires
        call_ensures(
            Connect::handle_command,
            (
                connect,
                session,
                player,
                RendererCommand::SetState {
                    playing: playing_state,
                    position,
                    current: Some(track),
                },
                now,
            ),
            r,
        ),
        track.queue_item_id < 0,
    ensures
        r@.len() == 1,
        r@[0] is Pause,
        *final(connect) == *old(connect),
{
    lemma_models(r@);
}

/// A jump to an item that the queue does not hold is kept as it was asked, and the session is asked
/// for its queue unless that is known to hold the item. The player does nothing yet.
pub proof fn law_a_jump_ahead_waits(
    connect: &mut Connect,
    session: &SessionView,
    player: &PlayerView,
    playing_state: Option<PlayingState>,
    position: Option<u128>,
    track: QueueTrackRef,
    now: u128,
    r: Vec<ConnectAction>,
)
    requires
        call_ensures(
            Connect::handle_command,
            (
                connect,
                session,
                player,
                RendererCommand::SetState {
                    playing: playing_state,
                    position,
                    current: Some(track),
                },
                now,
            ),
            r,
        ),
        track.queue_item_id >= 0,
        !held(player.tracklist.items(), track.queue_item_id),
    ensures
        *final(connect) == (Connect {
            deferred: Some(Deferred { playing: playing_state, position, current: track }),
            ..*old(connect)
        }),
        session_holds(old(connect).session_queue, track.queue_item_id) ==> r@.len() == 0,
        !session_holds(old(connect).session_queue, track.queue_item_id) ==> r@.len() == 1
            && r@[0] is AskQueueState,
{
    let items = player.tracklist.items();
    lemma_current(items);
    lemma_held(items, track.queue_item_id);
    lemma_models(r@);
}

/// A jump that was kept is made once the queue holds its item, as if it were asked then.
pub proof fn law_a_kept_jump_is_made(
    connect: &mut Connect,
    asked: &mut Connect,
    session: &SessionView,
    player: &PlayerView,
    deferred: Deferred,
    now: u128,
    r: Vec<ConnectAction>,
    again: Vec<ConnectAction>,
)
    requires
        call_ensures(Connect::apply_deferred, (connect, player.tracklist), r),
        call_ensures(
            Connect::handle_command,
            (
                asked,
                session,
                player,
                RendererCommand::SetState {
                    playing: deferred.playing,
                    position: deferred.position,
                    current: Some(deferred.current),
                },
                now,
            ),
            again,
        ),
        old(connect).deferred == Some(deferred),
    ensures
        held(player.tracklist.items(), deferred.current.queue_item_id) ==> *final(connect) == (
        Connect { deferred: None, ..*old(connect) }) && models(r@) == models(again@),
        !held(player.tracklist.items(), deferred.current.queue_item_id) ==> *final(connect)
            == *old(connect) && r@.len() == 0,
{
    let items = player.tracklist.items();
    lemma_current(items);
    lemma_held(items, deferred.current.queue_item_id);
    lemma_models(r@);
}

/// Where no jump was kept, none is made.
pub proof fn law_no_jump_is_made_up(
    connect: &mut Connect,
    tracklist: &Tracklist,
    r: Vec<ConnectAction>,
)
    requires
        call_ensures(Connect::apply_deferred, (connect, tracklist), r),
        old(connect).deferred is None,
    ensures
        r@.len() == 0,
        *final(connect) == *old(connect),
{
    lemma_models(r@);
}

/// The volume that the session sets, or changes by so much, is handed to the player as it is.
pub proof fn law_the_volume_is_passed_on(
    connect: &mut Connect,
    session: &SessionView,
    player: &PlayerView,
    command: RendererCommand,
    now: u128,
    r: Vec<ConnectAction>,
)
    requires
        call_ensures(Connect::handle_command, (connect, session, player, command, now), r),
        command is SetVolume || command is ChangeVolume,
    ensures
        r@.len() == 1,
        command matches RendererCommand::SetVolume(percent) ==> r@[0]
            == ConnectAction::SetVolumePercent(percent),
        command matches RendererCommand::ChangeVolume(by) ==> r@[0]
            == ConnectAction::ChangeVolumePercent(by),
        *final(connect) == *old(connect),
{
    lemma_models(r@);
}

/// Muting silences the player and keeps its volume, unmuting restores the volume that was kept, and
/// either is reported, also where it changes nothing.
pub proof fn law_muting_silences(
    connect: &mut Connect,
    session: &SessionView,
    player: &PlayerView,
    muted: bool,
    now: u128,
    r: Vec<ConnectAction>,
)
    requires
        call_ensures(
            Connect::handle_command,
            (connect, session, player, RendererCommand::Mute(muted), now),
            r,
        ),
    ensures
        r@.len() > 0,
        r@.last() == ConnectAction::Report(RendererReport::Muted(muted)),
        muted == old(connect).muted ==> r@.len() == 1 && *final(connect) == *old(connect),
        muted && !old(connect).muted ==> r@.len() == 2 && (
        r@[0] matches ConnectAction::SetVolume(volume) && volume.bits == 0) && *final(connect) == (
        Connect { muted: true, volume_before_mute: player.volume, ..*old(connect) }),
        !muted && old(connect).muted ==> r@.len() == 2 && r@[0] == ConnectAction::SetVolume(
            old(connect).volume_before_mute,
        ) && *final(connect) == (Connect { muted: false, ..*old(connect) }),
{
    lemma_models(r@);
}

/// A renderer that is no longer the active one pauses.
pub proof fn law_a_renderer_that_is_relieved_pauses(
    connect: &mut Connect,
    session: &SessionView,
    player: &PlayerView,
    now: u128,
    r: Vec<ConnectAction>,
)
    requires
        call_ensures(
            Connect::handle_command,
            (connect, session, player, RendererCommand::SetActive(false), now),
            r,
        ),
    ensures
        r@.len() == 1,
        r@[0] is Pause,
        *final(connect) == *old(connect),
{
    lemma_models(r@);
}

/// A quality that the session allows is taken and reported back: each of the player's four stands
/// for one of the session's, and the best of the session's counts as the best of the player's.
pub proof fn law_a_quality_is_taken(
    connect: &mut Connect,
    session: &SessionView,
    player: &PlayerView,
    quality: ConnectQuality,
    now: u128,
    r: Vec<ConnectAction>,
)
    requires
        call_ensures(
            Connect::handle_command,
            (connect, session, player, RendererCommand::SetMaxAudioQuality(quality), now),
            r,
        ),
    ensures
        quality == ConnectQuality::Unknown ==> r@.len() == 0 && *final(connect) == *old(connect),
        quality != ConnectQuality::Unknown ==> {
            &&& r@.len() == 2
            &&& r@[0] is SetAudioMaxQuality
            &&& r@[1] == ConnectAction::Report(
                RendererReport::MaxAudioQuality { quality, network: NetworkType::Wifi },
            )
            &&& *final(connect) == (Connect { max_audio_quality: quality, ..*old(connect) })
        },
        quality == ConnectQuality::Mp3 ==> r@[0] == ConnectAction::SetAudioMaxQuality(
            AudioQuality::Mp3,
        ),
        quality == ConnectQuality::Cd ==> r@[0] == ConnectAction::SetAudioMaxQuality(
            AudioQuality::CD,
        ),
        quality == ConnectQuality::HiresLevel1 ==> r@[0] == ConnectAction::SetAudioMaxQuality(
            AudioQuality::HIFI96,
        ),
        quality == ConnectQuality::HiresLevel2 || quality == ConnectQuality::HiresLevel3 ==> r@[0]
            == ConnectAction::SetAudioMaxQuality(AudioQuality::HIFI192),
{
    lemma_models(r@);
}

/// The player's qualities and the session's names for them match, the lowest first.
pub proof fn law_qualities_match(
    quality: AudioQuality,
    named: ConnectQuality,
    back: Option<AudioQuality>,
)
    requires
        call_ensures(connect_quality, (quality,), named),
        call_ensures(audio_quality, (named,), back),
    ensures
        back == Some(quality),
        quality == AudioQuality::Mp3 <==> named == ConnectQuality::Mp3,
        quality == AudioQuality::CD <==> named == ConnectQuality::Cd,
        quality == AudioQuality::HIFI96 <==> named == ConnectQuality::HiresLevel1,
        quality == AudioQuality::HIFI192 <==> named == ConnectQuality::HiresLevel2,
{
}

/// A command that comes as an event is handled as the command is.
pub proof fn law_a_command_event_is_a_command(
    connect: &mut Connect,
    other: &mut Connect,
    session: &SessionView,
    player: &PlayerView,
    command: RendererCommand,
    now: u128,
    r: Vec<ConnectAction>,
    again: Vec<ConnectAction>,
)
    requires
        call_ensures(
            Connect::handle_event,
            (connect, session, player, SessionEvent::Command(command), now),
            r,
        ),
        call_ensures(Connect::handle_command, (other, session, player, command, now), again),
        *old(connect) == *old(other),
    ensures
        models(r@) == models(again@),
        *final(connect) == *final(other),
{
}

/// What the session is told of a player with a current track: whether it plays, what it waits for,
/// where it is, how long the track is, and which items are the current one and the next.
pub proof fn law_a_current_track_is_told(
    connect: &Connect,
    player: &PlayerView,
    r: Option<PlayerState>,
    at: int,
)
    requires
        call_ensures(Connect::player_state, (connect, player), r),
        current_at(player.tracklist.items(), at),
    ensures
        ({
            let items = player.tracklist.items();
            &&& r is Some <==> connect.connected && items[at].connect_id is Some
            &&& r matches Some(state) ==> {
                &&& state.playing == PlayingState::Playing <==> player.status == Status::Playing
                &&& state.playing == PlayingState::Paused <==> player.status != Status::Playing
                &&& state.buffer == BufferState::Buffering <==> player.status == Status::Buffering
                &&& state.buffer == BufferState::Ready <==> player.status != Status::Buffering
                &&& state.position == player.position
                &&& state.duration == items[at].track.duration_seconds * 1_000_000_000
                &&& state.current_queue_item_id == items[at].connect_id
                &&& at + 1 < items.len() ==> state.next_queue_item_id == items[at + 1].connect_id
                &&& at + 1 == items.len() ==> state.next_queue_item_id is None
            }
        }),
{
    lemma_current(player.tracklist.items());
}

/// A player without a current track is told as stopped, with no item and no length.
pub proof fn law_a_stopped_player_is_told(
    connect: &Connect,
    player: &PlayerView,
    r: Option<PlayerState>,
)
    requires
        call_ensures(Connect::player_state, (connect, player), r),
        none_plays(player.tracklist.items()),
    ensures
        r is Some <==> connect.connected,
        r matches Some(state) ==> state.playing == PlayingState::Stopped && state.duration == 0
            && state.current_queue_item_id is None && state.position == player.position,
{
    lemma_current(player.tracklist.items());
}

/// The active renderer reports the state that it has, and no other renderer reports any.
pub proof fn law_the_active_renderer_reports(
    connect: &mut Connect,
    before: &Connect,
    session: &SessionView,
    player: &PlayerView,
    now: u128,
    told: Option<PlayerState>,
    r: Vec<ConnectAction>,
)
    requires
        call_ensures(Connect::report_state, (connect, session, player, now), r),
        *before == *old(connect),
        call_ensures(Connect::player_state, (before, player), told),
    ensures
        session.active && told is Some ==> r@.len() == 1 && r@[0] == ConnectAction::Report(
            RendererReport::State(told->0),
        ) && *final(connect) == (Connect { reported_state_at: now, ..*old(connect) }),
        !session.active || told is None ==> r@.len() == 0 && *final(connect) == *old(connect),
{
    lemma_models(r@);
}

/// While a track plays on, its position is reported again only a second after the last report, and
/// then as any state is.
pub proof fn law_positions_are_reported_once_a_second(
    connect: &mut Connect,
    other: &mut Connect,
    session: &SessionView,
    player: &PlayerView,
    now: u128,
    r: Vec<ConnectAction>,
    report: Vec<ConnectAction>,
)
    requires
        call_ensures(Connect::position_changed, (connect, session, player, now), r),
        *old(connect) == *old(other),
        call_ensures(Connect::report_state, (other, session, player, now), report),
    ensures
        now - old(connect).reported_state_at < 1_000_000_000 ==> r@.len() == 0 && *final(connect)
            == *old(connect),
        now - old(connect).reported_state_at >= 1_000_000_000 ==> models(r@) == models(report@)
            && *final(connect) == *final(other),
{
    lemma_models(r@);
}

/// A change of playback is reported, and a track that starts makes this device the active one: a
/// track that plays and is not the one that played last.
pub proof fn law_a_track_that_starts_takes_over(
    connect: &mut Connect,
    other: &mut Connect,
    session: &SessionView,
    player: &PlayerView,
    now: u128,
    r: Vec<ConnectAction>,
    report: Vec<ConnectAction>,
    at: int,
)
    requires
        call_ensures(Connect::status_changed, (connect, session, player, now), r),
        *old(connect) == *old(other),
        call_ensures(Connect::report_state, (other, session, player, now), report),
        current_at(player.tracklist.items(), at),
    ensures
        ({
            let id = player.tracklist.items()[at].queue_id;
            let starts = player.status == Status::Playing && old(connect).played != Some(id);
            let free = !session.active && !old(connect).taking_over && session.renderer_id is Some;
            &&& r@.len() == report@.len() + if starts && free {
                1int
            } else {
                0
            }
            &&& models(r@).take(report@.len() as int) == models(report@)
            &&& starts && free ==> r@.last() is Activate && final(connect).taking_over && final(connect).remote is None
            &&& starts ==> final(connect).played == Some(id)
            &&& !starts ==> final(connect).played == old(connect).played && *final(connect)
                == *final(other)
        }),
{
    lemma_current(player.tracklist.items());
    lemma_models(r@);
    lemma_models(report@);
}

/// The volume is reported by the active renderer, unless it is muted or the same volume was
/// reported last.
pub proof fn law_a_new_volume_is_reported(
    connect: &mut Connect,
    session: &SessionView,
    player: &PlayerView,
    r: Vec<ConnectAction>,
)
    requires
        call_ensures(Connect::report_volume, (connect, session, player), r),
    ensures
        ({
            let due = session.active && !old(connect).muted && old(connect).reported_volume != Some(
                player.volume_percent,
            );
            &&& due ==> r@.len() == 1 && r@[0] == ConnectAction::Report(
                RendererReport::Volume(player.volume_percent),
            )
            &&& due ==> *final(connect) == (Connect {
                reported_volume: Some(player.volume_percent),
                ..*old(connect)
            })
            &&& !due ==> r@.len() == 0 && *final(connect) == *old(connect)
        }),
{
    lemma_models(r@);
}

/// This device asks once to become the active one: where it has an id and neither is active nor
/// has asked.
pub proof fn law_a_takeover_is_asked_once(
    connect: &mut Connect,
    session: &SessionView,
    r: Vec<ConnectAction>,
    after: &mut Connect,
    again: Vec<ConnectAction>,
)
    requires
        call_ensures(Connect::take_over, (connect, session), r),
        *final(connect) == *old(after),
        call_ensures(Connect::take_over, (after, session), again),
    ensures
        !session.active && !old(connect).taking_over && session.renderer_id is Some ==> r@.len()
            == 1 && r@[0] is Activate && *final(connect) == (Connect {
            taking_over: true,
            remote: None,
            ..*old(connect)
        }),
        session.active || old(connect).taking_over || session.renderer_id is None ==> r@.len() == 0
            && *final(connect) == *old(connect),
        again@.len() == 0,
{
    lemma_models(r@);
    lemma_models(again@);
}

/// A renderer that becomes active reports its volume, whether it is muted and its best quality,
/// first and in this order, and has not asked for anything any more.
pub proof fn law_an_active_renderer_presents_itself(
    connect: &mut Connect,
    session: &SessionView,
    player: &PlayerView,
    now: u128,
    r: Vec<ConnectAction>,
)
    requires
        call_ensures(
            Connect::handle_command,
            (connect, session, player, RendererCommand::SetActive(true), now),
            r,
        ),
    ensures
        r@.len() >= 3,
        r@[0] == ConnectAction::Report(RendererReport::Volume(player.volume_percent)),
        r@[1] == ConnectAction::Report(RendererReport::Muted(old(connect).muted)),
        r@[2] == ConnectAction::Report(
            RendererReport::MaxAudioQuality {
                quality: old(connect).max_audio_quality,
                network: NetworkType::Wifi,
            },
        ),
        !final(connect).taking_over,
        final(connect).reported_volume == Some(player.volume_percent),
        final(connect).remote is None,
        *final(connect) == (Connect {
            taking_over: false,
            reported_volume: final(connect).reported_volume,
            remote: None,
            reported_state_at: final(connect).reported_state_at,
            ..*old(connect)
        }),
{
    lemma_models(r@);
}

/// A renderer that becomes active where no other was heard of does nothing but report: what it is,
/// and the state that it has.
pub proof fn law_a_first_renderer_only_reports(
    connect: &mut Connect,
    other: &mut Connect,
    session: &SessionView,
    player: &PlayerView,
    now: u128,
    r: Vec<ConnectAction>,
    report: Vec<ConnectAction>,
)
    requires
        call_ensures(
            Connect::handle_command,
            (connect, session, player, RendererCommand::SetActive(true), now),
            r,
        ),
        *old(connect) == *old(other),
        call_ensures(Connect::report_state, (other, session, player, now), report),
        old(connect).remote is None,
    ensures
        models(r@).skip(3) == models(report@),
        final(connect).reported_state_at == final(other).reported_state_at,
{
    lemma_models(r@);
    lemma_models(report@);
    assert(models(r@).skip(3) =~= models(report@));
}

/// A renderer that becomes active goes on with the item that another one plays, if its queue holds
/// it: from where the other has come to since it was heard of, which is later by the time that has
/// passed. A position that no span of time can hold is cut off at the longest.
pub proof fn law_playback_moves_along(
    connect: &mut Connect,
    session: &SessionView,
    player: &PlayerView,
    remote: Remote,
    id: i32,
    at: int,
    now: u128,
    r: Vec<ConnectAction>,
)
    requires
        call_ensures(
            Connect::handle_command,
            (connect, session, player, RendererCommand::SetActive(true), now),
            r,
        ),
        old(connect).remote == Some(remote),
        remote.state.playing == PlayingState::Playing,
        remote.state.current_queue_item_id == Some(id),
        id >= 0,
        held_at(player.tracklist.items(), id, at),
        !is_current(player.tracklist.items(), id),
        player.tracklist.items().len() <= usize::MAX,
        now >= remote.at,
        remote.state.position > 0,
        remote.state.position + (now - remote.at) <= 18_446_744_073_709_551_615_999_999_999,
    ensures
        r@.len() >= 6,
        r@[3] matches ConnectAction::SkipToPosition { index, force } && index == at && force,
        r@[4] matches ConnectAction::Seek(to) && to == if remote.state.buffer == BufferState::Ready {
            remote.state.position + (now - remote.at)
        } else {
            remote.state.position as int
        },
        r@[5] is Play,
{
    lemma_current(player.tracklist.items());
    lemma_held(player.tracklist.items(), id);
    lemma_models(r@);
}

/// A renderer that becomes active while another one has paused goes to the same place, and pauses.
pub proof fn law_a_pause_moves_along(
    connect: &mut Connect,
    session: &SessionView,
    player: &PlayerView,
    remote: Remote,
    id: i32,
    at: int,
    now: u128,
    r: Vec<ConnectAction>,
)
    requires
        call_ensures(
            Connect::handle_command,
            (connect, session, player, RendererCommand::SetActive(true), now),
            r,
        ),
        old(connect).remote == Some(remote),
        remote.state.playing == PlayingState::Paused,
        remote.state.current_queue_item_id == Some(id),
        id >= 0,
        held_at(player.tracklist.items(), id, at),
        !is_current(player.tracklist.items(), id),
        player.tracklist.items().len() <= usize::MAX,
        remote.state.position > 0,
    ensures
        r@.len() >= 6,
        r@[3] matches ConnectAction::SkipToPosition { index, force } && index == at && force,
        r@[4] == ConnectAction::Seek(remote.state.position),
        r@[5] is Pause,
{
    lemma_current(player.tracklist.items());
    lemma_held(player.tracklist.items(), id);
    lemma_models(r@);
}

/// A renderer that becomes active does not move where the other one has stopped, or is on nothing
/// that the queue holds.
pub proof fn law_nothing_moves_along_with_a_stop(
    connect: &mut Connect,
    session: &SessionView,
    player: &PlayerView,
    remote: Remote,
    now: u128,
    r: Vec<ConnectAction>,
)
    requires
        call_ensures(
            Connect::handle_command,
            (connect, session, player, RendererCommand::SetActive(true), now),
            r,
        ),
        old(connect).remote == Some(remote),
        remote.state.playing == PlayingState::Stopped || remote.state.playing
            == PlayingState::Unknown || (match remote.state.current_queue_item_id {
            Some(id) => !held(player.tracklist.items(), id),
            None => true,
        }),
    ensures
        forall|i: int| 0 <= i < r@.len() ==> #[trigger] r@[i] is Report,
{
    if let Some(id) = remote.state.current_queue_item_id {
        lemma_held(player.tracklist.items(), id);
    }
    lemma_models(r@);
}

/// A queue that the session states is taken as it is, item by item. Local tracks that the session
/// does not know survive unless its queue was unknown or a change of ours was refused. Whatever was
/// pending is settled.
pub proof fn law_a_stated_queue_is_taken(
    connect: &mut Connect,
    session: &SessionView,
    tracks: Vec<QueueTrackRef>,
    action: Option<Vec<u8>>,
    r: Vec<ConnectAction>,
)
    requires
        call_ensures(
            Connect::handle_queue,
            (connect, session, QueueEvent::State { tracks, action }),
            r,
        ),
    ensures
        r@.len() == 1,
        r@[0] matches ConnectAction::ReplaceQueue { items, keep_unknown } && {
            &&& items@.len() == tracks@.len()
            &&& forall|i: int|
                0 <= i < tracks@.len() ==> (#[trigger] items@[i]).track_id == tracks@[i].track_id
                    && items@[i].connect_id == tracks@[i].queue_item_id
            &&& keep_unknown <==> old(connect).session_queue is Some && !old(connect).refused
        },
        final(connect).session_queue matches Some(known) && {
            &&& known@.len() == tracks@.len()
            &&& forall|i: int|
                0 <= i < tracks@.len() ==> #[trigger] known@[i] == (
                    tracks@[i].queue_item_id,
                    tracks@[i].track_id,
                )
        },
        final(connect).pending is None,
        !final(connect).refused,
        final(connect).remote is None,
        final(connect).deferred == old(connect).deferred,
        final(connect).renderers == old(connect).renderers,
{
    lemma_models(r@);
}

/// A queue that the session clears is taken as an empty one.
pub proof fn law_a_cleared_queue_is_an_empty_one(
    connect: &mut Connect,
    session: &SessionView,
    action: Option<Vec<u8>>,
    r: Vec<ConnectAction>,
)
    requires
        call_ensures(Connect::handle_queue, (connect, session, QueueEvent::Cleared { action }), r),
    ensures
        r@.len() == 1,
        r@[0] matches ConnectAction::ReplaceQueue { items, keep_unknown } && items@.len() == 0 && (
        keep_unknown <==> old(connect).session_queue is Some && !old(connect).refused),
        final(connect).session_queue matches Some(known) && known@.len() == 0,
        final(connect).pending is None,
        !final(connect).refused,
{
    lemma_models(r@);
}

/// A queue that the session loads anew replaces the local one, item by item, and starts where the
/// session says; it plays where this device is active. One that answers our own change only makes
/// us ask for the state of the queue.
pub proof fn law_a_loaded_queue_starts(
    connect: &mut Connect,
    session: &SessionView,
    tracks: Vec<QueueTrackRef>,
    queue_position: u32,
    action: Option<Vec<u8>>,
    r: Vec<ConnectAction>,
)
    requires
        call_ensures(
            Connect::handle_queue,
            (connect, session, QueueEvent::Loaded { tracks, queue_position, action }),
            r,
        ),
    ensures
        ({
            let own = old(connect).pending is Some && action is Some && old(connect).pending->0.action@ == action->0@;
            &&& r@.len() == 1
            &&& own ==> r@[0] is AskQueueState && *final(connect) == *old(connect)
            &&& !own ==> {
                &&& r@[0] matches ConnectAction::NewQueue { items, play, start } && {
                    &&& items@.len() == tracks@.len()
                    &&& forall|i: int|
                        0 <= i < tracks@.len() ==> (#[trigger] items@[i]).track_id
                            == tracks@[i].track_id && items@[i].connect_id
                            == tracks@[i].queue_item_id
                    &&& play == session.active
                    &&& start == Some(queue_position as usize)
                }
                &&& final(connect).session_queue matches Some(known) && {
                    &&& known@.len() == tracks@.len()
                    &&& forall|i: int|
                        0 <= i < tracks@.len() ==> #[trigger] known@[i] == (
                            tracks@[i].queue_item_id,
                            tracks@[i].track_id,
                        )
                }
                &&& final(connect).pending == old(connect).pending
                &&& final(connect).refused == old(connect).refused
            }
        }),
{
    lemma_models(r@);
}

/// A refusal of our own change is remembered, another is not, and neither asks for anything. Any
/// other change of the queue only makes us ask for its state.
pub proof fn law_a_refusal_is_remembered(
    connect: &mut Connect,
    session: &SessionView,
    queue: QueueEvent,
    r: Vec<ConnectAction>,
)
    requires
        call_ensures(Connect::handle_queue, (connect, session, queue), r),
    ensures
        queue matches QueueEvent::Error { action } ==> {
            let own = old(connect).pending is Some && action is Some && old(connect).pending->0.action@ == action->0@;
            &&& r@.len() == 0
            &&& own ==> final(connect).refused
            &&& !own ==> *final(connect) == *old(connect)
            &&& final(connect).session_queue == old(connect).session_queue
        },
        queue is Changed ==> r@.len() == 1 && r@[0] is AskQueueState && *final(connect) == *old(connect),
        queue is LoopModeSet ==> r@.len() == 0 && *final(connect) == *old(connect),
{
    lemma_models(r@);
}

/// A change of ours that is not answered within ten seconds counts as refused, and the session is
/// asked for its queue. Until then no other change is sent.
pub proof fn law_an_unanswered_change_is_given_up(
    connect: &mut Connect,
    session: &SessionView,
    tracklist: &Tracklist,
    now: u128,
    r: Vec<ConnectAction>,
)
    requires
        call_ensures(Connect::mirror, (connect, session, tracklist, now), r),
        old(connect).connected,
        old(connect).session_queue is Some,
        old(connect).pending is Some,
    ensures
        now - old(connect).pending->0.since < 10_000_000_000 ==> r@.len() == 0 && *final(connect)
            == *old(connect),
        now - old(connect).pending->0.since >= 10_000_000_000 ==> r@.len() == 1
            && r@[0] is AskQueueState && *final(connect) == (Connect {
            pending: None,
            refused: true,
            ..*old(connect)
        }),
{
    lemma_models(r@);
}

/// Nothing is sent while the session is away or its queue is not known.
pub proof fn law_nothing_is_sent_to_an_unknown_queue(
    connect: &mut Connect,
    session: &SessionView,
    tracklist: &Tracklist,
    now: u128,
    r: Vec<ConnectAction>,
)
    requires
        call_ensures(Connect::mirror, (connect, session, tracklist, now), r),
        !old(connect).connected || old(connect).session_queue is None,
    ensures
        r@.len() == 0,
        *final(connect) == *old(connect),
{
    lemma_models(r@);
}

/// A change that is sent is pending from then on.
pub proof fn law_a_sent_change_is_pending(connect: &mut Connect, action: Option<Vec<u8>>, now: u128)
    requires
        call_ensures(Connect::control_sent, (connect, action, now), ()),
    ensures
        action matches Some(name) ==> (final(connect).pending matches Some(pending) && pending.action
            == name && pending.since == now),
        action is None ==> *final(connect) == *old(connect),
{
}

/// A renderer that is added or renamed is in the list under its name, which is all that changes; a
/// new one comes last and is not active.
pub proof fn law_a_renderer_is_listed(
    renderers: &mut Vec<ConnectDevice>,
    event: RendererEvent,
    r: bool,
)
    requires
        call_ensures(update, (renderers, event), r),
        event is Added || event is Updated,
    ensures
        ({
            let (id, name) = match event {
                RendererEvent::Added { id, device } => (id, device.name),
                RendererEvent::Updated { id, device } => (id, device.name),
                _ => arbitrary(),
            };
            let old_list = old(renderers)@;
            let list = final(renderers)@;
            &&& r
            &&& exists|k: int|
                0 <= k < list.len() && (#[trigger] list[k]).id == id && list[k].name == name
            &&& list.len() >= old_list.len()
            &&& forall|k: int|
                0 <= k < old_list.len() ==> (#[trigger] list[k]).id == old_list[k].id
                    && list[k].active == old_list[k].active && (list[k].name == old_list[k].name
                    || (list[k].id == id && list[k].name == name))
            &&& (exists|k: int| 0 <= k < old_list.len() && (#[trigger] old_list[k]).id == id)
                ==> list.len() == old_list.len()
            &&& (forall|k: int| 0 <= k < old_list.len() ==> (#[trigger] old_list[k]).id != id)
                ==> list.len() == old_list.len() + 1 && list.last().id == id && list.last().name
                == name && !list.last().active
        }),
{
    let (id, name) = match event {
        RendererEvent::Added { id, device } => (id, device.name),
        RendererEvent::Updated { id, device } => (id, device.name),
        _ => arbitrary(),
    };
    let old_list = old(renderers)@;
    let list = final(renderers)@;
    let named = crate::connect::has_id(id);
    lemma_first_match_is_first(old_list, named);
    match first_match(old_list, named) {
        Some(k) => {
            assert(is_first(old_list, named, k));
            assert(list[k].id == id && list[k].name == name);
        },
        None => {
            assert forall|k: int| 0 <= k < old_list.len() implies (#[trigger] old_list[k]).id
                != id by {
                assert(!named(old_list[k]));
            }
            assert(list[old_list.len() as int].id == id);
        },
    }
    if exists|k: int| 0 <= k < old_list.len() && (#[trigger] old_list[k]).id == id {
        let k = choose|k: int| 0 <= k < old_list.len() && (#[trigger] old_list[k]).id == id;
        lemma_match_exists(old_list, named, k);
    }
    if forall|k: int| 0 <= k < old_list.len() ==> (#[trigger] old_list[k]).id != id {
        lemma_no_match(old_list, named);
    }
}

/// A renderer that leaves is no longer listed, and all others are, as they were.
pub proof fn law_a_renderer_that_leaves_is_not_listed(
    renderers: &mut Vec<ConnectDevice>,
    id: i32,
    r: bool,
    other: ConnectDevice,
)
    requires
        call_ensures(update, (renderers, RendererEvent::Removed { id }), r),
    ensures
        r,
        forall|k: int|
            0 <= k < final(renderers)@.len() ==> (#[trigger] final(renderers)@[k]).id != id,
        other.id != id ==> (final(renderers)@.contains(other) <==> old(renderers)@.contains(other)),
{
    let old_list = old(renderers)@;
    let list = final(renderers)@;
    let named = crate::connect::has_other_id(id);
    assert forall|k: int| 0 <= k < list.len() implies (#[trigger] list[k]).id != id by {
        old_list.lemma_filter_pred(named, k);
    }
    if other.id != id && old_list.contains(other) {
        let k = choose|k: int| 0 <= k < old_list.len() && old_list[k] == other;
        old_list.lemma_filter_contains(named, k);
    }
    if list.contains(other) {
        old_list.lemma_filter_contains_rev(named, other);
    }
}

/// The renderer that the session names is active, and no other is; nothing else changes.
pub proof fn law_the_named_renderer_is_active(renderers: &mut Vec<ConnectDevice>, id: Option<i32>)
    requires
        call_ensures(set_active, (renderers, id), ()),
    ensures
        final(renderers)@.len() == old(renderers)@.len(),
        forall|k: int|
            0 <= k < old(renderers)@.len() ==> {
                &&& (#[trigger] final(renderers)@[k]).id == old(renderers)@[k].id
                &&& final(renderers)@[k].name == old(renderers)@[k].name
                &&& final(renderers)@[k].active <==> id is Some && old(renderers)@[k].id == id->0
            },
{
}

/// A change of the active renderer is listed as the session's word on it is, and what a renderer
/// does or how loud it is changes nothing of the list.
pub proof fn law_a_change_of_the_active_renderer_is_listed(
    renderers: &mut Vec<ConnectDevice>,
    other: &mut Vec<ConnectDevice>,
    event: RendererEvent,
    id: Option<i32>,
    r: bool,
)
    requires
        call_ensures(update, (renderers, event), r),
        call_ensures(set_active, (other, id), ()),
        old(renderers)@ == old(other)@,
    ensures
        event matches RendererEvent::ActiveChanged { id: named } ==> (named == id ==> r && final(renderers)@ == final(other)@),
        event is StateUpdated || event is Volume || event is Other ==> !r && final(renderers)@
            == old(renderers)@,
{
}

/// Another renderer is asked what it does, and this device is not.
pub proof fn law_another_renderer_is_asked(
    session: &SessionView,
    active: Option<i32>,
    r: Vec<ConnectAction>,
)
    requires
        call_ensures(ask_remote_state, (session, active), r),
    ensures
        active is Some && session.renderer_id != active ==> r@.len() == 1 && r@[0]
            == ConnectAction::AskRendererState(active->0),
        active is None || session.renderer_id == active ==> r@.len() == 0,
{
    lemma_models(r@);
}

/// This device becomes active by itself, another through the session.
pub proof fn law_a_renderer_is_activated(session: &SessionView, id: i32, r: Vec<ConnectAction>)
    requires
        call_ensures(activate, (session, id), r),
    ensures
        r@.len() == 1,
        session.renderer_id == Some(id) ==> r@[0] is Activate,
        session.renderer_id != Some(id) ==> (r@[0] matches ConnectAction::Control(command) && (
        command matches ControllerCommand::SetActiveRenderer(named) && named == id)),
{
    lemma_models(r@);
}

/// What another renderer does is kept with the time at which it was heard of; what this device does
/// is not.
pub proof fn law_another_renderer_is_followed(
    connect: &mut Connect,
    session: &SessionView,
    player: &PlayerView,
    id: i32,
    state: PlayerState,
    now: u128,
    r: Vec<ConnectAction>,
)
    requires
        call_ensures(
            Connect::handle_event,
            (
                connect,
                session,
                player,
                SessionEvent::Renderer(RendererEvent::StateUpdated { id, state: Some(state) }),
                now,
            ),
            r,
        ),
    ensures
        session.renderer_id != Some(id) ==> (final(connect).remote matches Some(remote)
            && remote.state == state && remote.at == now),
        session.renderer_id == Some(id) ==> final(connect).remote == old(connect).remote,
        r@.len() == 0,
        final(connect).renderers@ == old(connect).renderers@,
        final(connect).taking_over == old(connect).taking_over,
{
    lemma_models(r@);
}

/// A session that is lost stays known; once it is back, nothing is pending and its renderers are
/// heard of anew.
pub proof fn law_a_lost_session_comes_back(
    connect: &mut Connect,
    session: &SessionView,
    player: &PlayerView,
    event: SessionEvent,
    now: u128,
    r: Vec<ConnectAction>,
)
    requires
        call_ensures(Connect::handle_event, (connect, session, player, event, now), r),
    ensures
        event is Disconnected ==> r@.len() == 0 && *final(connect) == (Connect {
            connected: false,
            ..*old(connect)
        }),
        event is Reconnected ==> {
            &&& final(connect).connected
            &&& final(connect).pending is None
            &&& !final(connect).taking_over
            &&& final(connect).renderers@.len() == 0
            &&& final(connect).session_queue == old(connect).session_queue
            &&& final(connect).refused == old(connect).refused
            &&& final(connect).remote == old(connect).remote
            &&& r@.len() == 1
            &&& r@[0] is Publish
        },
        event is Other ==> r@.len() == 0 && *final(connect) == *old(connect),
{
    lemma_models(r@);
}

/// A queue event is handled as its queue change is.
pub proof fn law_a_queue_event_is_a_queue_change(
    connect: &mut Connect,
    session: &SessionView,
    player: &PlayerView,
    queue: QueueEvent,
    now: u128,
    r: Vec<ConnectAction>,
)
    requires
        call_ensures(
            Connect::handle_event,
            (connect, session, player, SessionEvent::Queue(queue), now),
            r,
        ),
    ensures
        queue matches QueueEvent::State { tracks, action } ==> r@.len() == 1
            && r@[0] is ReplaceQueue && final(connect).pending is None,
        queue is Cleared ==> r@.len() == 1 && r@[0] is ReplaceQueue && final(connect).pending is None,
        queue is Changed ==> r@.len() == 1 && r@[0] is AskQueueState,
        queue is Error ==> r@.len() == 0,
{
    lemma_models(r@);
}

/// A change of the list of renderers is shown, after the question what the active one does.
pub proof fn law_a_change_of_renderers_is_shown(
    connect: &mut Connect,
    session: &SessionView,
    player: &PlayerView,
    event: RendererEvent,
    now: u128,
    r: Vec<ConnectAction>,
)
    requires
        call_ensures(
            Connect::handle_event,
            (connect, session, player, SessionEvent::Renderer(event), now),
            r,
        ),
    ensures
        event is Added || event is Updated || event is Removed ==> r@.len() == 1 && r@[0] is Publish
            && final(connect).remote == old(connect).remote,
        event matches RendererEvent::ActiveChanged { id } ==> {
            &&& r@.len() > 0
            &&& r@.last() is Publish
            &&& id is Some && session.renderer_id != id ==> r@.len() == 2 && r@[0]
                == ConnectAction::AskRendererState(id->0)
            &&& id is None || session.renderer_id == id ==> r@.len() == 1
            &&& !final(connect).taking_over
        },
        event is Volume || event is Other ==> r@.len() == 0,
{
    lemma_models(r@);
}

/// A connection starts as one of which nothing is known yet, in the quality that is asked for.
pub proof fn law_a_connection_starts_fresh(
    quality: AudioQuality,
    full_volume: Volume,
    now: u128,
    r: Connect,
    named: ConnectQuality,
)
    requires
        call_ensures(Connect::new, (quality, full_volume, now), r),
        call_ensures(connect_quality, (quality,), named),
    ensures
        r.max_audio_quality == named,
        r.connected,
        !r.muted,
        r.volume_before_mute == full_volume,
        r.reported_volume is None,
        r.reported_state_at == now,
        r.session_queue is None,
        r.pending is None,
        !r.refused,
        r.deferred is None,
        r.renderers@.len() == 0,
        !r.taking_over,
        r.remote is None,
        r.played is None,
{
}

/// A device keeps its name, its version and its best quality, is a computer whose volume can be set,
/// and is told from others by its host and its name.
pub proof fn law_a_device_presents_itself(
    host: &str,
    name: String,
    quality: AudioQuality,
    version: String,
    r: Device,
    named: ConnectQuality,
)
    requires
        call_ensures(device, (host, name, quality, version), r),
        call_ensures(connect_quality, (quality,), named),
    ensures
        r.uuid@ == uuid_v5_oid(host@ + "/"@ + name@),
        r.name == name,
        r.software_version == version,
        r.max_audio_quality == named,
        r.kind == DeviceKind::Computer,
        r.volume_remote_control,
        r.brand@ == "qobine"@,
        r.model@ == "qobine"@,
{
}

/// The tracks of a session are asked for in their order, each under the id that the session gave
/// it.
pub proof fn law_tracks_are_asked_for_in_order(tracks: &[QueueTrackRef], r: Vec<NewQueueItem>)
    requires
        call_ensures(crate::connect::items, (tracks,), r),
    ensures
        r@.len() == tracks@.len(),
        forall|i: int|
            0 <= i < r@.len() ==> (#[trigger] r@[i]).track_id == tracks@[i].track_id
                && r@[i].connect_id == tracks@[i].queue_item_id,
{
}

/// A change that the session lacks is sent to it, and before it a device that plays nothing but
/// new items takes over, where another is active and this one is known.
pub proof fn law_a_change_is_sent(
    connect: &mut Connect,
    session: &SessionView,
    tracklist: &Tracklist,
    now: u128,
    r: Vec<ConnectAction>,
    known: &[(i32, u32)],
    local: &[LocalItem],
    current: usize,
    change: Option<ControllerCommand>,
)
    requires
        call_ensures(Connect::mirror, (connect, session, tracklist, now), r),
        old(connect).connected,
        old(connect).session_queue matches Some(queue) && queue@ == known@,
        old(connect).pending is None,
        local@.len() == tracklist.items().len(),
        forall|i: int|
            0 <= i < local@.len() ==> #[trigger] local@[i] == (
                tracklist.items()[i].queue_id,
                tracklist.items()[i].connect_id,
                tracklist.items()[i].track.id,
            ),
        call_ensures(Tracklist::current_position, (tracklist,), current),
        call_ensures(delta, (known, local, current), change),
    ensures
        change is None ==> r@.len() == 0 && *final(connect) == *old(connect),
        change matches Some(command) ==> ({
            let taken_over = !session.active && !old(connect).taking_over
                && session.renderer_id is Some && (forall|i: int|
                0 <= i < tracklist.items().len() ==> (
                #[trigger] tracklist.items()[i]).connect_id is None);
            &&& r@.len() == if taken_over {
                2int
            } else {
                1int
            }
            &&& r@.last() matches ConnectAction::ControlQueue(sent) && sent@ == command@
            &&& taken_over ==> r@[0] is Activate && *final(connect) == (Connect {
                taking_over: true,
                remote: None,
                ..*old(connect)
            })
            &&& !taken_over ==> *final(connect) == *old(connect)
        }),
{
    lemma_models(r@);
    assert(local@ =~= crate::connect::local_items(tracklist.items()));
    if r@.len() > 0 {
        assert(r@[r@.len() - 1]@ == models(r@)[r@.len() - 1]);
        assert(r@[0]@ == models(r@)[0]);
    }
}

} // verus!

//! The player as a device of a vendor session that names queue items by ids of its own.
//!
//! Spans of time are in nanoseconds.

use vstd::prelude::*;
use crate::connect::{BufferState, PlayingState};
use crate::models::AudioQuality;
use crate::sequences::{first_match, lemma_first_match, lemma_no_match};
use crate::tracklist::{playing, position_of_playing, QueueItem, Tracklist};

verus! {

/// What the player is doing.
#[derive(Clone, Copy, Debug, PartialEq, Eq, Structural)]
pub enum PlayerStatus {
    Playing,
    Buffering,
    Paused,
    Stopped,
}

/// A track with the id of its place in the queue.
#[derive(Clone, Copy, Debug, PartialEq, Eq, Structural)]
pub struct SessionTrack {
    pub track_id: u32,
    pub queue_item_id: u64,
}

/// The state of the player as the session sees it. Times are in milliseconds.
#[derive(Clone, Copy, Debug, PartialEq, Eq, Structural)]
pub struct QueueRendererState {
    pub playing: PlayingState,
    pub buffer: BufferState,
    pub current_queue_item_id: Option<i32>,
    pub next_queue_item_id: Option<i32>,
    pub position: u32,
    pub timestamp: Option<u64>,
    pub duration: Option<u32>,
}

/// What the session says.
#[allow(inconsistent_fields)]
pub enum PlayerEvent {
    SetState {
        playing: PlayingState,
        position_ms: Option<u32>,
        current_queue_item_id: Option<u64>,
    },
    SetActive,
    SetVolume { volume: Option<u32> },
    Heartbeat,
    Connected,
    Disconnected,
    QueueState { tracks: Vec<SessionTrack> },
    QueueCleared,
    QueueLoadTracks { tracks: Vec<SessionTrack>, queue_position: Option<u32> },
    QueueTracksAdded { tracks: Vec<SessionTrack> },
    QueueTracksInserted { tracks: Vec<SessionTrack>, insert_after: Option<i32> },
    QueueTracksRemoved { queue_item_ids: Vec<u32> },
    QueueTracksReordered { queue_item_ids: Vec<u32>, insert_after: u32 },
    VolumeChanged { volume: Option<u32> },
    /// Anything that is not supported.
    Ignored,
}

/// What is to be done, by the player or towards the session.
pub enum PlayerAction {
    Play,
    Pause,
    Seek(u128),
    SkipToPosition { index: usize, force: bool },
    SetVolumePercent(u32),
    NewQueue { items: Vec<SessionTrack>, play: bool },
    ClearQueue,
    AddTracksToQueue(Vec<u32>),
    InsertTracksToQueue { tracks: Vec<u32>, insert_after: usize },
    RemoveIndexFromQueue(usize),
    ReorderQueue(Vec<usize>),
    RespondState(QueueRendererState),
    RespondActivation { muted: bool, volume: u32, max_quality: i32, playback: QueueRendererState },
    RespondVolume(Option<u32>),
    RespondHeartbeat(Option<QueueRendererState>),
    ReportState(QueueRendererState),
    ReportVolume(u32),
}

/// An action with its lists as sequences.
pub enum PlayerActionModel {
    Play,
    Pause,
    Seek(u128),
    SkipToPosition { index: usize, force: bool },
    SetVolumePercent(u32),
    NewQueue { items: Seq<SessionTrack>, play: bool },
    ClearQueue,
    AddTracksToQueue(Seq<u32>),
    InsertTracksToQueue { tracks: Seq<u32>, insert_after: usize },
    RemoveIndexFromQueue(usize),
    ReorderQueue(Seq<usize>),
    RespondState(QueueRendererState),
    RespondActivation { muted: bool, volume: u32, max_quality: i32, playback: QueueRendererState },
    RespondVolume(Option<u32>),
    RespondHeartbeat(Option<QueueRendererState>),
    ReportState(QueueRendererState),
    ReportVolume(u32),
}

impl View for PlayerAction {
    type V = PlayerActionModel;

    open spec fn view(&self) -> PlayerActionModel {
        match self {
            PlayerAction::Play => PlayerActionModel::Play,
            PlayerAction::Pause => PlayerActionModel::Pause,
            PlayerAction::Seek(to) => PlayerActionModel::Seek(*to),
            PlayerAction::SkipToPosition { index, force } => PlayerActionModel::SkipToPosition {
                index: *index,
                force: *force,
            },
            PlayerAction::SetVolumePercent(percent) => PlayerActionModel::SetVolumePercent(
                *percent,
            ),
            PlayerAction::NewQueue { items, play } => PlayerActionModel::NewQueue {
                items: items@,
                play: *play,
            },
            PlayerAction::ClearQueue => PlayerActionModel::ClearQueue,
            PlayerAction::AddTracksToQueue(tracks) => PlayerActionModel::AddTracksToQueue(tracks@),
            PlayerAction::InsertTracksToQueue { tracks, insert_after } =>
                PlayerActionModel::InsertTracksToQueue {
                tracks: tracks@,
                insert_after: *insert_after,
            },
            PlayerAction::RemoveIndexFromQueue(index) => PlayerActionModel::RemoveIndexFromQueue(
                *index,
            ),
            PlayerAction::ReorderQueue(order) => PlayerActionModel::ReorderQueue(order@),
            PlayerAction::RespondState(state) => PlayerActionModel::RespondState(*state),
            PlayerAction::RespondActivation { muted, volume, max_quality, playback } =>
                PlayerActionModel::RespondActivation {
                muted: *muted,
                volume: *volume,
                max_quality: *max_quality,
                playback: *playback,
            },
            PlayerAction::RespondVolume(volume) => PlayerActionModel::RespondVolume(*volume),
            PlayerAction::RespondHeartbeat(state) => PlayerActionModel::RespondHeartbeat(*state),
            PlayerAction::ReportState(state) => PlayerActionModel::ReportState(*state),
            PlayerAction::ReportVolume(volume) => PlayerActionModel::ReportVolume(*volume),
        }
    }
}

/// The actions as models.
pub open spec fn action_models(actions: Seq<PlayerAction>) -> Seq<PlayerActionModel> {
    actions.map_values(|action: PlayerAction| action@)
}

/// Adds an action.
fn then_do(actions: &mut Vec<PlayerAction>, action: PlayerAction)
    ensures
        action_models(final(actions)@) == action_models(old(actions)@).push(action@),
{
    let ghost before = action_models(actions@);
    actions.push(action);
    assert(action_models(actions@) =~= before.push(action@));
}

/// No action.
fn nothing() -> (r: Vec<PlayerAction>)
    ensures
        action_models(r@) == Seq::<PlayerActionModel>::empty(),
{
    let r: Vec<PlayerAction> = Vec::new();
    assert(action_models(r@) =~= Seq::<PlayerActionModel>::empty());
    r
}

/// One action.
fn only(action: PlayerAction) -> (r: Vec<PlayerAction>)
    ensures
        action_models(r@) == seq![action@],
{
    let mut r = nothing();
    then_do(&mut r, action);
    assert(action_models(r@) =~= seq![action@]);
    r
}

/// What the player does. `volume_percent` is the volume in whole percent; `timestamp` is the time
/// of day in milliseconds, where it is known.
pub struct PlaybackView<'a> {
    pub tracklist: &'a Tracklist,
    pub status: PlayerStatus,
    pub position: u128,
    pub volume_percent: u32,
    pub timestamp: Option<u64>,
}

/// The id is `id`.
pub open spec fn is_id(id: u32) -> spec_fn(u64) -> bool {
    |other: u64| other == id
}

/// The place of a queue item in the session's queue.
pub open spec fn place_of(queue_ids: Seq<u64>, id: u32) -> Option<int> {
    first_match(queue_ids, is_id(id))
}

pub fn get_queue_index(queue_ids: &Vec<u64>, id: u32) -> (r: Option<usize>)
    ensures
        match r {
            Some(i) => place_of(queue_ids@, id) == Some(i as int) && i < queue_ids.len(),
            None => place_of(queue_ids@, id) is None,
        },
{
    for i in 0..queue_ids.len()
        invariant
            forall|j: int| 0 <= j < i ==> !is_id(id)(#[trigger] queue_ids@[j]),
    {
        if queue_ids[i] == id as u64 {
            proof {
                lemma_first_match(queue_ids@, is_id(id), i as int);
            }
            return Some(i);
        }
    }
    proof {
        lemma_no_match(queue_ids@, is_id(id));
    }
    None
}

/// The local queue is as long as the place of `id` demands.
pub open spec fn place_is_queued(queue_ids: Seq<u64>, queue: Seq<QueueItem>, id: u32) -> bool {
    place_of(queue_ids, id) matches Some(i) ==> i < queue.len()
}

/// The local id of the item at the place of `id` in the session's queue.
pub open spec fn local_id(queue_ids: Seq<u64>, queue: Seq<QueueItem>, id: u32) -> Option<u64> {
    match place_of(queue_ids, id) {
        Some(i) => Some(queue[i].queue_id),
        None => None,
    }
}

pub fn get_queue_item_id(queue_ids: &Vec<u64>, tracklist: &Tracklist, id: u32) -> (r: Option<u64>)
    requires
        place_is_queued(queue_ids@, tracklist.items(), id),
    ensures
        r == local_id(queue_ids@, tracklist.items(), id),
{
    match get_queue_index(queue_ids, id) {
        Some(index) => {
            let queue = tracklist.queue();
            Some(queue[index].queue_id)
        },
        None => None,
    }
}

/// The id of the item that plays, as the session looks it up.
pub open spec fn current_lookup(queue: Seq<QueueItem>) -> u32 {
    match first_match(queue, playing()) {
        Some(i) => queue[i].queue_id as u32,
        None => 0,
    }
}

/// The id of the item behind the one that plays, as the session looks it up.
pub open spec fn next_lookup(queue: Seq<QueueItem>) -> u32 {
    if position_of_playing(queue) + 1 < queue.len() {
        queue[position_of_playing(queue) + 1].queue_id as u32
    } else {
        0
    }
}

/// The state of the player can be told: what the session looks up is queued, and the length of
/// the track fits.
pub open spec fn can_tell(queue_ids: Seq<u64>, queue: Seq<QueueItem>) -> bool {
    &&& place_is_queued(queue_ids, queue, current_lookup(queue))
    &&& place_is_queued(queue_ids, queue, next_lookup(queue))
    &&& first_match(queue, playing()) matches Some(i) ==> queue[i].track.duration_seconds * 1000
        <= u32::MAX
}

/// Whether the local queue is as long as the place of `id` demands.
fn is_place_queued(queue_ids: &Vec<u64>, tracklist: &Tracklist, id: u32) -> (r: bool)
    ensures
        r == place_is_queued(queue_ids@, tracklist.items(), id),
{
    match get_queue_index(queue_ids, id) {
        Some(index) => index < tracklist.total(),
        None => true,
    }
}

/// Whether the state of the player can be told.
pub fn is_tellable(playback: &PlaybackView, queue_ids: &Vec<u64>) -> (r: bool)
    ensures
        r == can_tell(queue_ids@, playback.tracklist.items()),
{
    let tracklist = playback.tracklist;
    let current: u32 = match tracklist.current_queue_id() {
        Some(id) => id as u32,
        None => 0,
    };
    let next: u32 = match tracklist.next_track_queue_id() {
        Some(id) => id as u32,
        None => 0,
    };
    let length_fits: bool = match tracklist.current_track() {
        Some(track) => track.duration_seconds as u64 * 1000 <= u32::MAX as u64,
        None => true,
    };
    is_place_queued(queue_ids, tracklist, current) && is_place_queued(queue_ids, tracklist, next)
        && length_fits
}

/// An id in the width of the protocol.
pub open spec fn narrow(id: Option<u64>) -> Option<i32> {
    match id {
        Some(id) => Some(id as i32),
        None => None,
    }
}

/// The state of the player as the session sees it.
pub open spec fn told(
    queue_ids: Seq<u64>,
    queue: Seq<QueueItem>,
    status: PlayerStatus,
    position: u128,
    timestamp: Option<u64>,
) -> QueueRendererState {
    QueueRendererState {
        playing: match status {
            PlayerStatus::Playing => PlayingState::Playing,
            PlayerStatus::Buffering | PlayerStatus::Paused => PlayingState::Paused,
            PlayerStatus::Stopped => PlayingState::Stopped,
        },
        buffer: if status == PlayerStatus::Buffering {
            BufferState::Buffering
        } else {
            BufferState::Ready
        },
        current_queue_item_id: narrow(local_id(queue_ids, queue, current_lookup(queue))),
        next_queue_item_id: narrow(local_id(queue_ids, queue, next_lookup(queue))),
        position: (position / 1_000_000) as u32,
        timestamp,
        duration: match first_match(queue, playing()) {
            Some(i) => Some((queue[i].track.duration_seconds * 1000) as u32),
            None => None,
        },
    }
}

pub fn current_state(playback: &PlaybackView, queue_ids: &Vec<u64>) -> (r: QueueRendererState)
    requires
        can_tell(queue_ids@, playback.tracklist.items()),
    ensures
        r == told(
            queue_ids@,
            playback.tracklist.items(),
            playback.status,
            playback.position,
            playback.timestamp,
        ),
{
    let tracklist = playback.tracklist;
    let current: u32 = match tracklist.current_queue_id() {
        Some(id) => id as u32,
        None => 0,
    };
    let next: u32 = match tracklist.next_track_queue_id() {
        Some(id) => id as u32,
        None => 0,
    };
    QueueRendererState {
        playing: match playback.status {
            PlayerStatus::Playing => PlayingState::Playing,
            PlayerStatus::Buffering | PlayerStatus::Paused => PlayingState::Paused,
            PlayerStatus::Stopped => PlayingState::Stopped,
        },
        buffer: match playback.status {
            PlayerStatus::Buffering => BufferState::Buffering,
            _ => BufferState::Ready,
        },
        current_queue_item_id: match get_queue_item_id(queue_ids, tracklist, current) {
            Some(id) => Some(id as i32),
            None => None,
        },
        next_queue_item_id: match get_queue_item_id(queue_ids, tracklist, next) {
            Some(id) => Some(id as i32),
            None => None,
        },
        position: (playback.position / 1_000_000) as u32,
        timestamp: playback.timestamp,
        duration: match tracklist.current_track() {
            Some(track) => Some(track.duration_seconds * 1000),
            None => None,
        },
    }
}

/// The number of a quality in the protocol.
pub open spec fn quality_number(quality: AudioQuality) -> int {
    match quality {
        AudioQuality::Mp3 => 1,
        AudioQuality::CD => 2,
        AudioQuality::HIFI96 => 3,
        AudioQuality::HIFI192 => 4,
    }
}

pub fn convert_audio_quality(max_audio_quality: AudioQuality) -> (r: i32)
    ensures
        r == quality_number(max_audio_quality),
{
    match max_audio_quality {
        AudioQuality::Mp3 => 1,
        AudioQuality::CD => 2,
        AudioQuality::HIFI96 => 3,
        AudioQuality::HIFI192 => 4,
    }
}

/// The ids of queue items.
pub open spec fn ids_of(tracks: Seq<SessionTrack>) -> Seq<u64> {
    tracks.map_values(|track: SessionTrack| track.queue_item_id)
}

/// The tracks of queue items.
pub open spec fn tracks_of(tracks: Seq<SessionTrack>) -> Seq<u32> {
    tracks.map_values(|track: SessionTrack| track.track_id)
}

fn track_ids(tracks: &Vec<SessionTrack>) -> (r: Vec<u32>)
    ensures
        r@ == tracks_of(tracks@),
{
    let mut r: Vec<u32> = Vec::new();
    for i in 0..tracks.len()
        invariant
            r@.len() == i,
            forall|j: int| 0 <= j < i ==> #[trigger] r@[j] == tracks@[j].track_id,
    {
        r.push(tracks[i].track_id);
    }
    assert(r@ =~= tracks_of(tracks@));
    r
}

/// What is left of the session's queue when items are removed one after the other.
pub open spec fn ids_left(ids: Seq<u64>, gone: Seq<u32>) -> Seq<u64>
    decreases gone.len(),
{
    if gone.len() == 0 {
        ids
    } else {
        let before = ids_left(ids, gone.drop_last());
        match place_of(before, gone.last()) {
            Some(i) => before.remove(i),
            None => before,
        }
    }
}

/// The removals that make it so.
pub open spec fn removals(ids: Seq<u64>, gone: Seq<u32>) -> Seq<PlayerActionModel>
    decreases gone.len(),
{
    if gone.len() == 0 {
        Seq::empty()
    } else {
        let before = removals(ids, gone.drop_last());
        match place_of(ids_left(ids, gone.drop_last()), gone.last()) {
            Some(i) => before.push(PlayerActionModel::RemoveIndexFromQueue(i as usize)),
            None => before,
        }
    }
}

/// The place where new ids go: the number of the item that they follow, where an item has that
/// number, or the front.
pub open spec fn insert_place(ids: Seq<u64>, insert_after: usize) -> int {
    if ids.contains(insert_after as u64) {
        insert_after as int
    } else {
        0
    }
}

/// The place where new ids go.
fn place_to_insert(queue_ids: &Vec<u64>, insert_after: usize) -> (r: usize)
    ensures
        r == insert_place(queue_ids@, insert_after),
{
    for i in 0..queue_ids.len()
        invariant
            forall|j: int| 0 <= j < i ==> #[trigger] queue_ids@[j] != insert_after as u64,
    {
        if queue_ids[i] == insert_after as u64 {
            return insert_after;
        }
    }
    0
}

/// The session's queue with new ids.
pub open spec fn inserted_ids(ids: Seq<u64>, new: Seq<u64>, insert_after: usize) -> Seq<u64> {
    if new.len() == 0 {
        ids
    } else {
        let at = insert_place(ids, insert_after);
        ids.take(at) + new + ids.skip(at)
    }
}

/// The new order when the places from `start` up to `end` move to `to`, counted without them.
pub open spec fn moved_order(len: int, start: int, end: int, to: int) -> Seq<usize> {
    let moved = Seq::new((end - start) as nat, |i: int| (start + i) as usize);
    let rest = Seq::new(
        (len - (end - start)) as nat,
        |i: int|
            if i < start {
                i as usize
            } else {
                (i + (end - start)) as usize
            },
    );
    rest.take(to) + moved + rest.skip(to)
}

/// The range of places that a reordering moves and where it goes, if both ends are known.
pub open spec fn reordering(ids: Seq<u64>, items: Seq<u32>, insert_after: u32) -> Option<
    (int, int, int),
> {
    if items.len() == 0 {
        None
    } else {
        match (place_of(ids, items[0]), place_of(ids, items.last())) {
            (Some(start), Some(last)) => Some(
                (
                    start,
                    last + 1,
                    match place_of(ids, insert_after) {
                        Some(i) => i + 1,
                        None => 0,
                    },
                ),
            ),
            _ => None,
        }
    }
}

/// A reordering names a range of the queue and a place outside of it.
pub open spec fn can_reorder(ids: Seq<u64>, items: Seq<u32>, insert_after: u32) -> bool {
    reordering(ids, items, insert_after) matches Some((start, end, to)) ==> start <= end && to
        <= ids.len() - (end - start)
}

/// The player plays, or waits for data to play.
pub open spec fn is_busy(status: PlayerStatus) -> bool {
    status == PlayerStatus::Playing || status == PlayerStatus::Buffering
}

/// The event can be handled. A heartbeat tells the state only of a player that is busy.
pub open spec fn can_handle(
    ids: Seq<u64>,
    queue: Seq<QueueItem>,
    status: PlayerStatus,
    event: PlayerEvent,
) -> bool {
    match event {
        PlayerEvent::SetState { .. } | PlayerEvent::SetActive => can_tell(ids, queue),
        PlayerEvent::Heartbeat => is_busy(status) ==> can_tell(ids, queue),
        PlayerEvent::QueueTracksInserted { tracks, insert_after } => insert_after matches Some(at)
            ==> tracks@.len() == 0 || insert_place(ids, at as usize) <= ids.len(),
        PlayerEvent::QueueTracksReordered { queue_item_ids, insert_after } => can_reorder(
            ids,
            queue_item_ids@,
            insert_after,
        ),
        _ => true,
    }
}

/// The session's queue after an event.
pub open spec fn ids_after(ids: Seq<u64>, event: PlayerEvent) -> Seq<u64> {
    match event {
        PlayerEvent::QueueState { tracks } => ids + ids_of(tracks@),
        PlayerEvent::QueueLoadTracks { tracks, queue_position } => ids_of(tracks@),
        PlayerEvent::QueueTracksAdded { tracks } => ids + ids_of(tracks@),
        PlayerEvent::QueueTracksInserted { tracks, insert_after } => match insert_after {
            Some(after) => inserted_ids(ids, ids_of(tracks@), after as usize),
            None => ids,
        },
        PlayerEvent::QueueTracksRemoved { queue_item_ids } => ids_left(ids, queue_item_ids@),
        PlayerEvent::QueueTracksReordered { queue_item_ids, insert_after } => match reordering(
            ids,
            queue_item_ids@,
            insert_after,
        ) {
            Some((start, end, to)) => moved_order(ids.len() as int, start, end, to).map_values(
                |i: usize| ids[i as int],
            ),
            None => ids,
        },
        _ => ids,
    }
}

/// The change of volume that a session asks for.
pub open spec fn volume_change(volume: Option<u32>, percent: u32) -> Seq<PlayerActionModel> {
    match volume {
        Some(volume) => if volume == percent {
            Seq::empty()
        } else {
            seq![PlayerActionModel::SetVolumePercent(volume)]
        },
        None => Seq::empty(),
    }
}

/// What a change of state asks of the player.
pub open spec fn state_actions(
    ids: Seq<u64>,
    queue: Seq<QueueItem>,
    playing_state: PlayingState,
    position_ms: Option<u32>,
    item: Option<u64>,
) -> Seq<PlayerActionModel> {
    (match playing_state {
        PlayingState::Stopped | PlayingState::Paused => seq![PlayerActionModel::Pause],
        PlayingState::Playing => seq![PlayerActionModel::Play],
        PlayingState::Unknown => Seq::empty(),
    }) + (match position_ms {
        Some(ms) => seq![PlayerActionModel::Seek((ms * 1_000_000) as u128)],
        None => Seq::empty(),
    }) + (match item {
        Some(item) => match place_of(ids, item as u32) {
            Some(i) => if i == position_of_playing(queue) {
                Seq::empty()
            } else {
                seq![
                    PlayerActionModel::SkipToPosition { index: i as usize, force: true },
                    PlayerActionModel::Seek(0),
                ]
            },
            None => Seq::empty(),
        },
        None => Seq::empty(),
    })
}

/// What an event asks of the player and tells the session. `state` is the state of the player.
pub open spec fn event_actions(
    ids: Seq<u64>,
    audio_quality: i32,
    queue: Seq<QueueItem>,
    status: PlayerStatus,
    volume_percent: u32,
    state: QueueRendererState,
    event: PlayerEvent,
) -> Seq<PlayerActionModel> {
    match event {
        PlayerEvent::SetState { playing, position_ms, current_queue_item_id } => state_actions(
            ids,
            queue,
            playing,
            position_ms,
            current_queue_item_id,
        ).push(PlayerActionModel::RespondState(state)),
        PlayerEvent::SetActive => seq![
            PlayerActionModel::RespondActivation {
                muted: false,
                volume: volume_percent,
                max_quality: audio_quality,
                playback: state,
            },
        ],
        PlayerEvent::SetVolume { volume } => volume_change(volume, volume_percent).push(
            PlayerActionModel::RespondVolume(volume),
        ),
        PlayerEvent::Heartbeat => seq![
            PlayerActionModel::RespondHeartbeat(
                match status {
                    PlayerStatus::Playing | PlayerStatus::Buffering => Some(state),
                    PlayerStatus::Paused | PlayerStatus::Stopped => None,
                },
            ),
        ],
        PlayerEvent::QueueState { tracks } => seq![
            PlayerActionModel::NewQueue { items: tracks@, play: false },
        ],
        PlayerEvent::QueueCleared => seq![PlayerActionModel::ClearQueue],
        PlayerEvent::QueueLoadTracks { tracks, queue_position } => seq![
            PlayerActionModel::NewQueue { items: tracks@, play: false },
        ] + (match queue_position {
            Some(at) => if at == position_of_playing(queue) {
                Seq::empty()
            } else {
                seq![PlayerActionModel::SkipToPosition { index: at as usize, force: true }]
            },
            None => Seq::empty(),
        }),
        PlayerEvent::QueueTracksAdded { tracks } => seq![
            PlayerActionModel::AddTracksToQueue(tracks_of(tracks@)),
        ],
        PlayerEvent::QueueTracksInserted { tracks, insert_after } => match insert_after {
            Some(after) => seq![
                PlayerActionModel::InsertTracksToQueue {
                    tracks: tracks_of(tracks@),
                    insert_after: after as usize,
                },
            ],
            None => Seq::empty(),
        },
        PlayerEvent::QueueTracksRemoved { queue_item_ids } => removals(ids, queue_item_ids@),
        PlayerEvent::QueueTracksReordered { queue_item_ids, insert_after } => match reordering(
            ids,
            queue_item_ids@,
            insert_after,
        ) {
            Some((start, end, to)) => seq![
                PlayerActionModel::ReorderQueue(moved_order(ids.len() as int, start, end, to)),
            ],
            None => Seq::empty(),
        },
        PlayerEvent::VolumeChanged { volume } => volume_change(volume, volume_percent),
        _ => Seq::empty(),
    }
}

/// The state of the connection to a vendor session.
pub struct ConnectState {
    pub audio_quality: i32,
    pub connected: bool,
    /// The ids that the session gave the items of its queue, in order.
    pub queue_ids: Vec<u64>,
}

impl ConnectState {
    pub fn new(max_audio_quality: AudioQuality) -> (r: Self)
        ensures
            r.audio_quality == quality_number(max_audio_quality),
            !r.connected,
            r.queue_ids@.len() == 0,
    {
        ConnectState {
            audio_quality: convert_audio_quality(max_audio_quality),
            connected: false,
            queue_ids: Vec::new(),
        }
    }

    pub fn queue_ids(&self) -> (r: Vec<u64>)
        ensures
            r@ == self.queue_ids@,
    {
        let mut r: Vec<u64> = Vec::new();
        for i in 0..self.queue_ids.len()
            invariant
                r@ == self.queue_ids@.take(i as int),
        {
            r.push(self.queue_ids[i]);
            assert(r@ =~= self.queue_ids@.take(i + 1));
        }
        assert(self.queue_ids@.take(self.queue_ids@.len() as int) =~= self.queue_ids@);
        r
    }

    /// The report after the position, the queue or the status has changed.
    pub fn handle_playback_changed(&self, playback: &PlaybackView) -> (r: Vec<PlayerAction>)
        requires
            self.connected ==> can_tell(self.queue_ids@, playback.tracklist.items()),
        ensures
            action_models(r@) == if self.connected {
                seq![
                    PlayerActionModel::ReportState(
                        told(
                            self.queue_ids@,
                            playback.tracklist.items(),
                            playback.status,
                            playback.position,
                            playback.timestamp,
                        ),
                    ),
                ]
            } else {
                Seq::<PlayerActionModel>::empty()
            },
    {
        if !self.connected {
            return nothing();
        }
        only(PlayerAction::ReportState(current_state(playback, &self.queue_ids)))
    }

    /// The report after the volume has changed.
    pub fn handle_volume_changed(&self, playback: &PlaybackView) -> (r: Vec<PlayerAction>)
        ensures
            action_models(r@) == if self.connected {
                seq![PlayerActionModel::ReportVolume(playback.volume_percent)]
            } else {
                Seq::<PlayerActionModel>::empty()
            },
    {
        if !self.connected {
            return nothing();
        }
        only(PlayerAction::ReportVolume(playback.volume_percent))
    }

    fn set_state(
        &self,
        playback: &PlaybackView,
        playing_state: PlayingState,
        position_ms: Option<u32>,
        item: Option<u64>,
    ) -> (r: Vec<PlayerAction>)
        requires
            can_tell(self.queue_ids@, playback.tracklist.items()),
        ensures
            action_models(r@) == state_actions(
                self.queue_ids@,
                playback.tracklist.items(),
                playing_state,
                position_ms,
                item,
            ).push(
                PlayerActionModel::RespondState(
                    told(
                        self.queue_ids@,
                        playback.tracklist.items(),
                        playback.status,
                        playback.position,
                        playback.timestamp,
                    ),
                ),
            ),
    {
        let mut actions = nothing();
        match playing_state {
            PlayingState::Stopped => {
                then_do(&mut actions, PlayerAction::Pause);
            },
            PlayingState::Paused => {
                then_do(&mut actions, PlayerAction::Pause);
            },
            PlayingState::Playing => {
                then_do(&mut actions, PlayerAction::Play);
            },
            PlayingState::Unknown => {},
        }
        if let Some(ms) = position_ms {
            then_do(&mut actions, PlayerAction::Seek(ms as u128 * 1_000_000));
        }
        let current: usize = playback.tracklist.current_position();
        if let Some(item) = item {
            if let Some(index) = get_queue_index(&self.queue_ids, item as u32) {
                if current != index {
                    then_do(&mut actions, PlayerAction::SkipToPosition { index, force: true });
                    then_do(&mut actions, PlayerAction::Seek(0));
                }
            }
        }
        assert(action_models(actions@) =~= state_actions(
            self.queue_ids@,
            playback.tracklist.items(),
            playing_state,
            position_ms,
            item,
        ));
        then_do(
            &mut actions,
            PlayerAction::RespondState(current_state(playback, &self.queue_ids)),
        );
        actions
    }

    fn volume_asked(&self, playback: &PlaybackView, volume: Option<u32>) -> (r: Vec<PlayerAction>)
        ensures
            action_models(r@) == volume_change(volume, playback.volume_percent),
    {
        match volume {
            Some(volume) => if volume != playback.volume_percent {
                only(PlayerAction::SetVolumePercent(volume))
            } else {
                nothing()
            },
            None => nothing(),
        }
    }

    fn push_ids(&mut self, tracks: &Vec<SessionTrack>)
        ensures
            final(self).queue_ids@ == old(self).queue_ids@ + ids_of(tracks@),
            final(self).audio_quality == old(self).audio_quality,
            final(self).connected == old(self).connected,
    {
        for i in 0..tracks.len()
            invariant
                self.queue_ids@ == old(self).queue_ids@ + ids_of(tracks@.take(i as int)),
                self.audio_quality == old(self).audio_quality,
                self.connected == old(self).connected,
        {
            let ghost before = self.queue_ids@;
            self.queue_ids.push(tracks[i].queue_item_id);
            assert(self.queue_ids@ =~= old(self).queue_ids@ + ids_of(tracks@.take(i + 1)));
        }
        assert(tracks@.take(tracks@.len() as int) =~= tracks@);
        assert(self.queue_ids@ =~= old(self).queue_ids@ + ids_of(tracks@));
    }

    fn insert_ids(&mut self, tracks: &Vec<SessionTrack>, insert_after: usize)
        requires
            tracks@.len() == 0 || insert_place(old(self).queue_ids@, insert_after) <= old(
                self,
            ).queue_ids@.len(),
        ensures
            final(self).queue_ids@ == inserted_ids(
                old(self).queue_ids@,
                ids_of(tracks@),
                insert_after,
            ),
            final(self).audio_quality == old(self).audio_quality,
            final(self).connected == old(self).connected,
    {
        if tracks.len() == 0 {
            return;
        }
        let at: usize = place_to_insert(&self.queue_ids, insert_after);
        let ghost ids = self.queue_ids@;
        assert(ids =~= ids.take(at as int) + ids_of(tracks@.take(0)) + ids.skip(at as int));
        for i in 0..tracks.len()
            invariant
                ids == old(self).queue_ids@,
                at <= ids.len(),
                self.queue_ids@ == ids.take(at as int) + ids_of(tracks@.take(i as int)) + ids.skip(
                    at as int,
                ),
                self.audio_quality == old(self).audio_quality,
                self.connected == old(self).connected,
        {
            let total: usize = self.queue_ids.len();
            assert(total == ids.len() + i);
            self.queue_ids.insert(at + i, tracks[i].queue_item_id);
            assert(self.queue_ids@ =~= ids.take(at as int) + ids_of(tracks@.take(i + 1))
                + ids.skip(at as int));
        }
        assert(tracks@.take(tracks@.len() as int) =~= tracks@);
    }

    fn remove_ids(&mut self, gone: &Vec<u32>) -> (r: Vec<PlayerAction>)
        ensures
            final(self).queue_ids@ == ids_left(old(self).queue_ids@, gone@),
            final(self).audio_quality == old(self).audio_quality,
            final(self).connected == old(self).connected,
            action_models(r@) == removals(old(self).queue_ids@, gone@),
    {
        let mut actions = nothing();
        let ghost ids = self.queue_ids@;
        for i in 0..gone.len()
            invariant
                ids == old(self).queue_ids@,
                self.queue_ids@ == ids_left(ids, gone@.take(i as int)),
                action_models(actions@) == removals(ids, gone@.take(i as int)),
                self.audio_quality == old(self).audio_quality,
                self.connected == old(self).connected,
        {
            assert(gone@.take(i + 1).drop_last() =~= gone@.take(i as int));
            if let Some(index) = get_queue_index(&self.queue_ids, gone[i]) {
                then_do(&mut actions, PlayerAction::RemoveIndexFromQueue(index));
                self.queue_ids.remove(index);
            }
        }
        assert(gone@.take(gone@.len() as int) =~= gone@);
        actions
    }

    fn reorder_ids(&mut self, items: &Vec<u32>, insert_after: u32) -> (r: Vec<PlayerAction>)
        requires
            can_reorder(old(self).queue_ids@, items@, insert_after),
        ensures
            final(self).audio_quality == old(self).audio_quality,
            final(self).connected == old(self).connected,
            ({
                let ids = old(self).queue_ids@;
                match reordering(ids, items@, insert_after) {
                    Some((start, end, to)) => {
                        let order = moved_order(ids.len() as int, start, end, to);
                        &&& final(self).queue_ids@ == order.map_values(|i: usize| ids[i as int])
                        &&& action_models(r@) == seq![PlayerActionModel::ReorderQueue(order)]
                    },
                    None => {
                        &&& final(self).queue_ids@ == ids
                        &&& action_models(r@) == Seq::<PlayerActionModel>::empty()
                    },
                }
            }),
    {
        if items.len() == 0 {
            return nothing();
        }
        let ghost ids = self.queue_ids@;
        let to: usize = match get_queue_index(&self.queue_ids, insert_after) {
            Some(i) => i + 1,
            None => 0,
        };
        let (start, end): (usize, usize) = match (
            get_queue_index(&self.queue_ids, items[0]),
            get_queue_index(&self.queue_ids, items[items.len() - 1]),
        ) {
            (Some(start), Some(last)) => (start, last + 1),
            _ => return nothing(),
        };
        let order = reordered_places(self.queue_ids.len(), start, end, to);
        let mut reordered: Vec<u64> = Vec::new();
        for i in 0..order.len()
            invariant
                self.queue_ids@ == ids,
                forall|j: int| 0 <= j < order@.len() ==> #[trigger] order@[j] < ids.len(),
                reordered@.len() == i,
                forall|j: int| 0 <= j < i ==> #[trigger] reordered@[j] == ids[order@[j] as int],
        {
            let place: usize = order[i];
            reordered.push(self.queue_ids[place]);
        }
        assert(reordered@ =~= order@.map_values(|i: usize| ids[i as int]));
        self.queue_ids = reordered;
        only(PlayerAction::ReorderQueue(order))
    }

    /// Whether a reordering names a range of the queue and a place outside of it.
    fn is_reordering_possible(&self, items: &Vec<u32>, insert_after: u32) -> (r: bool)
        ensures
            r == can_reorder(self.queue_ids@, items@, insert_after),
    {
        if items.len() == 0 {
            return true;
        }
        let to: usize = match get_queue_index(&self.queue_ids, insert_after) {
            Some(i) => i + 1,
            None => 0,
        };
        match (
            get_queue_index(&self.queue_ids, items[0]),
            get_queue_index(&self.queue_ids, items[items.len() - 1]),
        ) {
            (Some(start), Some(last)) => start <= last + 1 && to <= self.queue_ids.len() - (last + 1
                - start),
            _ => true,
        }
    }

    /// Whether the event can be handled.
    pub fn accepts(&self, playback: &PlaybackView, event: &PlayerEvent) -> (r: bool)
        ensures
            r == can_handle(
                self.queue_ids@,
                playback.tracklist.items(),
                playback.status,
                *event,
            ),
    {
        match event {
            PlayerEvent::SetState { .. } | PlayerEvent::SetActive => is_tellable(
                playback,
                &self.queue_ids,
            ),
            PlayerEvent::Heartbeat => match playback.status {
                PlayerStatus::Playing | PlayerStatus::Buffering => is_tellable(
                    playback,
                    &self.queue_ids,
                ),
                PlayerStatus::Paused | PlayerStatus::Stopped => true,
            },
            PlayerEvent::QueueTracksInserted { tracks, insert_after } => match insert_after {
                Some(after) => tracks.len() == 0 || place_to_insert(
                    &self.queue_ids,
                    *after as usize,
                ) <= self.queue_ids.len(),
                None => true,
            },
            PlayerEvent::QueueTracksReordered { queue_item_ids, insert_after } =>
                self.is_reordering_possible(queue_item_ids, *insert_after),
            _ => true,
        }
    }

    /// What an event of the session asks of the player and tells the session.
    pub fn handle_event(&mut self, playback: &PlaybackView, event: PlayerEvent) -> (r: Vec<
        PlayerAction,
    >)
        requires
            can_handle(
                old(self).queue_ids@,
                playback.tracklist.items(),
                playback.status,
                event,
            ),
        ensures
            action_models(r@) == event_actions(
                old(self).queue_ids@,
                old(self).audio_quality,
                playback.tracklist.items(),
                playback.status,
                playback.volume_percent,
                told(
                    old(self).queue_ids@,
                    playback.tracklist.items(),
                    playback.status,
                    playback.position,
                    playback.timestamp,
                ),
                event,
            ),
            final(self).queue_ids@ == ids_after(old(self).queue_ids@, event),
            final(self).connected == (match event {
                PlayerEvent::Connected => true,
                PlayerEvent::Disconnected => false,
                _ => old(self).connected,
            }),
            final(self).audio_quality == old(self).audio_quality,
    {
        match event {
            PlayerEvent::SetState { playing, position_ms, current_queue_item_id } => self.set_state(
                playback,
                playing,
                position_ms,
                current_queue_item_id,
            ),
            PlayerEvent::SetActive => only(
                PlayerAction::RespondActivation {
                    muted: false,
                    volume: playback.volume_percent,
                    max_quality: self.audio_quality,
                    playback: current_state(playback, &self.queue_ids),
                },
            ),
            PlayerEvent::SetVolume { volume } => {
                let mut actions = self.volume_asked(playback, volume);
                then_do(&mut actions, PlayerAction::RespondVolume(volume));
                actions
            },
            PlayerEvent::Heartbeat => {
                let state = match playback.status {
                    PlayerStatus::Playing | PlayerStatus::Buffering => Some(
                        current_state(playback, &self.queue_ids),
                    ),
                    PlayerStatus::Paused | PlayerStatus::Stopped => None,
                };
                only(PlayerAction::RespondHeartbeat(state))
            },
            PlayerEvent::Connected => {
                self.connected = true;
                nothing()
            },
            PlayerEvent::Disconnected => {
                self.connected = false;
                nothing()
            },
            PlayerEvent::QueueState { tracks } => {
                self.push_ids(&tracks);
                only(PlayerAction::NewQueue { items: tracks, play: false })
            },
            PlayerEvent::QueueCleared => only(PlayerAction::ClearQueue),
            PlayerEvent::QueueLoadTracks { tracks, queue_position } => {
                self.queue_ids = Vec::new();
                self.push_ids(&tracks);
                assert(self.queue_ids@ =~= ids_of(tracks@));
                let mut actions = only(PlayerAction::NewQueue { items: tracks, play: false });
                let ghost before = action_models(actions@);
                let current: usize = playback.tracklist.current_position();
                if let Some(at) = queue_position {
                    if current != at as usize {
                        then_do(
                            &mut actions,
                            PlayerAction::SkipToPosition { index: at as usize, force: true },
                        );
                        assert(action_models(actions@) =~= before + seq![
                            PlayerActionModel::SkipToPosition { index: at as usize, force: true },
                        ]);
                        return actions;
                    }
                }
                assert(action_models(actions@) =~= before + Seq::<PlayerActionModel>::empty());
                actions
            },
            PlayerEvent::QueueTracksAdded { tracks } => {
                self.push_ids(&tracks);
                only(PlayerAction::AddTracksToQueue(track_ids(&tracks)))
            },
            PlayerEvent::QueueTracksInserted { tracks, insert_after } => match insert_after {
                Some(after) => {
                    let after: usize = after as usize;
                    self.insert_ids(&tracks, after);
                    only(
                        PlayerAction::InsertTracksToQueue {
                            tracks: track_ids(&tracks),
                            insert_after: after,
                        },
                    )
                },
                None => nothing(),
            },
            PlayerEvent::QueueTracksRemoved { queue_item_ids } => self.remove_ids(&queue_item_ids),
            PlayerEvent::QueueTracksReordered { queue_item_ids, insert_after } => self.reorder_ids(
                &queue_item_ids,
                insert_after,
            ),
            PlayerEvent::VolumeChanged { volume } => self.volume_asked(playback, volume),
            PlayerEvent::Ignored => nothing(),
        }
    }
}

/// The new order when the places from `start` up to `end` move to `to`, counted without them.
fn reordered_places(len: usize, start: usize, end: usize, to: usize) -> (r: Vec<usize>)
    requires
        start <= end <= len,
        to <= len - (end - start),
    ensures
        r@ == moved_order(len as int, start as int, end as int, to as int),
        forall|i: int| 0 <= i < r@.len() ==> #[trigger] r@[i] < len,
{
    let count: usize = end - start;
    let rest: usize = len - count;
    let mut order: Vec<usize> = Vec::new();
    let ghost wanted = moved_order(len as int, start as int, end as int, to as int);
    for i in 0..len
        invariant
            start <= end <= len,
            count == end - start,
            rest == len - count,
            to <= rest,
            wanted == moved_order(len as int, start as int, end as int, to as int),
            order@.len() == i,
            forall|j: int| 0 <= j < i ==> #[trigger] order@[j] == wanted[j] && order@[j] < len,
    {
        let place: usize = if i >= to && i - to < count {
            start + (i - to)
        } else {
            let k: usize = if i < to {
                i
            } else {
                i - count
            };
            if k < start {
                k
            } else {
                k + count
            }
        };
        order.push(place);
    }
    assert(order@ =~= wanted);
    order
}

/// A reordering of the session's queue moves items and loses none: every place occurs in the new
/// order, and no other.
pub proof fn law_a_reordering_is_a_permutation(len: int, start: int, end: int, to: int)
    requires
        0 <= start <= end <= len <= usize::MAX,
        0 <= to <= len - (end - start),
    ensures
        moved_order(len, start, end, to).len() == len,
        forall|i: int| 0 <= i < len ==> #[trigger] moved_order(len, start, end, to)[i] < len,
        forall|k: int|
            0 <= k < len ==> moved_order(len, start, end, to).contains(#[trigger] (k as usize)),
{
    let order = moved_order(len, start, end, to);
    let count = end - start;
    assert forall|k: int| 0 <= k < len implies order.contains(#[trigger] (k as usize)) by {
        let at = if start <= k < end {
            to + (k - start)
        } else {
            let r = if k < start {
                k
            } else {
                k - count
            };
            if r < to {
                r
            } else {
                r + count
            }
        };
        assert(order[at] == k as usize);
    }
}

} // verus!

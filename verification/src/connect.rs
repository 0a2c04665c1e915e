//! The player as a renderer of a shared session: what it does for each event of the session and
//! of its own playback.
//!
//! Spans of time and points in time are in nanoseconds.

use vstd::prelude::*;
use crate::connect_queue::{
    delta, delta_command, is_new, lemma_new_items_have_no_ids, load_command, CommandModel,
    ControllerCommand, LocalItem,
};
use crate::models::{AudioQuality, Status, Volume};
use crate::sequences::{
    first_match, lemma_first_match, lemma_first_match_is_first, lemma_no_match,
};
use crate::text::owned;
use crate::tracklist::{has_connect_id, playing, position_of_playing, QueueItem, Tracklist};

verus! {

/// The state is reported at most once in this time while a track plays on.
pub const REPORT_INTERVAL: u128 = 1_000_000_000;

/// A queue change that is not answered in this time counts as refused.
pub const ANSWER_TIMEOUT: u128 = 10_000_000_000;

/// The longest span of time.
pub const LONGEST: u128 = 18_446_744_073_709_551_615_999_999_999;

#[derive(Clone, Copy, Debug, PartialEq, Eq, Structural)]
pub enum PlayingState {
    Unknown,
    Stopped,
    Playing,
    Paused,
}

#[derive(Clone, Copy, Debug, PartialEq, Eq, Structural)]
pub enum BufferState {
    Unknown,
    Buffering,
    Ready,
    Error,
    Underrun,
}

/// A quality as the session names it.
#[derive(Clone, Copy, Debug, PartialEq, Eq, Structural)]
pub enum ConnectQuality {
    Unknown,
    Mp3,
    Cd,
    HiresLevel1,
    HiresLevel2,
    HiresLevel3,
}

#[derive(Clone, Copy, Debug, PartialEq, Eq, Structural)]
pub enum NetworkType {
    Unknown,
    Wifi,
    Cellular,
}

/// An item of the session's queue.
#[derive(Clone, Copy, Debug, PartialEq, Eq, Structural)]
pub struct QueueTrackRef {
    pub queue_item_id: i32,
    pub track_id: u32,
}

/// What a renderer does.
#[derive(Clone, Copy, Debug, PartialEq, Eq, Structural)]
pub struct PlayerState {
    pub playing: PlayingState,
    pub buffer: BufferState,
    pub position: u128,
    pub duration: u128,
    pub current_queue_item_id: Option<i32>,
    pub next_queue_item_id: Option<i32>,
}

/// What a renderer is.
#[derive(Clone, Copy, Debug, PartialEq, Eq, Structural)]
pub enum DeviceKind {
    Unknown,
    Speaker,
    Streamer,
    Tv,
    Soundbar,
    Computer,
    Mobile,
    Cast,
    Headphones,
    Tablet,
}

/// How a renderer presents itself.
#[derive(Debug, PartialEq)]
pub struct Device {
    pub uuid: [u8; 16],
    pub name: String,
    pub brand: String,
    pub model: String,
    pub kind: DeviceKind,
    pub max_audio_quality: ConnectQuality,
    pub volume_remote_control: bool,
    pub software_version: String,
}

impl Clone for Device {
    fn clone(&self) -> (r: Device)
        ensures
            r == *self,
    {
        Device {
            uuid: self.uuid,
            name: self.name.clone(),
            brand: self.brand.clone(),
            model: self.model.clone(),
            kind: self.kind,
            max_audio_quality: self.max_audio_quality,
            volume_remote_control: self.volume_remote_control,
            software_version: self.software_version.clone(),
        }
    }
}

/// A renderer as it is shown in the list of devices.
#[derive(Debug, PartialEq)]
pub struct ConnectDevice {
    pub id: i32,
    pub name: String,
    pub active: bool,
}

/// An item of a queue that the session sets.
#[derive(Clone, Copy, Debug, PartialEq, Eq, Structural)]
pub struct NewQueueItem {
    pub track_id: u32,
    pub connect_id: i32,
}

/// What the session asks of this renderer.
pub enum RendererCommand {
    SetState {
        playing: Option<PlayingState>,
        position: Option<u128>,
        current: Option<QueueTrackRef>,
    },
    SetVolume(u32),
    ChangeVolume(i32),
    Mute(bool),
    SetActive(bool),
    SetMaxAudioQuality(ConnectQuality),
    Other,
}

/// What the session says of its renderers.
#[allow(inconsistent_fields)]
pub enum RendererEvent {
    Added { id: i32, device: Device },
    Updated { id: i32, device: Device },
    Removed { id: i32 },
    ActiveChanged { id: Option<i32> },
    StateUpdated { id: i32, state: Option<PlayerState> },
    Volume { id: i32, volume: u32 },
    Other,
}

/// What the session says of its queue. `action` names the change that it answers, if any.
pub enum QueueEvent {
    State { tracks: Vec<QueueTrackRef>, action: Option<Vec<u8>> },
    Loaded { tracks: Vec<QueueTrackRef>, queue_position: u32, action: Option<Vec<u8>> },
    Cleared { action: Option<Vec<u8>> },
    LoopModeSet,
    Error { action: Option<Vec<u8>> },
    /// Any other change.
    Changed { action: Option<Vec<u8>> },
}

/// What the session says.
pub enum SessionEvent {
    Command(RendererCommand),
    Queue(QueueEvent),
    Registered { renderer_id: i32, device: Device },
    Session { active_renderer_id: Option<i32> },
    Renderer(RendererEvent),
    Disconnected,
    Reconnected,
    Other,
}

/// What is told to the session.
#[derive(Clone, Copy, Debug, PartialEq, Eq, Structural)]
pub enum RendererReport {
    State(PlayerState),
    Volume(u32),
    Muted(bool),
    MaxAudioQuality { quality: ConnectQuality, network: NetworkType },
}

/// What is to be done, by the player or towards the session.
pub enum ConnectAction {
    Play,
    Pause,
    Seek(u128),
    SkipToPosition { index: usize, force: bool },
    SetVolume(Volume),
    SetVolumePercent(u32),
    ChangeVolumePercent(i32),
    SetAudioMaxQuality(AudioQuality),
    NewQueue { items: Vec<NewQueueItem>, play: bool, start: Option<usize> },
    ReplaceQueue { items: Vec<NewQueueItem>, keep_unknown: bool },
    Report(RendererReport),
    Activate,
    /// The answer of the session is not awaited.
    Control(ControllerCommand),
    /// The session names the change; the name is handed to `control_sent`.
    ControlQueue(ControllerCommand),
    AskQueueState,
    AskRendererState(i32),
    /// The list of renderers has changed.
    Publish,
}

/// An action with its lists as sequences.
pub enum ActionModel {
    Play,
    Pause,
    Seek(u128),
    SkipToPosition { index: usize, force: bool },
    SetVolume(Volume),
    SetVolumePercent(u32),
    ChangeVolumePercent(i32),
    SetAudioMaxQuality(AudioQuality),
    NewQueue { items: Seq<NewQueueItem>, play: bool, start: Option<usize> },
    ReplaceQueue { items: Seq<NewQueueItem>, keep_unknown: bool },
    Report(RendererReport),
    Activate,
    Control(CommandModel),
    ControlQueue(CommandModel),
    AskQueueState,
    AskRendererState(i32),
    Publish,
}

impl View for ConnectAction {
    type V = ActionModel;

    open spec fn view(&self) -> ActionModel {
        match self {
            ConnectAction::Play => ActionModel::Play,
            ConnectAction::Pause => ActionModel::Pause,
            ConnectAction::Seek(to) => ActionModel::Seek(*to),
            ConnectAction::SkipToPosition { index, force } => ActionModel::SkipToPosition {
                index: *index,
                force: *force,
            },
            ConnectAction::SetVolume(volume) => ActionModel::SetVolume(*volume),
            ConnectAction::SetVolumePercent(percent) => ActionModel::SetVolumePercent(*percent),
            ConnectAction::ChangeVolumePercent(by) => ActionModel::ChangeVolumePercent(*by),
            ConnectAction::SetAudioMaxQuality(quality) => ActionModel::SetAudioMaxQuality(*quality),
            ConnectAction::NewQueue { items, play, start } => ActionModel::NewQueue {
                items: items@,
                play: *play,
                start: *start,
            },
            ConnectAction::ReplaceQueue { items, keep_unknown } => ActionModel::ReplaceQueue {
                items: items@,
                keep_unknown: *keep_unknown,
            },
            ConnectAction::Report(report) => ActionModel::Report(*report),
            ConnectAction::Activate => ActionModel::Activate,
            ConnectAction::Control(command) => ActionModel::Control(command@),
            ConnectAction::ControlQueue(command) => ActionModel::ControlQueue(command@),
            ConnectAction::AskQueueState => ActionModel::AskQueueState,
            ConnectAction::AskRendererState(id) => ActionModel::AskRendererState(*id),
            ConnectAction::Publish => ActionModel::Publish,
        }
    }
}

/// The actions as models.
pub open spec fn models(actions: Seq<ConnectAction>) -> Seq<ActionModel> {
    actions.map_values(|action: ConnectAction| action@)
}

/// No action.
fn nothing() -> (r: Vec<ConnectAction>)
    ensures
        models(r@) == Seq::<ActionModel>::empty(),
{
    let r: Vec<ConnectAction> = Vec::new();
    assert(models(r@) =~= Seq::<ActionModel>::empty());
    r
}

/// Adds an action.
fn then_do(actions: &mut Vec<ConnectAction>, action: ConnectAction)
    ensures
        models(final(actions)@) == models(old(actions)@).push(action@),
{
    let ghost before = models(actions@);
    actions.push(action);
    assert(models(actions@) =~= before.push(action@));
}

/// One action.
fn only(action: ConnectAction) -> (r: Vec<ConnectAction>)
    ensures
        models(r@) == seq![action@],
{
    let mut r = nothing();
    then_do(&mut r, action);
    assert(models(r@) =~= seq![action@]);
    r
}

/// Adds actions.
fn then_all(actions: &mut Vec<ConnectAction>, more: Vec<ConnectAction>)
    ensures
        models(final(actions)@) == models(old(actions)@) + models(more@),
{
    let ghost before = models(actions@);
    let ghost rest = models(more@);
    let mut more = more;
    actions.append(&mut more);
    assert(models(actions@) =~= before + rest);
}

/// What is known of the session.
#[derive(Clone, Copy, Debug, PartialEq, Eq)]
pub struct SessionView {
    /// This device is the active renderer.
    pub active: bool,
    /// The id that the session gave this device.
    pub renderer_id: Option<i32>,
}

/// What the player does. `volume_percent` is the volume, rounded to whole percent.
pub struct PlayerView<'a> {
    pub tracklist: &'a Tracklist,
    pub status: Status,
    pub position: u128,
    pub volume: Volume,
    pub volume_percent: u32,
}

/// A queue change that the session has not answered.
#[derive(Debug)]
pub struct Pending {
    pub action: Vec<u8>,
    pub since: u128,
}

/// A jump to an item that the local queue does not hold yet.
#[derive(Clone, Copy, Debug, PartialEq, Eq, Structural)]
pub struct Deferred {
    pub playing: Option<PlayingState>,
    pub position: Option<u128>,
    pub current: QueueTrackRef,
}

/// What another renderer last did, and when it said so.
#[derive(Clone, Copy, Debug, PartialEq, Eq, Structural)]
pub struct Remote {
    pub state: PlayerState,
    pub at: u128,
}

/// The state of the connection to a session.
pub struct Connect {
    pub max_audio_quality: ConnectQuality,
    pub connected: bool,
    pub muted: bool,
    pub volume_before_mute: Volume,
    pub reported_volume: Option<u32>,
    pub reported_state_at: u128,
    /// The session's queue: the id of each item and its track.
    pub session_queue: Option<Vec<(i32, u32)>>,
    pub pending: Option<Pending>,
    pub refused: bool,
    pub deferred: Option<Deferred>,
    pub renderers: Vec<ConnectDevice>,
    pub taking_over: bool,
    pub remote: Option<Remote>,
    pub played: Option<u64>,
}

pub fn connect_quality(quality: AudioQuality) -> (r: ConnectQuality)
    ensures
        r == match quality {
            AudioQuality::Mp3 => ConnectQuality::Mp3,
            AudioQuality::CD => ConnectQuality::Cd,
            AudioQuality::HIFI96 => ConnectQuality::HiresLevel1,
            AudioQuality::HIFI192 => ConnectQuality::HiresLevel2,
        },
{
    match quality {
        AudioQuality::Mp3 => ConnectQuality::Mp3,
        AudioQuality::CD => ConnectQuality::Cd,
        AudioQuality::HIFI96 => ConnectQuality::HiresLevel1,
        AudioQuality::HIFI192 => ConnectQuality::HiresLevel2,
    }
}

/// The quality that the player knows a session's quality as.
pub open spec fn quality_of(quality: ConnectQuality) -> Option<AudioQuality> {
    match quality {
        ConnectQuality::Mp3 => Some(AudioQuality::Mp3),
        ConnectQuality::Cd => Some(AudioQuality::CD),
        ConnectQuality::HiresLevel1 => Some(AudioQuality::HIFI96),
        ConnectQuality::HiresLevel2 | ConnectQuality::HiresLevel3 => Some(AudioQuality::HIFI192),
        ConnectQuality::Unknown => None,
    }
}

pub fn audio_quality(quality: ConnectQuality) -> (r: Option<AudioQuality>)
    ensures
        r == quality_of(quality),
{
    match quality {
        ConnectQuality::Mp3 => Some(AudioQuality::Mp3),
        ConnectQuality::Cd => Some(AudioQuality::CD),
        ConnectQuality::HiresLevel1 => Some(AudioQuality::HIFI96),
        ConnectQuality::HiresLevel2 | ConnectQuality::HiresLevel3 => Some(AudioQuality::HIFI192),
        ConnectQuality::Unknown => None,
    }
}

/// The name-based UUID, version five, of a text in the namespace of object identifiers.
pub uninterp spec fn uuid_v5_oid(name: Seq<char>) -> Seq<u8>;

/// `uuid::Uuid::new_v5` with `NAMESPACE_OID`, applied to the UTF-8 bytes of the name: the bytes
/// of the UUID. The hash that it is made from is not stated.
#[verifier::external_body]
fn named_uuid(name: &str) -> (r: [u8; 16])
    ensures
        r@ == uuid_v5_oid(name@),
{
    uuid::Uuid::new_v5(&uuid::Uuid::NAMESPACE_OID, name.as_bytes()).into_bytes()
}

/// This device, on the computer `host` and under the given name.
pub fn device(
    host: &str,
    name: String,
    max_audio_quality: AudioQuality,
    software_version: String,
) -> (r: Device)
    ensures
        r.uuid@ == uuid_v5_oid(host@ + "/"@ + name@),
        r.name == name,
        r.brand@ == "qobine"@,
        r.model@ == "qobine"@,
        r.kind == DeviceKind::Computer,
        quality_of(r.max_audio_quality) == Some(max_audio_quality),
        r.max_audio_quality != ConnectQuality::HiresLevel3,
        r.volume_remote_control,
        r.software_version == software_version,
{
    let uuid = named_uuid(owned(host).concat("/").concat(name.as_str()).as_str());
    Device {
        uuid,
        name,
        brand: owned("qobine"),
        model: owned("qobine"),
        kind: DeviceKind::Computer,
        max_audio_quality: connect_quality(max_audio_quality),
        volume_remote_control: true,
        software_version,
    }
}

/// The question about another active renderer, if there is one.
pub open spec fn remote_question(session: SessionView, active: Option<i32>) -> Seq<ActionModel> {
    match active {
        Some(id) => if session.renderer_id == Some(id) {
            Seq::empty()
        } else {
            seq![ActionModel::AskRendererState(id)]
        },
        None => Seq::empty(),
    }
}

/// Whether the session gave this device the id.
fn is_own(session: &SessionView, id: i32) -> (r: bool)
    ensures
        r == (session.renderer_id == Some(id)),
{
    match session.renderer_id {
        Some(own) => own == id,
        None => false,
    }
}

pub fn ask_remote_state(session: &SessionView, active: Option<i32>) -> (r: Vec<ConnectAction>)
    ensures
        models(r@) == remote_question(*session, active),
{
    match active {
        Some(id) => if is_own(session, id) {
            nothing()
        } else {
            only(ConnectAction::AskRendererState(id))
        },
        None => nothing(),
    }
}

/// Makes a renderer of the session the active one.
pub fn activate(session: &SessionView, id: i32) -> (r: Vec<ConnectAction>)
    ensures
        models(r@) == seq![
            if session.renderer_id == Some(id) {
                ActionModel::Activate
            } else {
                ActionModel::Control(CommandModel::SetActiveRenderer(id))
            },
        ],
{
    if is_own(session, id) {
        only(ConnectAction::Activate)
    } else {
        only(ConnectAction::Control(ControllerCommand::SetActiveRenderer(id)))
    }
}

/// A renderer has the id.
pub open spec fn has_id(id: i32) -> spec_fn(ConnectDevice) -> bool {
    |renderer: ConnectDevice| renderer.id == id
}

/// A renderer has another id.
pub open spec fn has_other_id(id: i32) -> spec_fn(ConnectDevice) -> bool {
    |renderer: ConnectDevice| renderer.id != id
}

/// The list with a renderer's name set, or with the renderer added at the end.
pub open spec fn with_renderer(renderers: Seq<ConnectDevice>, id: i32, name: String) -> Seq<
    ConnectDevice,
> {
    match first_match(renderers, has_id(id)) {
        Some(i) => renderers.update(i, ConnectDevice { name, ..renderers[i] }),
        None => renderers.push(ConnectDevice { id, name, active: false }),
    }
}

/// The list with the renderer `id` as the active one, and no other.
pub open spec fn with_active(renderers: Seq<ConnectDevice>, id: Option<i32>) -> Seq<ConnectDevice> {
    renderers.map_values(
        |renderer: ConnectDevice| ConnectDevice { active: Some(renderer.id) == id, ..renderer },
    )
}

/// The list after an event, where the event changes it.
pub open spec fn updated(renderers: Seq<ConnectDevice>, event: RendererEvent) -> Option<
    Seq<ConnectDevice>,
> {
    match event {
        RendererEvent::Added { id, device } => Some(with_renderer(renderers, id, device.name)),
        RendererEvent::Updated { id, device } => Some(with_renderer(renderers, id, device.name)),
        RendererEvent::Removed { id } => Some(renderers.filter(has_other_id(id))),
        RendererEvent::ActiveChanged { id } => Some(with_active(renderers, id)),
        _ => None,
    }
}

fn put_renderer(renderers: &mut Vec<ConnectDevice>, id: i32, name: String)
    ensures
        final(renderers)@ == with_renderer(old(renderers)@, id, name),
{
    let total: usize = renderers.len();
    let mut i: usize = 0;
    while i < total && renderers[i].id != id
        invariant
            i <= total,
            total == renderers@.len(),
            forall|j: int| 0 <= j < i ==> !has_id(id)(#[trigger] renderers@[j]),
        decreases total - i,
    {
        i += 1;
    }
    if i < total {
        proof {
            lemma_first_match(renderers@, has_id(id), i as int);
        }
        renderers[i].name = name;
    } else {
        proof {
            lemma_no_match(renderers@, has_id(id));
        }
        renderers.push(ConnectDevice { id, name, active: false });
    }
}

fn drop_renderer(renderers: &mut Vec<ConnectDevice>, id: i32)
    ensures
        final(renderers)@ == old(renderers)@.filter(has_other_id(id)),
{
    let total: usize = renderers.len();
    let mut kept: Vec<ConnectDevice> = Vec::new();
    for i in 0..total
        invariant
            total == renderers@.len(),
            renderers@ == old(renderers)@,
            kept@ == renderers@.take(i as int).filter(has_other_id(id)),
    {
        proof {
            reveal(Seq::filter);
            assert(renderers@.take(i + 1).drop_last() =~= renderers@.take(i as int));
        }
        let renderer = &renderers[i];
        if renderer.id != id {
            kept.push(
                ConnectDevice {
                    id: renderer.id,
                    name: renderer.name.clone(),
                    active: renderer.active,
                },
            );
        }
    }
    assert(renderers@.take(total as int) =~= renderers@);
    *renderers = kept;
}

pub fn set_active(renderers: &mut Vec<ConnectDevice>, id: Option<i32>)
    ensures
        final(renderers)@ == with_active(old(renderers)@, id),
{
    let total: usize = renderers.len();
    for i in 0..total
        invariant
            total == renderers@.len(),
            total == old(renderers)@.len(),
            forall|j: int|
                0 <= j < i ==> #[trigger] renderers@[j] == with_active(old(renderers)@, id)[j],
            forall|j: int| i <= j < total ==> #[trigger] renderers@[j] == old(renderers)@[j],
    {
        let active: bool = match id {
            Some(id) => renderers[i].id == id,
            None => false,
        };
        renderers[i].active = active;
    }
    assert(renderers@ =~= with_active(old(renderers)@, id));
}

/// Brings the list of renderers up to date. Returns whether the event changes it.
pub fn update(renderers: &mut Vec<ConnectDevice>, event: RendererEvent) -> (r: bool)
    ensures
        r == updated(old(renderers)@, event) is Some,
        final(renderers)@ == match updated(old(renderers)@, event) {
            Some(list) => list,
            None => old(renderers)@,
        },
{
    match event {
        RendererEvent::Added { id, device } => {
            put_renderer(renderers, id, device.name);
            true
        },
        RendererEvent::Updated { id, device } => {
            put_renderer(renderers, id, device.name);
            true
        },
        RendererEvent::Removed { id } => {
            drop_renderer(renderers, id);
            true
        },
        RendererEvent::ActiveChanged { id } => {
            set_active(renderers, id);
            true
        },
        _ => false,
    }
}

/// The queue items of a session's tracks.
pub open spec fn items_of(tracks: Seq<QueueTrackRef>) -> Seq<NewQueueItem> {
    tracks.map_values(
        |track: QueueTrackRef|
            NewQueueItem { track_id: track.track_id, connect_id: track.queue_item_id },
    )
}

/// The ids and tracks of a session's tracks.
pub open spec fn pairs_of(tracks: Seq<QueueTrackRef>) -> Seq<(i32, u32)> {
    tracks.map_values(|track: QueueTrackRef| (track.queue_item_id, track.track_id))
}

pub fn items(tracks: &[QueueTrackRef]) -> (r: Vec<NewQueueItem>)
    ensures
        r@ == items_of(tracks@),
{
    let mut r: Vec<NewQueueItem> = Vec::new();
    for i in 0..tracks.len()
        invariant
            r@.len() == i,
            forall|j: int| 0 <= j < i ==> #[trigger] r@[j] == items_of(tracks@)[j],
    {
        r.push(
            NewQueueItem { track_id: tracks[i].track_id, connect_id: tracks[i].queue_item_id },
        );
    }
    assert(r@ =~= items_of(tracks@));
    r
}

fn track_pairs(tracks: &[QueueTrackRef]) -> (r: Vec<(i32, u32)>)
    ensures
        r@ == pairs_of(tracks@),
{
    let mut r: Vec<(i32, u32)> = Vec::new();
    for i in 0..tracks.len()
        invariant
            r@.len() == i,
            forall|j: int| 0 <= j < i ==> #[trigger] r@[j] == pairs_of(tracks@)[j],
    {
        r.push((tracks[i].queue_item_id, tracks[i].track_id));
    }
    assert(r@ =~= pairs_of(tracks@));
    r
}

/// The session id of the item that plays.
pub open spec fn playing_connect_id(queue: Seq<QueueItem>) -> Option<i32> {
    match first_match(queue, playing()) {
        Some(i) => queue[i].connect_id,
        None => None,
    }
}

/// What a change of state asks of the player. The state names an item that the queue holds, or
/// none.
pub open spec fn state_change(
    playing_state: Option<PlayingState>,
    position: Option<u128>,
    jump: Option<int>,
) -> Seq<ActionModel> {
    let skip = match jump {
        Some(index) => seq![
            ActionModel::SkipToPosition { index: index as usize, force: true },
        ],
        None => Seq::empty(),
    };
    let seek = match position {
        Some(to) => if jump is Some && to == 0 {
            Seq::empty()
        } else {
            seq![ActionModel::Seek(to)]
        },
        None => Seq::empty(),
    };
    let play = match playing_state {
        Some(PlayingState::Playing) => seq![ActionModel::Play],
        Some(PlayingState::Paused) => seq![ActionModel::Pause],
        Some(PlayingState::Stopped) => seq![ActionModel::Pause],
        Some(PlayingState::Unknown) => Seq::empty(),
        None => if jump is Some {
            seq![ActionModel::Play]
        } else {
            Seq::empty()
        },
    };
    skip + seek + play
}

/// The item that a change of state names is in the session's queue but not in the local one.
pub open spec fn is_ahead(queue: Seq<QueueItem>, current: Option<QueueTrackRef>) -> bool {
    current matches Some(track) && track.queue_item_id >= 0 && playing_connect_id(queue) != Some(
        track.queue_item_id,
    ) && first_match(queue, has_connect_id(track.queue_item_id)) is None
}

/// What a change of state to an item of the local queue, or to none, asks of the player: a
/// negative item means stop, another item than the one that plays means a jump.
pub open spec fn set_state_actions(
    queue: Seq<QueueItem>,
    playing_state: Option<PlayingState>,
    position: Option<u128>,
    current: Option<QueueTrackRef>,
) -> Seq<ActionModel> {
    match current {
        Some(track) => if track.queue_item_id < 0 {
            seq![ActionModel::Pause]
        } else if playing_connect_id(queue) == Some(track.queue_item_id) {
            state_change(playing_state, position, None)
        } else {
            state_change(
                playing_state,
                position,
                first_match(queue, has_connect_id(track.queue_item_id)),
            )
        },
        None => state_change(playing_state, position, None),
    }
}

/// An item of the session's queue has the id.
pub open spec fn queue_holds(queue: Option<Vec<(i32, u32)>>, id: i32) -> bool {
    queue matches Some(items) && exists|k: int|
        0 <= k < items@.len() && (#[trigger] items@[k]).0 == id
}

/// The state of the player as the session sees it; none while it cannot be told.
pub open spec fn told_state(
    connected: bool,
    queue: Seq<QueueItem>,
    status: Status,
    position: u128,
) -> Option<PlayerState> {
    let current = first_match(queue, playing());
    if !connected || (current is Some && playing_connect_id(queue) is None) {
        None
    } else {
        Some(
            PlayerState {
                playing: if current is None {
                    PlayingState::Stopped
                } else if status == Status::Playing {
                    PlayingState::Playing
                } else {
                    PlayingState::Paused
                },
                buffer: if status == Status::Buffering {
                    BufferState::Buffering
                } else {
                    BufferState::Ready
                },
                position,
                duration: match current {
                    Some(i) => (queue[i].track.duration_seconds * 1_000_000_000) as u128,
                    None => 0,
                },
                current_queue_item_id: playing_connect_id(queue),
                next_queue_item_id: if position_of_playing(queue) + 1 < queue.len() {
                    queue[position_of_playing(queue) + 1].connect_id
                } else {
                    None
                },
            },
        )
    }
}

/// The report of the state, where one is due: this device is active and has a state to tell.
pub open spec fn state_report(active: bool, told: Option<PlayerState>) -> Seq<ActionModel> {
    match told {
        Some(state) => if active {
            seq![ActionModel::Report(RendererReport::State(state))]
        } else {
            Seq::empty()
        },
        None => Seq::empty(),
    }
}

/// Where another renderer is by now: a playing one has moved on since it said so.
pub open spec fn remote_position(remote: Remote, now: u128) -> u128 {
    if remote.state.playing == PlayingState::Playing && remote.state.buffer == BufferState::Ready {
        let elapsed = if now < remote.at {
            0
        } else {
            now - remote.at
        };
        if remote.state.position + elapsed > LONGEST {
            LONGEST
        } else {
            (remote.state.position + elapsed) as u128
        }
    } else {
        remote.state.position
    }
}

/// What it takes to go on where another renderer is: it played or paused an item that the local
/// queue holds.
pub open spec fn resume_actions(queue: Seq<QueueItem>, remote: Remote, now: u128) -> Seq<
    ActionModel,
> {
    match remote.state.current_queue_item_id {
        Some(id) => match first_match(queue, has_connect_id(id)) {
            Some(i) => if remote.state.playing == PlayingState::Playing || remote.state.playing
                == PlayingState::Paused {
                set_state_actions(
                    queue,
                    Some(remote.state.playing),
                    Some(remote_position(remote, now)),
                    Some(QueueTrackRef { queue_item_id: id, track_id: queue[i].track.id }),
                )
            } else {
                Seq::empty()
            },
            None => Seq::empty(),
        },
        None => Seq::empty(),
    }
}

/// The items of the local queue as the session compares them.
pub open spec fn local_items(queue: Seq<QueueItem>) -> Seq<LocalItem> {
    queue.map_values(|item: QueueItem| (item.queue_id, item.connect_id, item.track.id))
}

/// The event answers the change that is pending.
pub open spec fn answers(pending: Option<Pending>, action: Option<Vec<u8>>) -> bool {
    match (pending, action) {
        (Some(pending), Some(action)) => pending.action@ == action@,
        _ => false,
    }
}

/// What a command asks of the player and tells the session.
pub open spec fn command_actions(
    connect: Connect,
    session: SessionView,
    queue: Seq<QueueItem>,
    player: PlayerView,
    command: RendererCommand,
    now: u128,
) -> Seq<ActionModel> {
    match command {
        RendererCommand::SetState { playing, position, current } => if is_ahead(queue, current) {
            if queue_holds(connect.session_queue, current->0.queue_item_id) {
                Seq::empty()
            } else {
                seq![ActionModel::AskQueueState]
            }
        } else {
            set_state_actions(queue, playing, position, current)
        },
        RendererCommand::SetVolume(percent) => seq![ActionModel::SetVolumePercent(percent)],
        RendererCommand::ChangeVolume(by) => seq![ActionModel::ChangeVolumePercent(by)],
        RendererCommand::Mute(muted) => (if muted == connect.muted {
            Seq::empty()
        } else if muted {
            seq![ActionModel::SetVolume(Volume { bits: 0 })]
        } else {
            seq![ActionModel::SetVolume(connect.volume_before_mute)]
        }) + seq![ActionModel::Report(RendererReport::Muted(muted))],
        RendererCommand::SetActive(active) => if active {
            greeting(connect, player) + (match connect.remote {
                Some(remote) => resume_actions(queue, remote, now),
                None => Seq::empty(),
            }) + state_report(
                session.active,
                told_state(connect.connected, queue, player.status, player.position),
            )
        } else {
            seq![ActionModel::Pause]
        },
        RendererCommand::SetMaxAudioQuality(quality) => match quality_of(quality) {
            Some(known) => seq![
                ActionModel::SetAudioMaxQuality(known),
                ActionModel::Report(
                    RendererReport::MaxAudioQuality { quality, network: NetworkType::Wifi },
                ),
            ],
            None => Seq::empty(),
        },
        RendererCommand::Other => Seq::empty(),
    }
}

/// The state of the connection after a command.
pub open spec fn after_command(
    connect: Connect,
    session: SessionView,
    queue: Seq<QueueItem>,
    player: PlayerView,
    command: RendererCommand,
    now: u128,
) -> Connect {
    match command {
        RendererCommand::SetState { playing, position, current } => if is_ahead(queue, current) {
            Connect {
                deferred: Some(Deferred { playing, position, current: current->0 }),
                ..connect
            }
        } else {
            connect
        },
        RendererCommand::Mute(muted) => Connect {
            muted,
            volume_before_mute: if muted && !connect.muted {
                player.volume
            } else {
                connect.volume_before_mute
            },
            ..connect
        },
        RendererCommand::SetActive(active) => if active {
            Connect {
                taking_over: false,
                reported_volume: Some(player.volume_percent),
                remote: None,
                reported_state_at: if session.active && told_state(
                    connect.connected,
                    queue,
                    player.status,
                    player.position,
                ) is Some {
                    now
                } else {
                    connect.reported_state_at
                },
                ..connect
            }
        } else {
            connect
        },
        RendererCommand::SetMaxAudioQuality(quality) => if quality_of(quality) is Some {
            Connect { max_audio_quality: quality, ..connect }
        } else {
            connect
        },
        _ => connect,
    }
}

/// The queue change that is due: both sides are known and connected, none is pending, and the
/// queues differ.
pub open spec fn due_change(connect: Connect, queue: Seq<QueueItem>) -> Option<CommandModel> {
    match connect.session_queue {
        Some(known) => if connect.connected && connect.pending is None {
            delta_command(known@, local_items(queue), position_of_playing(queue))
        } else {
            None
        },
        None => None,
    }
}

/// A pending queue change was not answered in time.
pub open spec fn is_overdue(connect: Connect, now: u128) -> bool {
    connect.session_queue is Some && connect.connected && (connect.pending matches Some(pending)
        && now - pending.since >= ANSWER_TIMEOUT)
}

/// No item of the local queue is known to the session.
pub open spec fn all_new(queue: Seq<QueueItem>) -> bool {
    forall|i: int| 0 <= i < queue.len() ==> (#[trigger] queue[i]).connect_id is None
}

/// This device can take over as the active renderer.
pub open spec fn can_take_over(connect: Connect, session: SessionView) -> bool {
    !session.active && !connect.taking_over && session.renderer_id is Some
}

/// What mirroring a change of the local queue asks of the session.
pub open spec fn mirror_actions(
    connect: Connect,
    session: SessionView,
    queue: Seq<QueueItem>,
    now: u128,
) -> Seq<ActionModel> {
    if is_overdue(connect, now) {
        seq![ActionModel::AskQueueState]
    } else {
        match due_change(connect, queue) {
            Some(command) => (if all_new(queue) && can_take_over(connect, session) {
                seq![ActionModel::Activate]
            } else {
                Seq::empty()
            }) + seq![ActionModel::ControlQueue(command)],
            None => Seq::empty(),
        }
    }
}

/// The state of the connection after mirroring a change of the local queue.
pub open spec fn after_mirror(
    connect: Connect,
    session: SessionView,
    queue: Seq<QueueItem>,
    now: u128,
) -> Connect {
    if is_overdue(connect, now) {
        Connect { pending: None, refused: true, ..connect }
    } else if due_change(connect, queue) is Some && all_new(queue) && can_take_over(
        connect,
        session,
    ) {
        Connect { taking_over: true, remote: None, ..connect }
    } else {
        connect
    }
}

impl Connect {
    /// A connection to a session of which nothing is known yet.
    pub fn new(max_audio_quality: AudioQuality, full_volume: Volume, now: u128) -> (r: Self)
        ensures
            quality_of(r.max_audio_quality) == Some(max_audio_quality),
            r.max_audio_quality != ConnectQuality::HiresLevel3,
            r.connected,
            !r.muted,
            r.volume_before_mute == full_volume,
            r.reported_volume is None,
            r.reported_state_at == now,
            r.session_queue is None,
            r.pending is None,
            !r.refused,
            r.deferred is None,
            r.renderers@.len() == 0,
            !r.taking_over,
            r.remote is None,
            r.played is None,
    {
        Connect {
            max_audio_quality: connect_quality(max_audio_quality),
            connected: true,
            muted: false,
            volume_before_mute: full_volume,
            reported_volume: None,
            reported_state_at: now,
            session_queue: None,
            pending: None,
            refused: false,
            deferred: None,
            renderers: Vec::new(),
            taking_over: false,
            remote: None,
            played: None,
        }
    }

    fn set_state(
        &mut self,
        tracklist: &Tracklist,
        playing_state: Option<PlayingState>,
        position: Option<u128>,
        current: Option<QueueTrackRef>,
    ) -> (r: Vec<ConnectAction>)
        ensures
            if is_ahead(tracklist.items(), current) {
                &&& *final(self) == (Connect {
                    deferred: Some(
                        Deferred { playing: playing_state, position, current: current->0 },
                    ),
                    ..*old(self)
                })
                &&& models(r@) == if queue_holds(
                    old(self).session_queue,
                    current->0.queue_item_id,
                ) {
                    Seq::<ActionModel>::empty()
                } else {
                    seq![ActionModel::AskQueueState]
                }
            } else {
                &&& *final(self) == *old(self)
                &&& models(r@) == set_state_actions(
                    tracklist.items(),
                    playing_state,
                    position,
                    current,
                )
            },
    {
        let mut actions = nothing();
        let mut jump: bool = false;
        let ghost mut place: Option<int> = None;
        if let Some(track) = current {
            if track.queue_item_id < 0 {
                return only(ConnectAction::Pause);
            }
            let on_it: bool = match tracklist.current_connect_id() {
                Some(id) => id == track.queue_item_id,
                None => false,
            };
            if !on_it {
                match tracklist.position_of_connect_id(track.queue_item_id) {
                    Some(index) => {
                        then_do(&mut actions, ConnectAction::SkipToPosition { index, force: true });
                        jump = true;
                        proof {
                            place = Some(index as int);
                        }
                    },
                    None => {
                        return self.defer(playing_state, position, track);
                    },
                }
            }
        }
        if let Some(to) = position {
            if !(jump && to == 0) {
                then_do(&mut actions, ConnectAction::Seek(to));
            }
        }
        match playing_state {
            Some(PlayingState::Playing) => {
                then_do(&mut actions, ConnectAction::Play);
            },
            Some(PlayingState::Paused) => {
                then_do(&mut actions, ConnectAction::Pause);
            },
            Some(PlayingState::Stopped) => {
                then_do(&mut actions, ConnectAction::Pause);
            },
            Some(PlayingState::Unknown) => {},
            None => {
                if jump {
                    then_do(&mut actions, ConnectAction::Play);
                }
            },
        }
        assert(models(actions@) =~= state_change(playing_state, position, place));
        actions
    }

    /// Keeps a jump to an item the queue does not hold yet until the queue has caught up.
    fn defer(
        &mut self,
        playing_state: Option<PlayingState>,
        position: Option<u128>,
        current: QueueTrackRef,
    ) -> (r: Vec<ConnectAction>)
        ensures
            *final(self) == (Connect {
                deferred: Some(Deferred { playing: playing_state, position, current }),
                ..*old(self)
            }),
            models(r@) == if queue_holds(old(self).session_queue, current.queue_item_id) {
                Seq::<ActionModel>::empty()
            } else {
                seq![ActionModel::AskQueueState]
            },
    {
        let mut expected: bool = false;
        if let Some(queue) = &self.session_queue {
            for i in 0..queue.len()
                invariant
                    self.session_queue == Some(*queue),
                    expected == exists|k: int|
                        0 <= k < i && (#[trigger] queue@[k]).0 == current.queue_item_id,
            {
                if queue[i].0 == current.queue_item_id {
                    expected = true;
                }
            }
        }
        self.deferred = Some(Deferred { playing: playing_state, position, current });
        if expected {
            nothing()
        } else {
            only(ConnectAction::AskQueueState)
        }
    }

    /// Makes the jump that was kept, once the queue holds its item.
    pub fn apply_deferred(&mut self, tracklist: &Tracklist) -> (r: Vec<ConnectAction>)
        ensures
            match old(self).deferred {
                Some(deferred) => if first_match(
                    tracklist.items(),
                    has_connect_id(deferred.current.queue_item_id),
                ) is Some {
                    &&& *final(self) == (Connect { deferred: None, ..*old(self) })
                    &&& models(r@) == set_state_actions(
                        tracklist.items(),
                        deferred.playing,
                        deferred.position,
                        Some(deferred.current),
                    )
                } else {
                    &&& *final(self) == *old(self)
                    &&& models(r@) == Seq::<ActionModel>::empty()
                },
                None => {
                    &&& *final(self) == *old(self)
                    &&& models(r@) == Seq::<ActionModel>::empty()
                },
            },
    {
        match self.deferred {
            Some(deferred) => {
                if tracklist.position_of_connect_id(deferred.current.queue_item_id).is_some() {
                    self.deferred = None;
                    self.set_state(
                        tracklist,
                        deferred.playing,
                        deferred.position,
                        Some(deferred.current),
                    )
                } else {
                    nothing()
                }
            },
            None => nothing(),
        }
    }

    /// Takes the session's queue; the local tracks it does not know yet survive only once the
    /// session is known and no change of ours was refused.
    fn adopt(&mut self, tracks: &[QueueTrackRef]) -> (r: Vec<ConnectAction>)
        ensures
            final(self).session_queue matches Some(queue) && queue@ == pairs_of(tracks@),
            *final(self) == (Connect {
                session_queue: final(self).session_queue,
                pending: None,
                refused: false,
                remote: None,
                ..*old(self)
            }),
            models(r@) == seq![
                ActionModel::ReplaceQueue {
                    items: items_of(tracks@),
                    keep_unknown: old(self).session_queue is Some && !old(self).refused,
                },
            ],
    {
        let keep_unknown: bool = self.session_queue.is_some() && !self.refused;
        self.session_queue = Some(track_pairs(tracks));
        self.pending = None;
        self.refused = false;
        self.remote = None;
        only(ConnectAction::ReplaceQueue { items: items(tracks), keep_unknown })
    }

    /// Whether an event answers the change that is pending.
    fn is_own_change(&self, action: &Option<Vec<u8>>) -> (r: bool)
        ensures
            r == answers(self.pending, *action),
    {
        match (&self.pending, action) {
            (Some(pending), Some(action)) => same_bytes(&pending.action, action),
            _ => false,
        }
    }

    pub fn handle_queue(&mut self, session: &SessionView, queue: QueueEvent) -> (r: Vec<
        ConnectAction,
    >)
        ensures
            queue_handled(*old(self), *final(self), *session, queue, models(r@)),
    {
        match queue {
            QueueEvent::State { tracks, action } => self.adopt(tracks.as_slice()),
            QueueEvent::Cleared { action } => {
                let none: Vec<QueueTrackRef> = Vec::new();
                let actions = self.adopt(none.as_slice());
                assert(items_of(none@) =~= Seq::<NewQueueItem>::empty());
                actions
            },
            QueueEvent::Loaded { tracks, queue_position, action } => {
                if self.is_own_change(&action) {
                    only(ConnectAction::AskQueueState)
                } else {
                    self.session_queue = Some(track_pairs(tracks.as_slice()));
                    self.remote = None;
                    only(
                        ConnectAction::NewQueue {
                            items: items(tracks.as_slice()),
                            play: session.active,
                            start: Some(queue_position as usize),
                        },
                    )
                }
            },
            QueueEvent::LoopModeSet => nothing(),
            QueueEvent::Error { action } => {
                if self.is_own_change(&action) {
                    self.refused = true;
                }
                nothing()
            },
            QueueEvent::Changed { action } => only(ConnectAction::AskQueueState),
        }
    }

    /// The state of the player as the session sees it.
    pub fn player_state(&self, player: &PlayerView) -> (r: Option<PlayerState>)
        ensures
            r == told_state(
                self.connected,
                player.tracklist.items(),
                player.status,
                player.position,
            ),
    {
        if !self.connected {
            return None;
        }
        let current_id = player.tracklist.current_connect_id();
        let (stopped, seconds): (bool, u32) = match player.tracklist.current_track() {
            Some(track) => {
                if current_id.is_none() {
                    return None;
                }
                (false, track.duration_seconds)
            },
            None => (true, 0),
        };
        let playing_state = if stopped {
            PlayingState::Stopped
        } else {
            match player.status {
                Status::Playing => PlayingState::Playing,
                Status::Buffering | Status::Paused => PlayingState::Paused,
            }
        };
        let buffer = match player.status {
            Status::Buffering => BufferState::Buffering,
            _ => BufferState::Ready,
        };
        Some(
            PlayerState {
                playing: playing_state,
                buffer,
                position: player.position,
                duration: seconds as u128 * 1_000_000_000,
                current_queue_item_id: current_id,
                next_queue_item_id: player.tracklist.next_connect_id(),
            },
        )
    }

    pub fn report_state(&mut self, session: &SessionView, player: &PlayerView, now: u128) -> (r:
        Vec<ConnectAction>)
        ensures
            ({
                let told = told_state(
                    old(self).connected,
                    player.tracklist.items(),
                    player.status,
                    player.position,
                );
                &&& models(r@) == state_report(session.active, told)
                &&& *final(self) == (Connect {
                    reported_state_at: if session.active && told is Some {
                        now
                    } else {
                        old(self).reported_state_at
                    },
                    ..*old(self)
                })
            }),
    {
        if !session.active {
            return nothing();
        }
        match self.player_state(player) {
            Some(state) => {
                self.reported_state_at = now;
                only(ConnectAction::Report(RendererReport::State(state)))
            },
            None => nothing(),
        }
    }

    /// Goes on where another renderer is.
    fn resume(&mut self, tracklist: &Tracklist, remote: Remote, now: u128) -> (r: Vec<
        ConnectAction,
    >)
        ensures
            *final(self) == *old(self),
            models(r@) == resume_actions(tracklist.items(), remote, now),
    {
        let state = remote.state;
        let id: i32 = match state.current_queue_item_id {
            Some(id) => id,
            None => return nothing(),
        };
        match state.playing {
            PlayingState::Playing => {},
            PlayingState::Paused => {},
            _ => return nothing(),
        }
        let track_id: u32 = match tracklist.position_of_connect_id(id) {
            Some(index) => {
                proof {
                    lemma_first_match_is_first(tracklist.items(), has_connect_id(id));
                }
                let queue = tracklist.queue();
                queue[index].track.id
            },
            None => return nothing(),
        };
        let position: u128 = if state.playing == PlayingState::Playing && state.buffer
            == BufferState::Ready {
            let elapsed: u128 = now.saturating_sub(remote.at);
            if state.position > LONGEST || elapsed > LONGEST - state.position {
                LONGEST
            } else {
                state.position + elapsed
            }
        } else {
            state.position
        };
        let current = QueueTrackRef { queue_item_id: id, track_id };
        self.set_state(tracklist, Some(state.playing), Some(position), Some(current))
    }

    /// Makes this device the active renderer, unless it is, is about to be or cannot be.
    pub fn take_over(&mut self, session: &SessionView) -> (r: Vec<ConnectAction>)
        ensures
            if session.active || old(self).taking_over || session.renderer_id is None {
                &&& *final(self) == *old(self)
                &&& models(r@) == Seq::<ActionModel>::empty()
            } else {
                &&& *final(self) == (Connect { taking_over: true, remote: None, ..*old(self) })
                &&& models(r@) == seq![ActionModel::Activate]
            },
    {
        if session.active || self.taking_over || session.renderer_id.is_none() {
            return nothing();
        }
        self.taking_over = true;
        self.remote = None;
        only(ConnectAction::Activate)
    }

    pub fn report_volume(&mut self, session: &SessionView, player: &PlayerView) -> (r: Vec<
        ConnectAction,
    >)
        ensures
            if !session.active || old(self).muted || old(self).reported_volume == Some(
                player.volume_percent,
            ) {
                &&& *final(self) == *old(self)
                &&& models(r@) == Seq::<ActionModel>::empty()
            } else {
                &&& *final(self) == (Connect {
                    reported_volume: Some(player.volume_percent),
                    ..*old(self)
                })
                &&& models(r@) == seq![
                    ActionModel::Report(RendererReport::Volume(player.volume_percent)),
                ]
            },
    {
        let same: bool = match self.reported_volume {
            Some(volume) => volume == player.volume_percent,
            None => false,
        };
        if !session.active || self.muted || same {
            return nothing();
        }
        self.reported_volume = Some(player.volume_percent);
        only(ConnectAction::Report(RendererReport::Volume(player.volume_percent)))
    }
}

/// The reports of a renderer that has become active.
pub open spec fn greeting(connect: Connect, player: PlayerView) -> Seq<ActionModel> {
    seq![
        ActionModel::Report(RendererReport::Volume(player.volume_percent)),
        ActionModel::Report(RendererReport::Muted(connect.muted)),
        ActionModel::Report(
            RendererReport::MaxAudioQuality {
                quality: connect.max_audio_quality,
                network: NetworkType::Wifi,
            },
        ),
    ]
}

impl Connect {
    /// Mutes the player or restores its volume.
    fn mute(&mut self, player: &PlayerView, muted: bool) -> (r: Vec<ConnectAction>)
        ensures
            models(r@) == (if muted == old(self).muted {
                Seq::empty()
            } else if muted {
                seq![ActionModel::SetVolume(Volume { bits: 0 })]
            } else {
                seq![ActionModel::SetVolume(old(self).volume_before_mute)]
            }) + seq![ActionModel::Report(RendererReport::Muted(muted))],
            *final(self) == (Connect {
                muted,
                volume_before_mute: if muted && !old(self).muted {
                    player.volume
                } else {
                    old(self).volume_before_mute
                },
                ..*old(self)
            }),
    {
        let mut actions = nothing();
        if muted != self.muted {
            if muted {
                self.volume_before_mute = player.volume;
                actions = only(ConnectAction::SetVolume(Volume { bits: 0 }));
            } else {
                actions = only(ConnectAction::SetVolume(self.volume_before_mute));
            }
            self.muted = muted;
        }
        let ghost before = models(actions@);
        then_do(&mut actions, ConnectAction::Report(RendererReport::Muted(muted)));
        assert(models(actions@) =~= before + seq![
            ActionModel::Report(RendererReport::Muted(muted)),
        ]);
        actions
    }

    /// Reports everything as the active renderer and goes on where the previous one is.
    fn become_active(&mut self, session: &SessionView, player: &PlayerView, now: u128) -> (r: Vec<
        ConnectAction,
    >)
        ensures
            models(r@) == greeting(*old(self), *player) + (match old(self).remote {
                Some(remote) => resume_actions(player.tracklist.items(), remote, now),
                None => Seq::empty(),
            }) + state_report(
                session.active,
                told_state(
                    old(self).connected,
                    player.tracklist.items(),
                    player.status,
                    player.position,
                ),
            ),
            *final(self) == (Connect {
                taking_over: false,
                reported_volume: Some(player.volume_percent),
                remote: None,
                reported_state_at: if session.active && told_state(
                    old(self).connected,
                    player.tracklist.items(),
                    player.status,
                    player.position,
                ) is Some {
                    now
                } else {
                    old(self).reported_state_at
                },
                ..*old(self)
            }),
    {
        self.taking_over = false;
        self.reported_volume = Some(player.volume_percent);
        let mut actions = nothing();
        then_do(
            &mut actions,
            ConnectAction::Report(RendererReport::Volume(player.volume_percent)),
        );
        then_do(&mut actions, ConnectAction::Report(RendererReport::Muted(self.muted)));
        then_do(
            &mut actions,
            ConnectAction::Report(
                RendererReport::MaxAudioQuality {
                    quality: self.max_audio_quality,
                    network: NetworkType::Wifi,
                },
            ),
        );
        assert(models(actions@) =~= greeting(*old(self), *player));
        match self.remote {
            Some(remote) => {
                self.remote = None;
                then_all(&mut actions, self.resume(player.tracklist, remote, now));
            },
            None => {
                assert(models(actions@) =~= greeting(*old(self), *player)
                    + Seq::<ActionModel>::empty());
            },
        }
        then_all(&mut actions, self.report_state(session, player, now));
        actions
    }

    pub fn handle_command(
        &mut self,
        session: &SessionView,
        player: &PlayerView,
        command: RendererCommand,
        now: u128,
    ) -> (r: Vec<ConnectAction>)
        ensures
            models(r@) == command_actions(
                *old(self),
                *session,
                player.tracklist.items(),
                *player,
                command,
                now,
            ),
            *final(self) == after_command(
                *old(self),
                *session,
                player.tracklist.items(),
                *player,
                command,
                now,
            ),
    {
        match command {
            RendererCommand::SetState { playing, position, current } => self.set_state(
                player.tracklist,
                playing,
                position,
                current,
            ),
            RendererCommand::SetVolume(percent) => only(ConnectAction::SetVolumePercent(percent)),
            RendererCommand::ChangeVolume(by) => only(ConnectAction::ChangeVolumePercent(by)),
            RendererCommand::Mute(muted) => self.mute(player, muted),
            RendererCommand::SetActive(active) => if active {
                self.become_active(session, player, now)
            } else {
                only(ConnectAction::Pause)
            },
            RendererCommand::SetMaxAudioQuality(quality) => match audio_quality(quality) {
                Some(known) => {
                    self.max_audio_quality = quality;
                    let mut actions = only(ConnectAction::SetAudioMaxQuality(known));
                    then_do(
                        &mut actions,
                        ConnectAction::Report(
                            RendererReport::MaxAudioQuality { quality, network: NetworkType::Wifi },
                        ),
                    );
                    assert(models(actions@) =~= command_actions(
                        *old(self),
                        *session,
                        player.tracklist.items(),
                        *player,
                        command,
                        now,
                    ));
                    actions
                },
                None => nothing(),
            },
            RendererCommand::Other => nothing(),
        }
    }

    /// Asks the session to make the change of the local queue that it lacks.
    pub fn mirror(&mut self, session: &SessionView, tracklist: &Tracklist, now: u128) -> (r: Vec<
        ConnectAction,
    >)
        ensures
            models(r@) == mirror_actions(*old(self), *session, tracklist.items(), now),
            *final(self) == after_mirror(*old(self), *session, tracklist.items(), now),
    {
        if self.session_queue.is_none() || !self.connected {
            return nothing();
        }
        if let Some(pending) = &self.pending {
            if now.saturating_sub(pending.since) < ANSWER_TIMEOUT {
                return nothing();
            }
            self.pending = None;
            self.refused = true;
            return only(ConnectAction::AskQueueState);
        }
        let queue = tracklist.queue();
        let mut local: Vec<LocalItem> = Vec::new();
        let mut fresh: bool = true;
        for i in 0..queue.len()
            invariant
                queue@.len() == tracklist.items().len(),
                forall|j: int| 0 <= j < queue@.len() ==> *#[trigger] queue@[j] == tracklist.items()[j],
                local@.len() == i,
                forall|j: int|
                    0 <= j < i ==> #[trigger] local@[j] == local_items(tracklist.items())[j],
                fresh == forall|j: int|
                    0 <= j < i ==> (#[trigger] tracklist.items()[j]).connect_id is None,
        {
            let item = queue[i];
            local.push((item.queue_id, item.connect_id, item.track.id));
            if item.connect_id.is_some() {
                fresh = false;
                assert(tracklist.items()[i as int].connect_id is Some);
            }
        }
        assert(local@ =~= local_items(tracklist.items()));
        assert(fresh == all_new(tracklist.items()));
        let current: usize = tracklist.current_position();
        let command = match &self.session_queue {
            Some(known) => delta(known.as_slice(), local.as_slice(), current),
            None => None,
        };
        match command {
            Some(command) => {
                let mut actions = nothing();
                if fresh {
                    actions = self.take_over(session);
                }
                then_do(&mut actions, ConnectAction::ControlQueue(command));
                assert(models(actions@) =~= mirror_actions(
                    *old(self),
                    *session,
                    tracklist.items(),
                    now,
                ));
                actions
            },
            None => nothing(),
        }
    }

    /// Takes the name that the session gave a queue change.
    pub fn control_sent(&mut self, action: Option<Vec<u8>>, now: u128)
        ensures
            *final(self) == (Connect {
                pending: match action {
                    Some(action) => Some(Pending { action, since: now }),
                    None => old(self).pending,
                },
                ..*old(self)
            }),
    {
        if let Some(action) = action {
            self.pending = Some(Pending { action, since: now });
        }
    }

    /// What an event of the session asks for.
    pub fn handle_event(
        &mut self,
        session: &SessionView,
        player: &PlayerView,
        event: SessionEvent,
        now: u128,
    ) -> (r: Vec<ConnectAction>)
        ensures
            match event {
                SessionEvent::Command(command) => {
                    &&& models(r@) == command_actions(
                        *old(self),
                        *session,
                        player.tracklist.items(),
                        *player,
                        command,
                        now,
                    )
                    &&& *final(self) == after_command(
                        *old(self),
                        *session,
                        player.tracklist.items(),
                        *player,
                        command,
                        now,
                    )
                },
                SessionEvent::Queue(queue) => queue_handled(
                    *old(self),
                    *final(self),
                    *session,
                    queue,
                    models(r@),
                ),
                SessionEvent::Registered { renderer_id, device } => {
                    &&& final(self).renderers@ == with_renderer(
                        old(self).renderers@,
                        renderer_id,
                        device.name,
                    )
                    &&& *final(self) == (Connect {
                        renderers: final(self).renderers,
                        ..*old(self)
                    })
                    &&& models(r@) == seq![ActionModel::Publish]
                },
                SessionEvent::Session { active_renderer_id } => {
                    &&& final(self).renderers@ == with_active(
                        old(self).renderers@,
                        active_renderer_id,
                    )
                    &&& *final(self) == (Connect {
                        renderers: final(self).renderers,
                        ..*old(self)
                    })
                    &&& models(r@) == seq![ActionModel::Publish] + remote_question(
                        *session,
                        active_renderer_id,
                    )
                },
                SessionEvent::Renderer(event) => {
                    &&& final(self).renderers@ == (match updated(old(self).renderers@, event) {
                        Some(list) => list,
                        None => old(self).renderers@,
                    })
                    &&& *final(self) == (Connect {
                        renderers: final(self).renderers,
                        taking_over: old(self).taking_over && event !is ActiveChanged,
                        remote: match event {
                            RendererEvent::StateUpdated { id, state: Some(state) } => if
                            session.renderer_id == Some(id) {
                                old(self).remote
                            } else {
                                Some(Remote { state, at: now })
                            },
                            _ => old(self).remote,
                        },
                        ..*old(self)
                    })
                    &&& models(r@) == (match event {
                        RendererEvent::ActiveChanged { id } => remote_question(*session, id),
                        _ => Seq::empty(),
                    }) + (if updated(old(self).renderers@, event) is Some {
                        seq![ActionModel::Publish]
                    } else {
                        Seq::empty()
                    })
                },
                SessionEvent::Disconnected => {
                    &&& *final(self) == (Connect { connected: false, ..*old(self) })
                    &&& models(r@) == Seq::<ActionModel>::empty()
                },
                SessionEvent::Reconnected => {
                    &&& final(self).renderers@.len() == 0
                    &&& *final(self) == (Connect {
                        connected: true,
                        pending: None,
                        taking_over: false,
                        renderers: final(self).renderers,
                        ..*old(self)
                    })
                    &&& models(r@) == seq![ActionModel::Publish]
                },
                SessionEvent::Other => {
                    &&& *final(self) == *old(self)
                    &&& models(r@) == Seq::<ActionModel>::empty()
                },
            },
    {
        match event {
            SessionEvent::Command(command) => self.handle_command(session, player, command, now),
            SessionEvent::Queue(queue) => self.handle_queue(session, queue),
            SessionEvent::Registered { renderer_id, device } => {
                put_renderer(&mut self.renderers, renderer_id, device.name);
                only(ConnectAction::Publish)
            },
            SessionEvent::Session { active_renderer_id } => {
                set_active(&mut self.renderers, active_renderer_id);
                let mut actions = only(ConnectAction::Publish);
                then_all(&mut actions, ask_remote_state(session, active_renderer_id));
                actions
            },
            SessionEvent::Renderer(event) => {
                let mut actions = nothing();
                match &event {
                    RendererEvent::StateUpdated { id, state } => {
                        if let Some(state) = state {
                            if !is_own(session, *id) {
                                self.remote = Some(Remote { state: *state, at: now });
                            }
                        }
                    },
                    RendererEvent::ActiveChanged { id } => {
                        self.taking_over = false;
                        actions = ask_remote_state(session, *id);
                    },
                    _ => {},
                }
                let ghost asked = models(actions@);
                if update(&mut self.renderers, event) {
                    then_do(&mut actions, ConnectAction::Publish);
                    assert(models(actions@) =~= asked + seq![ActionModel::Publish]);
                } else {
                    assert(models(actions@) =~= asked + Seq::<ActionModel>::empty());
                }
                actions
            },
            SessionEvent::Disconnected => {
                self.connected = false;
                nothing()
            },
            SessionEvent::Reconnected => {
                self.connected = true;
                self.pending = None;
                self.taking_over = false;
                self.renderers = Vec::new();
                only(ConnectAction::Publish)
            },
            SessionEvent::Other => nothing(),
        }
    }

    /// The position of the player has changed.
    pub fn position_changed(&mut self, session: &SessionView, player: &PlayerView, now: u128) -> (r:
        Vec<ConnectAction>)
        ensures
            ({
                let told = told_state(
                    old(self).connected,
                    player.tracklist.items(),
                    player.status,
                    player.position,
                );
                let due = now - old(self).reported_state_at >= REPORT_INTERVAL;
                &&& models(r@) == (if due {
                    state_report(session.active, told)
                } else {
                    Seq::empty()
                })
                &&& *final(self) == (Connect {
                    reported_state_at: if due && session.active && told is Some {
                        now
                    } else {
                        old(self).reported_state_at
                    },
                    ..*old(self)
                })
            }),
    {
        if now.saturating_sub(self.reported_state_at) >= REPORT_INTERVAL {
            self.report_state(session, player, now)
        } else {
            nothing()
        }
    }

    /// The player has started, paused or is waiting for data. A track that starts takes over.
    pub fn status_changed(&mut self, session: &SessionView, player: &PlayerView, now: u128) -> (r:
        Vec<ConnectAction>)
        ensures
            ({
                let told = told_state(
                    old(self).connected,
                    player.tracklist.items(),
                    player.status,
                    player.position,
                );
                let starts = player.status == Status::Playing && old(self).played
                    != player.tracklist.playing_id();
                let takes = starts && can_take_over(*old(self), *session);
                &&& models(r@) == state_report(session.active, told) + (if takes {
                    seq![ActionModel::Activate]
                } else {
                    Seq::empty()
                })
                &&& *final(self) == (Connect {
                    reported_state_at: if session.active && told is Some {
                        now
                    } else {
                        old(self).reported_state_at
                    },
                    played: if starts {
                        player.tracklist.playing_id()
                    } else {
                        old(self).played
                    },
                    taking_over: old(self).taking_over || takes,
                    remote: if takes {
                        None
                    } else {
                        old(self).remote
                    },
                    ..*old(self)
                })
            }),
    {
        let mut actions = self.report_state(session, player, now);
        let ghost reported = models(actions@);
        let current = player.tracklist.current_queue_id();
        let same: bool = match (self.played, current) {
            (Some(a), Some(b)) => a == b,
            (None, None) => true,
            _ => false,
        };
        if player.status == Status::Playing && !same {
            self.played = current;
            then_all(&mut actions, self.take_over(session));
        } else {
            assert(models(actions@) =~= reported + Seq::<ActionModel>::empty());
        }
        actions
    }

    /// The local queue has changed: the state is reported, the change is mirrored, and a jump
    /// that waited for it is made.
    pub fn tracklist_changed(&mut self, session: &SessionView, player: &PlayerView, now: u128) -> (
    r: Vec<ConnectAction>)
        ensures
            ({
                let queue = player.tracklist.items();
                let told = told_state(old(self).connected, queue, player.status, player.position);
                let reported = Connect {
                    reported_state_at: if session.active && told is Some {
                        now
                    } else {
                        old(self).reported_state_at
                    },
                    ..*old(self)
                };
                let mirrored = after_mirror(reported, *session, queue, now);
                let arrived = mirrored.deferred matches Some(deferred) && first_match(
                    queue,
                    has_connect_id(deferred.current.queue_item_id),
                ) is Some;
                &&& models(r@) == state_report(session.active, told) + mirror_actions(
                    reported,
                    *session,
                    queue,
                    now,
                ) + (if arrived {
                    set_state_actions(
                        queue,
                        mirrored.deferred->0.playing,
                        mirrored.deferred->0.position,
                        Some(mirrored.deferred->0.current),
                    )
                } else {
                    Seq::empty()
                })
                &&& *final(self) == (Connect {
                    deferred: if arrived {
                        None
                    } else {
                        mirrored.deferred
                    },
                    ..mirrored
                })
            }),
    {
        let mut actions = self.report_state(session, player, now);
        then_all(&mut actions, self.mirror(session, player.tracklist, now));
        then_all(&mut actions, self.apply_deferred(player.tracklist));
        actions
    }
}

/// A queue event was handled: the state before and after it, and what it asked for.
pub open spec fn queue_handled(
    before: Connect,
    after: Connect,
    session: SessionView,
    queue: QueueEvent,
    actions: Seq<ActionModel>,
) -> bool {
    let keep_unknown = before.session_queue is Some && !before.refused;
    match queue {
        QueueEvent::State { tracks, action } => {
            &&& after.session_queue matches Some(known) && known@ == pairs_of(tracks@)
            &&& after == (Connect {
                session_queue: after.session_queue,
                pending: None,
                refused: false,
                remote: None,
                ..before
            })
            &&& actions == seq![
                ActionModel::ReplaceQueue { items: items_of(tracks@), keep_unknown },
            ]
        },
        QueueEvent::Cleared { action } => {
            &&& after.session_queue matches Some(known) && known@.len() == 0
            &&& after == (Connect {
                session_queue: after.session_queue,
                pending: None,
                refused: false,
                remote: None,
                ..before
            })
            &&& actions == seq![
                ActionModel::ReplaceQueue { items: Seq::<NewQueueItem>::empty(), keep_unknown },
            ]
        },
        QueueEvent::Loaded { tracks, queue_position, action } => if answers(
            before.pending,
            action,
        ) {
            &&& after == before
            &&& actions == seq![ActionModel::AskQueueState]
        } else {
            &&& after.session_queue matches Some(known) && known@ == pairs_of(tracks@)
            &&& after == (Connect {
                session_queue: after.session_queue,
                remote: None,
                ..before
            })
            &&& actions == seq![
                ActionModel::NewQueue {
                    items: items_of(tracks@),
                    play: session.active,
                    start: Some(queue_position as usize),
                },
            ]
        },
        QueueEvent::LoopModeSet => after == before && actions == Seq::<ActionModel>::empty(),
        QueueEvent::Error { action } => {
            &&& after == (Connect {
                refused: before.refused || answers(before.pending, action),
                ..before
            })
            &&& actions == Seq::<ActionModel>::empty()
        },
        QueueEvent::Changed { action } => after == before && actions == seq![
            ActionModel::AskQueueState,
        ],
    }
}

/// Whether the bytes are equal.
fn same_bytes(a: &Vec<u8>, b: &Vec<u8>) -> (r: bool)
    ensures
        r == (a@ == b@),
{
    if a.len() != b.len() {
        return false;
    }
    for i in 0..a.len()
        invariant
            a@.len() == b@.len(),
            forall|j: int| 0 <= j < i ==> a@[j] == b@[j],
    {
        if a[i] != b[i] {
            return false;
        }
    }
    assert(a@ =~= b@);
    true
}

/// Unmuting restores the volume that muting found.
pub proof fn law_unmuting_restores_the_volume(
    connect: Connect,
    session: SessionView,
    queue: Seq<QueueItem>,
    before: PlayerView,
    after: PlayerView,
    muted_at: u128,
    unmuted_at: u128,
)
    requires
        !connect.muted,
    ensures
        ({
            let muted = after_command(
                connect,
                session,
                queue,
                before,
                RendererCommand::Mute(true),
                muted_at,
            );
            command_actions(
                muted,
                session,
                queue,
                after,
                RendererCommand::Mute(false),
                unmuted_at,
            ) == seq![
                ActionModel::SetVolume(before.volume),
                ActionModel::Report(RendererReport::Muted(false)),
            ]
        }),
{
    let muted = after_command(
        connect,
        session,
        queue,
        before,
        RendererCommand::Mute(true),
        muted_at,
    );
    assert(command_actions(
        muted,
        session,
        queue,
        after,
        RendererCommand::Mute(false),
        unmuted_at,
    ) =~= seq![
        ActionModel::SetVolume(before.volume),
        ActionModel::Report(RendererReport::Muted(false)),
    ]);
}

/// While a queue change is unanswered and not overdue, no other is asked for.
pub proof fn law_one_queue_change_at_a_time(
    connect: Connect,
    session: SessionView,
    queue: Seq<QueueItem>,
    now: u128,
)
    requires
        connect.pending is Some,
        !is_overdue(connect, now),
    ensures
        mirror_actions(connect, session, queue, now) == Seq::<ActionModel>::empty(),
        after_mirror(connect, session, queue, now) == connect,
{
}

/// Starting a new queue makes this device the active one: a queue of which the session knows no
/// item is loaded into the session, and playback moves here.
pub proof fn law_a_new_queue_takes_over(
    connect: Connect,
    session: SessionView,
    queue: Seq<QueueItem>,
    now: u128,
)
    requires
        connect.connected,
        connect.session_queue is Some,
        connect.pending is None,
        can_take_over(connect, session),
        queue.len() > 0,
        all_new(queue),
    ensures
        mirror_actions(connect, session, queue, now) == seq![
            ActionModel::Activate,
            ActionModel::ControlQueue(load_command(local_items(queue), position_of_playing(queue))),
        ],
        after_mirror(connect, session, queue, now).taking_over,
{
    let local = local_items(queue);
    assert forall|j: int| 0 <= j < local.len() implies is_new()(#[trigger] local[j]) by {
        assert(queue[j].connect_id is None);
    }
    lemma_new_items_have_no_ids(local);
    assert(due_change(connect, queue) == Some(load_command(local, position_of_playing(queue))));
    assert(mirror_actions(connect, session, queue, now) =~= seq![
        ActionModel::Activate,
        ActionModel::ControlQueue(load_command(local, position_of_playing(queue))),
    ]);
}

/// No two renderers of the list have the same id.
pub open spec fn ids_differ(renderers: Seq<ConnectDevice>) -> bool {
    forall|i: int, j: int|
        0 <= i < j < renderers.len() ==> (#[trigger] renderers[i]).id
            != (#[trigger] renderers[j]).id
}

proof fn lemma_fewer_ids_differ(renderers: Seq<ConnectDevice>, id: i32)
    requires
        ids_differ(renderers),
    ensures
        ids_differ(renderers.filter(has_other_id(id))),
    decreases renderers.len(),
{
    reveal(Seq::filter);
    if renderers.len() > 0 {
        let rest = renderers.drop_last();
        lemma_fewer_ids_differ(rest, id);
        let kept = rest.filter(has_other_id(id));
        assert forall|i: int| 0 <= i < kept.len() implies (#[trigger] kept[i]).id
            != renderers.last().id by {
            assert(kept.contains(kept[i]));
            rest.lemma_filter_contains_rev(has_other_id(id), kept[i]);
            let k = choose|k: int| 0 <= k < rest.len() && rest[k] == kept[i];
            assert(renderers[k].id != renderers[renderers.len() - 1].id);
        }
    }
}

/// Whatever the session says of its renderers, the list holds each of them once.
pub proof fn law_every_renderer_is_listed_once(
    renderers: Seq<ConnectDevice>,
    event: RendererEvent,
)
    requires
        ids_differ(renderers),
    ensures
        updated(renderers, event) matches Some(list) ==> ids_differ(list),
{
    match event {
        RendererEvent::Added { id, device } => {
            lemma_named_ids_differ(renderers, id, device.name);
        },
        RendererEvent::Updated { id, device } => {
            lemma_named_ids_differ(renderers, id, device.name);
        },
        RendererEvent::Removed { id } => {
            lemma_fewer_ids_differ(renderers, id);
        },
        RendererEvent::ActiveChanged { id } => {
            let list = with_active(renderers, id);
            assert forall|i: int, j: int| 0 <= i < j < list.len() implies (#[trigger] list[i]).id
                != (#[trigger] list[j]).id by {
                assert(renderers[i].id != renderers[j].id);
            }
        },
        _ => {},
    }
}

proof fn lemma_named_ids_differ(renderers: Seq<ConnectDevice>, id: i32, name: String)
    requires
        ids_differ(renderers),
    ensures
        ids_differ(with_renderer(renderers, id, name)),
{
    let list = with_renderer(renderers, id, name);
    if first_match(renderers, has_id(id)) is Some {
        lemma_first_match_is_first(renderers, has_id(id));
    } else {
        assert forall|i: int| 0 <= i < renderers.len() implies (#[trigger] renderers[i]).id
            != id by {
            lemma_first_match_is_first(renderers, has_id(id));
            assert(!has_id(id)(renderers[i]));
        }
    }
    assert forall|i: int, j: int| 0 <= i < j < list.len() implies (#[trigger] list[i]).id
        != (#[trigger] list[j]).id by {
        assert(list[i].id == if i < renderers.len() {
            renderers[i].id
        } else {
            id
        });
        assert(list[j].id == if j < renderers.len() {
            renderers[j].id
        } else {
            id
        });
    }
}

/// At most one renderer is active after the session says which one is.
pub proof fn law_one_renderer_is_active(renderers: Seq<ConnectDevice>, id: Option<i32>)
    requires
        ids_differ(renderers),
    ensures
        forall|i: int|
            0 <= i < renderers.len() ==> ((#[trigger] with_active(renderers, id)[i]).active <==> id
                == Some(renderers[i].id)),
        forall|i: int, j: int|
            0 <= i < renderers.len() && 0 <= j < renderers.len() && (#[trigger] with_active(
                renderers,
                id,
            )[i]).active && (#[trigger] with_active(renderers, id)[j]).active ==> i == j,
{
    assert forall|i: int, j: int|
        0 <= i < renderers.len() && 0 <= j < renderers.len() && (#[trigger] with_active(
            renderers,
            id,
        )[i]).active && (#[trigger] with_active(renderers, id)[j]).active implies i == j by {
        assert(renderers[i].id == renderers[j].id);
    }
}

/// Becoming the active renderer goes on where the previous one is: an item of the local queue that
/// another renderer was playing is jumped to, unless it is the current one already, at the place
/// that the other has reached by now, and it plays.
pub proof fn law_the_active_renderer_goes_on(queue: Seq<QueueItem>, remote: Remote, now: u128)
    requires
        remote.state.playing == PlayingState::Playing,
        remote.state.current_queue_item_id matches Some(id) && id >= 0 && first_match(
            queue,
            has_connect_id(id),
        ) is Some,
    ensures
        ({
            let id = remote.state.current_queue_item_id->0;
            let index = first_match(queue, has_connect_id(id))->0;
            let to = remote_position(remote, now);
            let jump = playing_connect_id(queue) != Some(id);
            resume_actions(queue, remote, now) == (if jump {
                seq![ActionModel::SkipToPosition { index: index as usize, force: true }]
            } else {
                Seq::empty()
            }) + (if jump && to == 0 {
                Seq::empty()
            } else {
                seq![ActionModel::Seek(to)]
            }) + seq![ActionModel::Play]
        }),
{
}

} // verus!

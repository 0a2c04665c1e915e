//! The server that lets the devices of a group share one player: who is in a group, which device
//! plays, what each request may do, and who is told of it.
//!
//! Points in time are in nanoseconds.

use vstd::prelude::*;
use crate::models::{Status, Volume};
use crate::registry::Registry;
use crate::text::{
    contains_text, copy_texts, lemma_without_text, owned, remove_text, views, without_text,
};
use crate::tracklist::{QueueItem, Tracklist, TracklistType};

verus! {

/// The longest secret or device id that is told apart.
pub const MAX_ID_LEN: usize = 20;

/// The most groups that are served.
pub const MAX_GROUP_COUNT: usize = 1_000;

/// The time over which requests are counted.
pub const RATE_LIMIT_WINDOW: u128 = 10_000_000_000;

/// The most requests in that time.
pub const RATE_LIMIT_MAX_REQUESTS: usize = 60;

/// Why a request is refused.
#[derive(Clone, Copy, Debug, PartialEq, Eq, Structural)]
pub enum Refusal {
    BadRequest,
    Forbidden,
    NotFound,
    Conflict,
    TooManyRequests,
}

impl Refusal {
    /// The status code of the refusal.
    pub fn code(&self) -> (r: u16)
        ensures
            r == match self {
                Refusal::BadRequest => 400,
                Refusal::Forbidden => 403,
                Refusal::NotFound => 404,
                Refusal::Conflict => 409,
                Refusal::TooManyRequests => 429int,
            },
    {
        match self {
            Refusal::BadRequest => 400,
            Refusal::Forbidden => 403,
            Refusal::NotFound => 404,
            Refusal::Conflict => 409,
            Refusal::TooManyRequests => 429,
        }
    }
}

/// What a client takes part as: a device can play, a listener only follows.
#[derive(Clone, Copy, Debug, PartialEq, Eq, Structural)]
pub enum StreamType {
    Device,
    Listener,
}

impl Default for StreamType {
    fn default() -> (r: StreamType)
        ensures
            r == StreamType::Device,
    {
        StreamType::Device
    }
}

#[derive(Debug)]
pub struct AuthQuery {
    pub secret: String,
}

#[derive(Debug)]
pub struct StreamQuery {
    pub secret: String,
    pub device_id: String,
    pub stream_type: StreamType,
}

#[derive(Debug)]
pub struct DeviceRequest {
    pub device_id: String,
}

/// What the clients of a group are told. `C` is a command for the device that plays.
pub enum ServerEvent<C> {
    Control(C),
    Tracklist(Tracklist),
    Status(Status),
    Position(u128),
    Volume(Volume),
    AutoPlay(bool),
    ActiveDevice(String),
    AvailableDevices(Vec<String>),
}

/// The devices and listeners that share a player, and what it does.
pub struct Group {
    pub streams: Vec<String>,
    pub listeners: Vec<String>,
    /// The device that plays; empty while there is none.
    pub active_device: String,
    pub tracklist: Tracklist,
    pub playback_status: Status,
    pub position: u128,
    pub volume: Volume,
    pub auto_play: bool,
}

/// The state of a group as a client sees it.
pub struct DisconnectState {
    pub active_device: String,
    pub available_devices: Vec<String>,
    pub playback_status: Status,
    pub tracklist: Tracklist,
    pub position: u128,
    pub volume: Volume,
    pub auto_play: bool,
}

/// An ASCII character.
pub open spec fn is_ascii_char(c: char) -> bool {
    (c as int) < 128
}

/// The ASCII characters of a text.
pub open spec fn ascii_part(s: Seq<char>) -> Seq<char>
    decreases s.len(),
{
    if s.len() == 0 {
        Seq::empty()
    } else if is_ascii_char(s.last()) {
        ascii_part(s.drop_last()).push(s.last())
    } else {
        ascii_part(s.drop_last())
    }
}

/// A secret or id as it is told apart: its first ASCII characters.
pub open spec fn sanitized(s: Seq<char>) -> Seq<char> {
    let ascii = ascii_part(s);
    if ascii.len() <= MAX_ID_LEN {
        ascii
    } else {
        ascii.take(MAX_ID_LEN as int)
    }
}

pub fn sanitize_id(value: &str) -> (r: String)
    ensures
        r@ == sanitized(value@),
{
    let mut r = String::new();
    let mut count: usize = 0;
    for c in it: value.chars()
        invariant
            it.seq() == value@,
            count == r@.len(),
            r@ == sanitized(value@.take(it.index())),
    {
        let ghost done = value@.take(it.index());
        let ghost next = value@.take(it.index() + 1);
        assert(next.drop_last() =~= done && next.last() == c);
        if c <= '\u{7f}' && count < MAX_ID_LEN {
            r.push(c);
            count += 1;
        }
        assert(r@ =~= sanitized(next));
    }
    assert(value@.take(value@.len() as int) =~= value@);
    r
}

pub fn sanitize_secret(value: &str) -> (r: String)
    ensures
        r@ == sanitized(value@),
{
    sanitize_id(value)
}

pub fn sanitize_device_id(value: &str) -> (r: String)
    ensures
        r@ == sanitized(value@),
{
    sanitize_id(value)
}

pub fn validate_non_empty(value: &str) -> (r: Result<(), Refusal>)
    ensures
        r == if value@.len() == 0 {
            Err::<(), Refusal>(Refusal::BadRequest)
        } else {
            Ok::<(), Refusal>(())
        },
{
    if value.is_empty() {
        Err(Refusal::BadRequest)
    } else {
        Ok(())
    }
}

pub fn sanitize_auth_query(auth: &AuthQuery) -> (r: Result<String, Refusal>)
    ensures
        match r {
            Ok(secret) => secret@ == sanitized(auth.secret@) && secret@.len() > 0,
            Err(refusal) => refusal == Refusal::BadRequest && sanitized(auth.secret@).len() == 0,
        },
{
    let secret = sanitize_secret(auth.secret.as_str());
    match validate_non_empty(secret.as_str()) {
        Ok(_) => Ok(secret),
        Err(refusal) => Err(refusal),
    }
}

pub fn sanitize_stream_query(query: &StreamQuery) -> (r: Result<
    (String, String, StreamType),
    Refusal,
>)
    ensures
        match r {
            Ok((secret, client_id, stream_type)) => {
                &&& secret@ == sanitized(query.secret@) && secret@.len() > 0
                &&& client_id@ == sanitized(query.device_id@) && client_id@.len() > 0
                &&& stream_type == query.stream_type
            },
            Err(refusal) => refusal == Refusal::BadRequest && (sanitized(query.secret@).len() == 0
                || sanitized(query.device_id@).len() == 0),
        },
{
    let secret = sanitize_secret(query.secret.as_str());
    let client_id = sanitize_device_id(query.device_id.as_str());
    match validate_non_empty(secret.as_str()) {
        Ok(_) => {},
        Err(refusal) => return Err(refusal),
    }
    match validate_non_empty(client_id.as_str()) {
        Ok(_) => {},
        Err(refusal) => return Err(refusal),
    }
    Ok((secret, client_id, query.stream_type))
}

pub fn sanitize_device_request(request: &DeviceRequest) -> (r: Result<String, Refusal>)
    ensures
        match r {
            Ok(id) => id@ == sanitized(request.device_id@) && id@.len() > 0,
            Err(refusal) => refusal == Refusal::BadRequest && sanitized(request.device_id@).len()
                == 0,
        },
{
    let device_id = sanitize_device_id(request.device_id.as_str());
    match validate_non_empty(device_id.as_str()) {
        Ok(_) => Ok(device_id),
        Err(refusal) => Err(refusal),
    }
}

/// The name under which the requests with a secret are counted.
pub open spec fn rate_key(secret: Option<Seq<char>>) -> Seq<char> {
    match secret {
        Some(secret) => if sanitized(secret).len() > 0 {
            "secret:"@ + sanitized(secret)
        } else {
            "global"@
        },
        None => "global"@,
    }
}

/// The name under which a request is counted; `secret` is the one that it carries, if any.
pub fn rate_limit_key(secret: Option<&str>) -> (r: String)
    ensures
        r@ == rate_key(
            match secret {
                Some(secret) => Some(secret@),
                None => None,
            },
        ),
{
    if let Some(secret) = secret {
        let secret = sanitize_secret(secret);
        if !secret.as_str().is_empty() {
            return owned("secret:").concat(secret.as_str());
        }
    }
    owned("global")
}

/// The points in time without those at the front that lie too far back.
pub open spec fn recent(times: Seq<u128>, now: u128) -> Seq<u128>
    decreases times.len(),
{
    if times.len() == 0 || now - times[0] <= RATE_LIMIT_WINDOW {
        times
    } else {
        recent(times.drop_first(), now)
    }
}

/// The requests of each name that count.
pub struct RateLimits {
    times: Registry<Vec<u128>>,
}

impl RateLimits {
    /// The requests that count under a name.
    pub closed spec fn counted(&self, key: Seq<char>) -> Seq<u128> {
        if self.times@.dom().contains(key) {
            self.times@[key]@
        } else {
            Seq::empty()
        }
    }

    pub closed spec fn wf(&self) -> bool {
        self.times.wf()
    }

    pub fn new() -> (r: Self)
        ensures
            r.wf(),
            forall|key: Seq<char>| #[trigger] r.counted(key) == Seq::<u128>::empty(),
    {
        RateLimits { times: Registry::new() }
    }

    /// Counts a request and returns whether it is served: no more than so many are served in the
    /// time that counts.
    pub fn allow(&mut self, key: &str, now: u128) -> (r: bool)
        requires
            old(self).wf(),
        ensures
            final(self).wf(),
            r == (recent(old(self).counted(key@), now).len() < RATE_LIMIT_MAX_REQUESTS),
            final(self).counted(key@) == (if r {
                recent(old(self).counted(key@), now).push(now)
            } else {
                recent(old(self).counted(key@), now)
            }),
            forall|other: Seq<char>|
                other != key@ ==> #[trigger] final(self).counted(other) == old(self).counted(other),
    {
        let known: Vec<u128> = match self.times.take(key) {
            Some(known) => known,
            None => Vec::new(),
        };
        let total: usize = known.len();
        assert(known@ =~= old(self).counted(key@));
        let mut first: usize = 0;
        assert(known@.skip(0) =~= known@);
        while first < total && now.saturating_sub(known[first]) > RATE_LIMIT_WINDOW
            invariant
                total == known@.len(),
                first <= total,
                recent(known@.skip(first as int), now) == recent(known@, now),
            decreases total - first,
        {
            assert(known@.skip(first as int).drop_first() =~= known@.skip(first + 1));
            first += 1;
        }
        let ghost rest = known@.skip(first as int);
        assert(recent(known@, now) == rest);
        let mut kept: Vec<u128> = Vec::new();
        let mut i: usize = first;
        while i < total
            invariant
                total == known@.len(),
                first <= i <= total,
                kept@ == known@.subrange(first as int, i as int),
            decreases total - i,
        {
            kept.push(known[i]);
            i += 1;
            assert(kept@ =~= known@.subrange(first as int, i as int));
        }
        assert(kept@ =~= rest);
        let allowed: bool = kept.len() < RATE_LIMIT_MAX_REQUESTS;
        if allowed {
            kept.push(now);
        }
        self.times.put(key, kept);
        allowed
    }
}

/// A volume from silence to full: the pattern of a number from zero to one.
pub open spec fn is_valid_volume(volume: Volume) -> bool {
    volume.bits <= 0x3f80_0000 || volume.bits == 0x8000_0000
}

/// A group is in order: no client takes part twice, there is a client, and a device plays exactly
/// while there is one.
pub open spec fn group_ok(g: Group) -> bool {
    &&& views(g.streams@).no_duplicates()
    &&& views(g.listeners@).no_duplicates()
    &&& forall|id: Seq<char>|
        #[trigger] views(g.streams@).contains(id) ==> id.len() > 0 && !views(
            g.listeners@,
        ).contains(id)
    &&& g.streams@.len() + g.listeners@.len() > 0
    &&& if g.active_device@.len() == 0 {
        g.streams@.len() == 0
    } else {
        views(g.streams@).contains(g.active_device@)
    }
}

/// All but who takes part and which device plays is kept.
pub open spec fn same_player(a: Group, b: Group) -> bool {
    &&& a.tracklist == b.tracklist
    &&& a.playback_status == b.playback_status
    &&& a.position == b.position
    &&& a.volume == b.volume
    &&& a.auto_play == b.auto_play
}

/// A group that nobody has changed yet: an empty queue, paused at the start, at full volume.
pub open spec fn is_fresh_player(g: Group) -> bool {
    &&& g.tracklist.items() == Seq::<QueueItem>::empty()
    &&& g.tracklist.source() == TracklistType::Tracks
    &&& g.tracklist.next_id() == 0
    &&& g.playback_status == Status::Paused
    &&& g.position == 0
    &&& g.volume == (Volume { bits: 0x3f80_0000 })
    &&& !g.auto_play
}

/// The event names the device that plays.
pub open spec fn tells_active<C>(event: ServerEvent<C>, id: Seq<char>) -> bool {
    event matches ServerEvent::ActiveDevice(device) && device@ == id
}

/// The event lists the devices.
pub open spec fn tells_devices<C>(event: ServerEvent<C>, ids: Seq<Seq<char>>) -> bool {
    event matches ServerEvent::AvailableDevices(devices) && views(devices@) == ids
}

/// A client that joined.
pub struct Joined<C> {
    pub secret: String,
    pub client_id: String,
    pub stream_type: StreamType,
    /// What the clients of the group are told, in order.
    pub events: Vec<ServerEvent<C>>,
}

/// The groups by their secrets.
pub struct Groups {
    groups: Registry<Group>,
}

/// The state of a group before a client joins: as it is, or fresh.
pub open spec fn joins(
    before: Map<Seq<char>, Group>,
    after: Map<Seq<char>, Group>,
    secret: Seq<char>,
    client: Seq<char>,
    stream_type: StreamType,
) -> bool {
    let was_there = before.dom().contains(secret);
    let g = after[secret];
    let streams = if was_there {
        views(before[secret].streams@)
    } else {
        Seq::empty()
    };
    let listeners = if was_there {
        views(before[secret].listeners@)
    } else {
        Seq::empty()
    };
    let active = if was_there {
        before[secret].active_device@
    } else {
        Seq::empty()
    };
    &&& after == before.insert(secret, g)
    &&& was_there ==> same_player(g, before[secret])
    &&& !was_there ==> is_fresh_player(g)
    &&& match stream_type {
        StreamType::Device => {
            &&& views(g.streams@) == streams.push(client)
            &&& views(g.listeners@) == listeners
            &&& g.active_device@ == if active.len() == 0 {
                client
            } else {
                active
            }
        },
        StreamType::Listener => {
            &&& views(g.streams@) == streams
            &&& views(g.listeners@) == listeners.push(client)
            &&& g.active_device@ == active
        },
    }
}

/// What the clients are told when one joins: which device plays, where that is the new one, and
/// which devices there are.
pub open spec fn join_events<C>(
    events: Seq<ServerEvent<C>>,
    before: Map<Seq<char>, Group>,
    after: Map<Seq<char>, Group>,
    secret: Seq<char>,
    client: Seq<char>,
    stream_type: StreamType,
) -> bool {
    let first = !before.dom().contains(secret) || before[secret].active_device@.len() == 0;
    let devices = views(after[secret].streams@);
    match stream_type {
        StreamType::Listener => events.len() == 0,
        StreamType::Device => if first {
            events.len() == 2 && tells_active(events[0], client) && tells_devices(
                events[1],
                devices,
            )
        } else {
            events.len() == 1 && tells_devices(events[0], devices)
        },
    }
}

/// The group after a client has left, before it is looked at whether anyone is left.
pub open spec fn left_group(g: Group, h: Group, client: Seq<char>, stream_type: StreamType) -> bool {
    &&& same_player(h, g)
    &&& match stream_type {
        StreamType::Device => {
            let streams = without_text(views(g.streams@), client);
            &&& views(h.streams@) == streams
            &&& h.listeners == g.listeners
            &&& h.active_device@ == if g.active_device@ != client {
                g.active_device@
            } else if streams.len() > 0 {
                streams[0]
            } else {
                Seq::empty()
            }
        },
        StreamType::Listener => {
            &&& h.streams == g.streams
            &&& views(h.listeners@) == without_text(views(g.listeners@), client)
            &&& h.active_device == g.active_device
        },
    }
}

/// What the clients are told when one leaves.
pub open spec fn leave_events<C>(
    events: Seq<ServerEvent<C>>,
    g: Group,
    client: Seq<char>,
    stream_type: StreamType,
) -> bool {
    let streams = without_text(views(g.streams@), client);
    match stream_type {
        StreamType::Listener => events.len() == 0,
        StreamType::Device => if g.active_device@ == client && streams.len() > 0 {
            events.len() == 2 && tells_active(events[0], streams[0]) && tells_devices(
                events[1],
                streams,
            )
        } else {
            events.len() == 1 && tells_devices(events[0], streams)
        },
    }
}

/// The outcome of a request that only the device that plays may make. `set` is what the request
/// changes.
pub open spec fn device_outcome(
    before: Map<Seq<char>, Group>,
    after: Map<Seq<char>, Group>,
    auth: AuthQuery,
    device: DeviceRequest,
    valid: bool,
    refusal: Option<Refusal>,
    set: spec_fn(Group) -> Group,
) -> bool {
    let secret = sanitized(auth.secret@);
    let id = sanitized(device.device_id@);
    let active = before.dom().contains(secret) && before[secret].active_device@ == id;
    if secret.len() == 0 || id.len() == 0 || !valid {
        refusal == Some(Refusal::BadRequest) && after == before
    } else if !active {
        refusal == Some(Refusal::Forbidden) && after == before
    } else {
        refusal is None && after == before.insert(secret, set(before[secret]))
    }
}

/// The refusal of an outcome, if it is one.
pub open spec fn refusal_of<T>(r: Result<T, Refusal>) -> Option<Refusal> {
    match r {
        Ok(_) => None,
        Err(refusal) => Some(refusal),
    }
}

impl Groups {
    /// The groups by their secrets.
    pub closed spec fn view(&self) -> Map<Seq<char>, Group> {
        self.groups@
    }

    /// The number of groups.
    pub closed spec fn count(&self) -> nat {
        self.groups.count()
    }

    /// Every group is in order, and there are not too many.
    pub closed spec fn wf(&self) -> bool {
        &&& self.groups.wf()
        &&& self.groups.count() <= MAX_GROUP_COUNT
        &&& forall|k: Seq<char>| #[trigger]
            self.groups@.dom().contains(k) ==> group_ok(self.groups@[k])
    }

    pub fn new() -> (r: Self)
        ensures
            r.wf(),
            r@ == Map::<Seq<char>, Group>::empty(),
            r.count() == 0,
    {
        Groups { groups: Registry::new() }
    }

    /// Whether a group is there.
    pub fn contains(&self, secret: &str) -> (r: bool)
        requires
            self.wf(),
        ensures
            r == self@.dom().contains(secret@),
    {
        self.groups.contains(secret)
    }

    pub fn is_active_device(&self, secret: &str, device_id: &str) -> (r: bool)
        requires
            self.wf(),
        ensures
            r == (self@.dom().contains(secret@) && self@[secret@].active_device@ == device_id@),
    {
        match self.groups.get(secret) {
            Some(group) => group.active_device == owned(device_id),
            None => false,
        }
    }

    pub fn get_state(&self, auth: &AuthQuery) -> (r: Result<DisconnectState, Refusal>)
        requires
            self.wf(),
        ensures
            ({
                let secret = sanitized(auth.secret@);
                match r {
                    Ok(state) => {
                        let g = self@[secret];
                        &&& secret.len() > 0 && self@.dom().contains(secret)
                        &&& state.active_device@ == g.active_device@
                        &&& views(state.available_devices@) == views(g.streams@)
                        &&& state.playback_status == g.playback_status
                        &&& state.tracklist.items() == g.tracklist.items()
                        &&& state.tracklist.source() == g.tracklist.source()
                        &&& state.tracklist.next_id() == g.tracklist.next_id()
                        &&& state.position == g.position
                        &&& state.volume == g.volume
                        &&& state.auto_play == g.auto_play
                    },
                    Err(refusal) => if secret.len() == 0 {
                        refusal == Refusal::BadRequest
                    } else {
                        refusal == Refusal::NotFound && !self@.dom().contains(secret)
                    },
                }
            }),
    {
        let secret = match sanitize_auth_query(auth) {
            Ok(secret) => secret,
            Err(refusal) => return Err(refusal),
        };
        match self.groups.get(secret.as_str()) {
            Some(group) => Ok(
                DisconnectState {
                    active_device: group.active_device.clone(),
                    available_devices: copy_texts(&group.streams),
                    playback_status: group.playback_status,
                    tracklist: group.tracklist.clone(),
                    position: group.position,
                    volume: group.volume,
                    auto_play: group.auto_play,
                },
            ),
            None => Err(Refusal::NotFound),
        }
    }

    /// Passes on a command of a client that may give one: a listener, or a device that does not
    /// play.
    pub fn control<C>(&self, auth: &AuthQuery, client: &DeviceRequest, command: C) -> (r: Result<
        ServerEvent<C>,
        Refusal,
    >)
        requires
            self.wf(),
        ensures
            ({
                let secret = sanitized(auth.secret@);
                let id = sanitized(client.device_id@);
                let g = self@[secret];
                let may = views(g.listeners@).contains(id) || (views(g.streams@).contains(id)
                    && g.active_device@ != id);
                match r {
                    Ok(event) => {
                        &&& secret.len() > 0 && id.len() > 0
                        &&& self@.dom().contains(secret) && may
                        &&& event == ServerEvent::Control(command)
                    },
                    Err(refusal) => if secret.len() == 0 || id.len() == 0 {
                        refusal == Refusal::BadRequest
                    } else if !self@.dom().contains(secret) {
                        refusal == Refusal::NotFound
                    } else {
                        refusal == Refusal::Forbidden && !may
                    },
                }
            }),
    {
        let secret = match sanitize_auth_query(auth) {
            Ok(secret) => secret,
            Err(refusal) => return Err(refusal),
        };
        let client_id = match sanitize_device_request(client) {
            Ok(id) => id,
            Err(refusal) => return Err(refusal),
        };
        match self.groups.get(secret.as_str()) {
            Some(group) => {
                let is_listener: bool = contains_text(&group.listeners, client_id.as_str());
                let is_inactive: bool = contains_text(&group.streams, client_id.as_str())
                    && group.active_device != client_id;
                if !is_listener && !is_inactive {
                    return Err(Refusal::Forbidden);
                }
                Ok(ServerEvent::Control(command))
            },
            None => Err(Refusal::NotFound),
        }
    }

    /// Makes a device of the group the one that plays. There is news only where it was another.
    pub fn set_active_device<C>(&mut self, auth: &AuthQuery, request: &DeviceRequest) -> (r: Result<
        Option<ServerEvent<C>>,
        Refusal,
    >)
        requires
            old(self).wf(),
        ensures
            final(self).wf(),
            final(self).count() == old(self).count(),
            ({
                let secret = sanitized(auth.secret@);
                let id = sanitized(request.device_id@);
                let g = old(self)@[secret];
                match r {
                    Ok(news) => {
                        &&& secret.len() > 0 && id.len() > 0
                        &&& old(self)@.dom().contains(secret) && views(g.streams@).contains(id)
                        &&& final(self)@.dom() =~= old(self)@.dom()
                        &&& forall|k: Seq<char>|
                            k != secret ==> #[trigger] final(self)@[k] == old(self)@[k]
                        &&& final(self)@[secret] == (Group {
                            active_device: final(self)@[secret].active_device,
                            ..g
                        })
                        &&& final(self)@[secret].active_device@ == id
                        &&& match news {
                            Some(event) => g.active_device@ != id && tells_active(event, id),
                            None => g.active_device@ == id,
                        }
                    },
                    Err(refusal) => {
                        &&& final(self)@ == old(self)@
                        &&& if secret.len() == 0 || id.len() == 0 {
                            refusal == Refusal::BadRequest
                        } else if !old(self)@.dom().contains(secret) {
                            refusal == Refusal::NotFound
                        } else {
                            refusal == Refusal::BadRequest && !views(g.streams@).contains(id)
                        }
                    },
                }
            }),
    {
        let secret = match sanitize_auth_query(auth) {
            Ok(secret) => secret,
            Err(refusal) => return Err(refusal),
        };
        let device_id = match sanitize_device_request(request) {
            Ok(id) => id,
            Err(refusal) => return Err(refusal),
        };
        match self.groups.get(secret.as_str()) {
            Some(group) => {
                if !contains_text(&group.streams, device_id.as_str()) {
                    return Err(Refusal::BadRequest);
                }
                if group.active_device == device_id {
                    return Ok(None);
                }
            },
            None => return Err(Refusal::NotFound),
        }
        if let Some(mut group) = self.groups.take(secret.as_str()) {
            group.active_device = device_id.clone();
            self.groups.put(secret.as_str(), group);
        }
        Ok(Some(ServerEvent::ActiveDevice(device_id)))
    }

    /// The secret of a request that the device that plays makes.
    fn active_secret(&self, auth: &AuthQuery, device: &DeviceRequest, valid: bool) -> (r: Result<
        String,
        Refusal,
    >)
        requires
            self.wf(),
        ensures
            ({
                let secret = sanitized(auth.secret@);
                let id = sanitized(device.device_id@);
                let active = self@.dom().contains(secret) && self@[secret].active_device@ == id;
                match r {
                    Ok(s) => s@ == secret && secret.len() > 0 && id.len() > 0 && valid && active,
                    Err(refusal) => if secret.len() == 0 || id.len() == 0 || !valid {
                        refusal == Refusal::BadRequest
                    } else {
                        refusal == Refusal::Forbidden && !active
                    },
                }
            }),
    {
        let secret = match sanitize_auth_query(auth) {
            Ok(secret) => secret,
            Err(refusal) => return Err(refusal),
        };
        let device_id = match sanitize_device_request(device) {
            Ok(id) => id,
            Err(refusal) => return Err(refusal),
        };
        if !valid {
            return Err(Refusal::BadRequest);
        }
        if !self.is_active_device(secret.as_str(), device_id.as_str()) {
            return Err(Refusal::Forbidden);
        }
        Ok(secret)
    }

    pub fn set_tracklist<C>(
        &mut self,
        auth: &AuthQuery,
        device: &DeviceRequest,
        tracklist: Tracklist,
    ) -> (r: Result<ServerEvent<C>, Refusal>)
        requires
            old(self).wf(),
        ensures
            final(self).wf(),
            final(self).count() == old(self).count(),
            device_outcome(
                old(self)@,
                final(self)@,
                *auth,
                *device,
                true,
                refusal_of(r),
                |g: Group| Group { tracklist, ..g },
            ),
            r matches Ok(event) ==> event matches ServerEvent::Tracklist(told) && told.items()
                == tracklist.items() && told.source() == tracklist.source() && told.next_id()
                == tracklist.next_id(),
    {
        let secret = match self.active_secret(auth, device, true) {
            Ok(secret) => secret,
            Err(refusal) => return Err(refusal),
        };
        let told = tracklist.clone();
        if let Some(mut group) = self.groups.take(secret.as_str()) {
            group.tracklist = tracklist;
            self.groups.put(secret.as_str(), group);
            assert(self.groups@ =~= old(self)@.insert(secret@, group));
        }
        Ok(ServerEvent::Tracklist(told))
    }

    pub fn set_status<C>(&mut self, auth: &AuthQuery, device: &DeviceRequest, status: Status) -> (r:
        Result<ServerEvent<C>, Refusal>)
        requires
            old(self).wf(),
        ensures
            final(self).wf(),
            final(self).count() == old(self).count(),
            device_outcome(
                old(self)@,
                final(self)@,
                *auth,
                *device,
                true,
                refusal_of(r),
                |g: Group| Group { playback_status: status, ..g },
            ),
            r matches Ok(event) ==> event == ServerEvent::<C>::Status(status),
    {
        let secret = match self.active_secret(auth, device, true) {
            Ok(secret) => secret,
            Err(refusal) => return Err(refusal),
        };
        if let Some(mut group) = self.groups.take(secret.as_str()) {
            group.playback_status = status;
            self.groups.put(secret.as_str(), group);
            assert(self.groups@ =~= old(self)@.insert(secret@, group));
        }
        Ok(ServerEvent::Status(status))
    }

    pub fn set_position<C>(&mut self, auth: &AuthQuery, device: &DeviceRequest, position: u128) -> (
    r: Result<ServerEvent<C>, Refusal>)
        requires
            old(self).wf(),
        ensures
            final(self).wf(),
            final(self).count() == old(self).count(),
            device_outcome(
                old(self)@,
                final(self)@,
                *auth,
                *device,
                true,
                refusal_of(r),
                |g: Group| Group { position, ..g },
            ),
            r matches Ok(event) ==> event == ServerEvent::<C>::Position(position),
    {
        let secret = match self.active_secret(auth, device, true) {
            Ok(secret) => secret,
            Err(refusal) => return Err(refusal),
        };
        if let Some(mut group) = self.groups.take(secret.as_str()) {
            group.position = position;
            self.groups.put(secret.as_str(), group);
            assert(self.groups@ =~= old(self)@.insert(secret@, group));
        }
        Ok(ServerEvent::Position(position))
    }

    pub fn set_volume<C>(&mut self, auth: &AuthQuery, device: &DeviceRequest, volume: Volume) -> (r:
        Result<ServerEvent<C>, Refusal>)
        requires
            old(self).wf(),
        ensures
            final(self).wf(),
            final(self).count() == old(self).count(),
            device_outcome(
                old(self)@,
                final(self)@,
                *auth,
                *device,
                is_valid_volume(volume),
                refusal_of(r),
                |g: Group| Group { volume, ..g },
            ),
            r matches Ok(event) ==> event == ServerEvent::<C>::Volume(volume),
    {
        let valid: bool = volume.bits <= 0x3f80_0000 || volume.bits == 0x8000_0000;
        let secret = match self.active_secret(auth, device, valid) {
            Ok(secret) => secret,
            Err(refusal) => return Err(refusal),
        };
        if let Some(mut group) = self.groups.take(secret.as_str()) {
            group.volume = volume;
            self.groups.put(secret.as_str(), group);
            assert(self.groups@ =~= old(self)@.insert(secret@, group));
        }
        Ok(ServerEvent::Volume(volume))
    }

    pub fn set_auto_play<C>(&mut self, auth: &AuthQuery, device: &DeviceRequest, auto_play: bool) -> (
    r: Result<ServerEvent<C>, Refusal>)
        requires
            old(self).wf(),
        ensures
            final(self).wf(),
            final(self).count() == old(self).count(),
            device_outcome(
                old(self)@,
                final(self)@,
                *auth,
                *device,
                true,
                refusal_of(r),
                |g: Group| Group { auto_play, ..g },
            ),
            r matches Ok(event) ==> event == ServerEvent::<C>::AutoPlay(auto_play),
    {
        let secret = match self.active_secret(auth, device, true) {
            Ok(secret) => secret,
            Err(refusal) => return Err(refusal),
        };
        if let Some(mut group) = self.groups.take(secret.as_str()) {
            group.auto_play = auto_play;
            self.groups.put(secret.as_str(), group);
            assert(self.groups@ =~= old(self)@.insert(secret@, group));
        }
        Ok(ServerEvent::AutoPlay(auto_play))
    }

    /// Lets a client join a group, which is made where it is not there.
    pub fn stream_handler<C>(&mut self, query: &StreamQuery) -> (r: Result<Joined<C>, Refusal>)
        requires
            old(self).wf(),
        ensures
            final(self).wf(),
            ({
                let secret = sanitized(query.secret@);
                let client = sanitized(query.device_id@);
                let there = old(self)@.dom().contains(secret);
                let g = old(self)@[secret];
                let taken = there && (views(g.streams@).contains(client) || views(
                    g.listeners@,
                ).contains(client));
                match r {
                    Ok(joined) => {
                        &&& secret.len() > 0 && client.len() > 0
                        &&& there || old(self).count() < MAX_GROUP_COUNT
                        &&& !taken
                        &&& joined.secret@ == secret
                        &&& joined.client_id@ == client
                        &&& joined.stream_type == query.stream_type
                        &&& joins(old(self)@, final(self)@, secret, client, query.stream_type)
                        &&& final(self).count() == if there {
                            old(self).count()
                        } else {
                            old(self).count() + 1
                        }
                        &&& join_events(
                            joined.events@,
                            old(self)@,
                            final(self)@,
                            secret,
                            client,
                            query.stream_type,
                        )
                    },
                    Err(refusal) => {
                        &&& final(self)@ == old(self)@
                        &&& final(self).count() == old(self).count()
                        &&& if secret.len() == 0 || client.len() == 0 {
                            refusal == Refusal::BadRequest
                        } else if !there {
                            refusal == Refusal::TooManyRequests && old(self).count()
                                >= MAX_GROUP_COUNT
                        } else {
                            refusal == Refusal::Conflict && taken
                        }
                    },
                }
            }),
    {
        let (secret, client_id, stream_type) = match sanitize_stream_query(query) {
            Ok(parts) => parts,
            Err(refusal) => return Err(refusal),
        };
        match self.groups.get(secret.as_str()) {
            Some(group) => {
                if contains_text(&group.streams, client_id.as_str()) || contains_text(
                    &group.listeners,
                    client_id.as_str(),
                ) {
                    return Err(Refusal::Conflict);
                }
            },
            None => {
                if self.groups.len() >= MAX_GROUP_COUNT {
                    return Err(Refusal::TooManyRequests);
                }
            },
        }
        let mut group = match self.groups.take(secret.as_str()) {
            Some(group) => group,
            None => Group {
                streams: Vec::new(),
                listeners: Vec::new(),
                active_device: String::new(),
                tracklist: Tracklist::default(),
                playback_status: Status::Paused,
                position: 0,
                volume: Volume { bits: 0x3f80_0000 },
                auto_play: false,
            },
        };
        let ghost streams = views(group.streams@);
        let ghost listeners = views(group.listeners@);
        let ghost there = old(self)@.dom().contains(secret@);
        assert(!there ==> streams =~= Seq::empty() && listeners =~= Seq::empty()
            && group.active_device@ =~= Seq::empty());
        assert(streams.no_duplicates() && listeners.no_duplicates());
        let mut events: Vec<ServerEvent<C>> = Vec::new();
        match stream_type {
            StreamType::Device => {
                group.streams.push(client_id.clone());
                assert(views(group.streams@) =~= streams.push(client_id@));
                proof {
                    lemma_joined(streams, client_id@);
                }
                if group.active_device.as_str().is_empty() {
                    group.active_device = client_id.clone();
                    events.push(ServerEvent::ActiveDevice(client_id.clone()));
                }
                events.push(ServerEvent::AvailableDevices(copy_texts(&group.streams)));
            },
            StreamType::Listener => {
                group.listeners.push(client_id.clone());
                assert(views(group.listeners@) =~= listeners.push(client_id@));
                proof {
                    lemma_joined(listeners, client_id@);
                }
            },
        }
        assert(group_ok(group));
        self.groups.put(secret.as_str(), group);
        assert(self.groups@ =~= old(self)@.insert(secret@, group));
        Ok(Joined { secret, client_id, stream_type, events })
    }

    /// Lets a client leave its group. Where it was the device that plays, another one takes its
    /// place; a group that nobody is left in ends. Returns what the clients that are left are
    /// told.
    pub fn leave<C>(&mut self, secret: &str, client_id: &str, stream_type: StreamType) -> (r: Vec<
        ServerEvent<C>,
    >)
        requires
            old(self).wf(),
            client_id@.len() > 0,
        ensures
            final(self).wf(),
            final(self).count() == if old(self)@.dom().contains(secret@)
                && !final(self)@.dom().contains(secret@) {
                old(self).count() - 1
            } else {
                old(self).count() as int
            },
            if !old(self)@.dom().contains(secret@) {
                final(self)@ == old(self)@ && r@.len() == 0
            } else {
                &&& leave_events(r@, old(self)@[secret@], client_id@, stream_type)
                &&& if final(self)@.dom().contains(secret@) {
                    let h = final(self)@[secret@];
                    &&& left_group(old(self)@[secret@], h, client_id@, stream_type)
                    &&& h.streams@.len() + h.listeners@.len() > 0
                    &&& final(self)@ == old(self)@.insert(secret@, h)
                } else {
                    &&& final(self)@ == old(self)@.remove(secret@)
                    &&& exists|h: Group|
                        #![trigger left_group(old(self)@[secret@], h, client_id@, stream_type)]
                        left_group(old(self)@[secret@], h, client_id@, stream_type)
                            && h.streams@.len() + h.listeners@.len() == 0
                }
            },
    {
        let mut events: Vec<ServerEvent<C>> = Vec::new();
        let mut group = match self.groups.take(secret) {
            Some(group) => group,
            None => return events,
        };
        let ghost before = group;
        match stream_type {
            StreamType::Device => {
                proof {
                    lemma_without_text(views(before.streams@), client_id@);
                }
                remove_text(&mut group.streams, client_id);
                let ghost left = views(group.streams@);
                if group.active_device == owned(client_id) {
                    if group.streams.len() > 0 {
                        assert(left[0] == group.streams@[0]@);
                        assert(left.contains(left[0]));
                        group.active_device = group.streams[0].clone();
                        events.push(ServerEvent::ActiveDevice(group.streams[0].clone()));
                    } else {
                        group.active_device = String::new();
                    }
                }
                events.push(ServerEvent::AvailableDevices(copy_texts(&group.streams)));
            },
            StreamType::Listener => {
                proof {
                    lemma_without_text(views(before.listeners@), client_id@);
                }
                remove_text(&mut group.listeners, client_id);
            },
        }
        assert(left_group(before, group, client_id@, stream_type));
        if group.streams.len() > 0 || group.listeners.len() > 0 {
            assert(group_ok(group)) by {
                if group.active_device@.len() > 0 && stream_type == StreamType::Device {
                    assert(views(before.streams@).contains(before.active_device@));
                }
                if group.active_device@.len() == 0 && group.streams@.len() > 0 {
                    assert(views(group.streams@).contains(views(group.streams@)[0]));
                }
            }
            self.groups.put(secret, group);
            assert(self.groups@ =~= old(self)@.insert(secret@, group));
        }
        events
    }

    /// Whether a client is told of an event: commands go to the device that plays, what it does
    /// goes to all others, and who takes part is told to everyone. A listener hears all but the
    /// commands.
    pub fn should_send<C>(
        &self,
        secret: &str,
        client_id: &str,
        stream_type: StreamType,
        event: &ServerEvent<C>,
    ) -> (r: bool)
        requires
            self.wf(),
        ensures
            r == hears(
                *event,
                stream_type,
                self@.dom().contains(secret@) && self@[secret@].active_device@ == client_id@,
            ),
    {
        match stream_type {
            StreamType::Listener => match event {
                ServerEvent::Control(_) => false,
                _ => true,
            },
            StreamType::Device => {
                let is_active: bool = self.is_active_device(secret, client_id);
                match event {
                    ServerEvent::Control(_) => is_active,
                    ServerEvent::ActiveDevice(_) => true,
                    ServerEvent::AvailableDevices(_) => true,
                    _ => !is_active,
                }
            },
        }
    }
}

/// The groups that are counted are those under the secrets, and there are never too many.
pub proof fn law_the_groups_are_counted(groups: &Groups)
    requires
        groups.wf(),
    ensures
        groups@.dom().finite(),
        groups.count() == groups@.dom().len(),
        groups@.dom().len() <= MAX_GROUP_COUNT,
{
    groups.groups.lemma_count();
}

/// A client hears of an event.
pub open spec fn hears<C>(event: ServerEvent<C>, stream_type: StreamType, active: bool) -> bool {
    match stream_type {
        StreamType::Listener => event !is Control,
        StreamType::Device => match event {
            ServerEvent::Control(_) => active,
            ServerEvent::Tracklist(_) | ServerEvent::Status(_) | ServerEvent::Position(_)
            | ServerEvent::AutoPlay(_) | ServerEvent::Volume(_) => !active,
            ServerEvent::ActiveDevice(_) | ServerEvent::AvailableDevices(_) => true,
        },
    }
}

/// A list that a new text joins holds it and all it held, each once.
proof fn lemma_joined(list: Seq<Seq<char>>, id: Seq<char>)
    requires
        list.no_duplicates(),
        !list.contains(id),
    ensures
        list.push(id).no_duplicates(),
        list.push(id).contains(id),
        forall|t: Seq<char>| #[trigger]
            list.push(id).contains(t) <==> list.contains(t) || t == id,
{
    let all = list.push(id);
    assert(all[list.len() as int] == id);
    assert forall|t: Seq<char>| #[trigger] all.contains(t) <==> list.contains(t) || t == id by {
        if list.contains(t) {
            let k = choose|k: int| 0 <= k < list.len() && list[k] == t;
            assert(all[k] == t);
        }
        if all.contains(t) {
            let k = choose|k: int| 0 <= k < all.len() && all[k] == t;
            if k < list.len() {
                assert(list[k] == t);
            }
        }
    }
    assert forall|i: int, j: int| 0 <= i < all.len() && 0 <= j < all.len() && i != j implies all[i]
        != all[j] by {
        if i < list.len() && j < list.len() {
            assert(list[i] != list[j]);
        } else {
            let k = if i < list.len() {
                i
            } else {
                j
            };
            assert(list.contains(list[k]));
        }
    }
}

/// In every group of the server no client takes part twice, someone takes part, and a device
/// plays exactly while there is one; and there are not too many groups.
pub proof fn law_every_group_is_in_order(groups: &Groups, secret: Seq<char>)
    requires
        groups.wf(),
    ensures
        groups@.dom().contains(secret) ==> group_ok(groups@[secret]),
        groups.count() <= MAX_GROUP_COUNT,
{
}

/// A command reaches the device that plays, and nobody else.
pub proof fn law_commands_reach_only_the_active_device<C>(
    command: C,
    stream_type: StreamType,
    active: bool,
)
    ensures
        hears(ServerEvent::Control(command), stream_type, active) <==> stream_type
            == StreamType::Device && active,
{
}

/// Everyone is told which device plays and which devices there are.
pub proof fn law_everyone_hears_who_plays<C>(
    device: String,
    devices: Vec<String>,
    stream_type: StreamType,
    active: bool,
)
    ensures
        hears(ServerEvent::<C>::ActiveDevice(device), stream_type, active),
        hears(ServerEvent::<C>::AvailableDevices(devices), stream_type, active),
{
}

proof fn lemma_ascii_part(s: Seq<char>)
    ensures
        ascii_part(s).len() <= s.len(),
        forall|i: int| 0 <= i < ascii_part(s).len() ==> is_ascii_char(#[trigger] ascii_part(s)[i]),
        (forall|i: int| 0 <= i < s.len() ==> is_ascii_char(#[trigger] s[i])) ==> ascii_part(s) == s,
    decreases s.len(),
{
    if s.len() > 0 {
        let front = s.drop_last();
        lemma_ascii_part(front);
        if forall|i: int| 0 <= i < s.len() ==> is_ascii_char(#[trigger] s[i]) {
            assert forall|i: int| 0 <= i < front.len() implies is_ascii_char(
                #[trigger] front[i],
            ) by {
                assert(is_ascii_char(s[i]));
            }
            assert(is_ascii_char(s[s.len() - 1]));
            assert(front.push(s.last()) =~= s);
        }
    }
}

/// A sanitized id is short and plain, and sanitizing it again changes nothing.
pub proof fn law_sanitizing_is_idempotent(s: Seq<char>)
    ensures
        sanitized(s).len() <= MAX_ID_LEN,
        forall|i: int| 0 <= i < sanitized(s).len() ==> is_ascii_char(#[trigger] sanitized(s)[i]),
        sanitized(sanitized(s)) == sanitized(s),
{
    lemma_ascii_part(s);
    lemma_ascii_part(sanitized(s));
    assert forall|i: int| 0 <= i < sanitized(s).len() implies is_ascii_char(
        #[trigger] sanitized(s)[i],
    ) by {
        assert(is_ascii_char(ascii_part(s)[i]));
    }
}

/// Counted requests are in the order of time, none is later than `now`, and there are no more
/// than are served.
pub open spec fn counts_ok(times: Seq<u128>, now: u128) -> bool {
    &&& times.len() <= RATE_LIMIT_MAX_REQUESTS
    &&& forall|i: int, j: int| 0 <= i <= j < times.len() ==> times[i] <= times[j]
    &&& forall|i: int| 0 <= i < times.len() ==> #[trigger] times[i] <= now
}

/// The requests that count after one more: those that are recent, and this one where it is served.
pub open spec fn counted_after(times: Seq<u128>, now: u128) -> Seq<u128> {
    let kept = recent(times, now);
    if kept.len() < RATE_LIMIT_MAX_REQUESTS {
        kept.push(now)
    } else {
        kept
    }
}

/// No more requests are served in any window of time than the limit: what counts is every
/// request that was served within the window before `now`, and never more than the limit.
pub proof fn law_the_rate_limit_holds(times: Seq<u128>, earlier: u128, now: u128)
    requires
        counts_ok(times, earlier),
        earlier <= now,
    ensures
        counts_ok(counted_after(times, now), now),
        forall|i: int|
            0 <= i < times.len() && now - #[trigger] times[i] <= RATE_LIMIT_WINDOW
                ==> counted_after(times, now).contains(times[i]),
        forall|i: int|
            0 <= i < counted_after(times, now).len() ==> now - #[trigger] counted_after(
                times,
                now,
            )[i] <= RATE_LIMIT_WINDOW,
{
    lemma_recent(times, earlier, now);
    let kept = recent(times, now);
    let after = counted_after(times, now);
    assert forall|i: int|
        0 <= i < times.len() && now - #[trigger] times[i] <= RATE_LIMIT_WINDOW implies after.contains(
        times[i],
    ) by {
        let k = i - (times.len() - kept.len());
        assert(kept[k] == times[i]);
        assert(after[k] == times[i]);
    }
}

proof fn lemma_recent(times: Seq<u128>, earlier: u128, now: u128)
    requires
        counts_ok(times, earlier),
        earlier <= now,
    ensures
        ({
            let kept = recent(times, now);
            let gone = times.len() - kept.len();
            &&& counts_ok(kept, now)
            &&& gone >= 0
            &&& forall|i: int| 0 <= i < kept.len() ==> #[trigger] kept[i] == times[gone + i]
            &&& forall|i: int| 0 <= i < kept.len() ==> now - #[trigger] kept[i] <= RATE_LIMIT_WINDOW
            &&& forall|i: int| 0 <= i < gone ==> now - #[trigger] times[i] > RATE_LIMIT_WINDOW
        }),
    decreases times.len(),
{
    if times.len() > 0 && now - times[0] > RATE_LIMIT_WINDOW {
        let rest = times.drop_first();
        lemma_recent(rest, earlier, now);
        let kept = recent(rest, now);
        let gone = times.len() - kept.len();
        assert forall|i: int| 0 <= i < kept.len() implies #[trigger] kept[i] == times[gone + i] by {
            assert(rest[gone - 1 + i] == times[gone + i]);
        }
        assert forall|i: int| 0 <= i < gone implies now - #[trigger] times[i]
            > RATE_LIMIT_WINDOW by {
            if i > 0 {
                assert(rest[i - 1] == times[i]);
            }
        }
    }
}

/// A listener hears everything but the commands: the queue, whether it plays, where it is, how loud
/// it is, whether it goes on by itself, and who takes part.
pub proof fn law_a_listener_hears_all_but_commands<C>(
    groups: &Groups,
    secret: &str,
    client: &str,
    event: &ServerEvent<C>,
    r: bool,
)
    requires
        call_ensures(
            Groups::should_send::<C>,
            (groups, secret, client, StreamType::Listener, event),
            r,
        ),
    ensures
        *event is Tracklist || *event is Status || *event is Position || *event is Volume
            || *event is AutoPlay || *event is ActiveDevice || *event is AvailableDevices ==> r,
        *event is Control ==> !r,
{
}

/// The device plays in the group with the secret.
pub open spec fn plays_in(groups: Map<Seq<char>, Group>, secret: Seq<char>, id: Seq<char>) -> bool {
    groups.dom().contains(secret) && groups[secret].active_device@ == id
}

/// A device that does not play hears what the one that plays does, and no command; the one that
/// plays hears the commands and not what it does itself. Both hear who takes part.
pub proof fn law_a_device_hears_what_others_do<C>(
    groups: &Groups,
    secret: &str,
    client: &str,
    event: &ServerEvent<C>,
    r: bool,
)
    requires
        call_ensures(
            Groups::should_send::<C>,
            (groups, secret, client, StreamType::Device, event),
            r,
        ),
    ensures
        *event is Tracklist || *event is Status || *event is Position || *event is Volume
            || *event is AutoPlay ==> r == !plays_in(groups@, secret@, client@),
        *event is Control ==> r == plays_in(groups@, secret@, client@),
        *event is ActiveDevice || *event is AvailableDevices ==> r,
{
}

/// An id that is told apart as it is: twenty ASCII characters at most, and one at least.
pub open spec fn is_plain_id(id: Seq<char>) -> bool {
    &&& 0 < id.len() <= 20
    &&& forall|i: int| 0 <= i < id.len() ==> (#[trigger] id[i] as int) < 128
}

proof fn lemma_plain(id: Seq<char>)
    requires
        is_plain_id(id),
    ensures
        sanitized(id) == id,
{
    assert forall|i: int| 0 <= i < id.len() implies is_ascii_char(#[trigger] id[i]) by {
        assert((id[i] as int) < 128);
    }
    lemma_ascii_part(id);
}

/// A plain id is kept as it is.
pub proof fn law_a_plain_id_is_kept(id: &str, r: String)
    requires
        call_ensures(sanitize_id, (id,), r),
        is_plain_id(id@),
    ensures
        r@ == id@,
{
    lemma_plain(id@);
}

/// An id grows by the characters behind it: by one that is plain ASCII, until it has twenty, and by
/// no other.
pub proof fn law_an_id_grows_by_its_plain_characters(
    id: &str,
    longer: &str,
    c: char,
    short: String,
    long: String,
)
    requires
        call_ensures(sanitize_id, (id,), short),
        call_ensures(sanitize_id, (longer,), long),
        longer@ == id@.push(c),
    ensures
        short@.len() <= 20,
        long@ == if (c as int) < 128 && short@.len() < 20 {
            short@.push(c)
        } else {
            short@
        },
{
    assert(longer@.drop_last() =~= id@);
    assert(longer@.last() == c);
    let a = ascii_part(id@);
    assert(sanitized(longer@) =~= if (c as int) < 128 && short@.len() < 20 {
        short@.push(c)
    } else {
        short@
    });
}

/// Two groups but for one secret are the same.
pub open spec fn others_kept(
    before: Map<Seq<char>, Group>,
    after: Map<Seq<char>, Group>,
    secret: Seq<char>,
) -> bool {
    forall|k: Seq<char>|
        k != secret ==> (#[trigger] after.dom().contains(k) <==> before.dom().contains(k)) && (
        before.dom().contains(k) ==> after[k] == before[k])
}

/// A device that joins is one of the devices of its group from then on, behind those that were
/// there, and plays where no other does, of which everyone is told. It is refused only where it
/// takes part already, or where it would need a group and there are a thousand. Nothing else
/// changes.
pub proof fn law_a_device_joins_its_group<C>(
    groups: &mut Groups,
    query: &StreamQuery,
    r: Result<Joined<C>, Refusal>,
)
    requires
        call_ensures(Groups::stream_handler::<C>, (groups, query), r),
        old(groups).wf(),
        is_plain_id(query.secret@),
        is_plain_id(query.device_id@),
        query.stream_type == StreamType::Device,
    ensures
        others_kept(old(groups)@, final(groups)@, query.secret@),
        ({
            let secret = query.secret@;
            let id = query.device_id@;
            let there = old(groups)@.dom().contains(secret);
            let g = old(groups)@[secret];
            let h = final(groups)@[secret];
            let alone = !there || g.active_device@.len() == 0;
            match r {
                Ok(joined) => {
                    &&& final(groups)@.dom().contains(secret)
                    &&& views(h.streams@).contains(id)
                    &&& views(h.streams@).last() == id
                    &&& there ==> views(h.streams@).drop_last() == views(g.streams@)
                    &&& there ==> views(h.listeners@) == views(g.listeners@)
                    &&& !there ==> h.streams@.len() == 1 && h.listeners@.len() == 0
                    &&& alone ==> h.active_device@ == id
                    &&& !alone ==> h.active_device@ == g.active_device@
                    &&& there ==> h.tracklist == g.tracklist && h.playback_status
                        == g.playback_status && h.position == g.position && h.volume == g.volume
                        && h.auto_play == g.auto_play
                    &&& joined.events@.len() > 0
                    &&& joined.events@.last() matches ServerEvent::AvailableDevices(told) && views(
                        told@,
                    ) == views(h.streams@)
                    &&& alone ==> joined.events@.len() == 2 && (
                    joined.events@[0] matches ServerEvent::ActiveDevice(told) && told@ == id)
                    &&& !alone ==> joined.events@.len() == 1
                },
                Err(refusal) => {
                    &&& final(groups)@ == old(groups)@
                    &&& if there {
                        refusal == Refusal::Conflict && (views(g.streams@).contains(id) || views(
                            g.listeners@,
                        ).contains(id))
                    } else {
                        refusal == Refusal::TooManyRequests && old(groups)@.dom().len() >= 1_000
                    }
                },
            }
        }),
{
    lemma_plain(query.secret@);
    lemma_plain(query.device_id@);
    law_the_groups_are_counted(old(groups));
    let secret = query.secret@;
    if r is Ok {
        let h = final(groups)@[secret];
        let before = if old(groups)@.dom().contains(secret) {
            views(old(groups)@[secret].streams@)
        } else {
            Seq::empty()
        };
        assert(views(h.streams@).drop_last() =~= before);
        assert(views(h.streams@)[before.len() as int] == query.device_id@);
    }
}

/// A listener that joins follows its group from then on, and changes nothing else: no device and
/// not what plays, and nobody is told. It is refused as a device is.
pub proof fn law_a_listener_joins_its_group<C>(
    groups: &mut Groups,
    query: &StreamQuery,
    r: Result<Joined<C>, Refusal>,
)
    requires
        call_ensures(Groups::stream_handler::<C>, (groups, query), r),
        old(groups).wf(),
        is_plain_id(query.secret@),
        is_plain_id(query.device_id@),
        query.stream_type == StreamType::Listener,
    ensures
        others_kept(old(groups)@, final(groups)@, query.secret@),
        ({
            let secret = query.secret@;
            let id = query.device_id@;
            let there = old(groups)@.dom().contains(secret);
            let g = old(groups)@[secret];
            let h = final(groups)@[secret];
            match r {
                Ok(joined) => {
                    &&& final(groups)@.dom().contains(secret)
                    &&& views(h.listeners@).contains(id)
                    &&& views(h.listeners@).last() == id
                    &&& there ==> views(h.listeners@).drop_last() == views(g.listeners@)
                    &&& there ==> views(h.streams@) == views(g.streams@) && h.active_device@
                        == g.active_device@
                    &&& !there ==> h.streams@.len() == 0 && h.active_device@.len() == 0
                    &&& there ==> h.tracklist == g.tracklist && h.playback_status
                        == g.playback_status && h.position == g.position && h.volume == g.volume
                        && h.auto_play == g.auto_play
                    &&& joined.events@.len() == 0
                },
                Err(refusal) => {
                    &&& final(groups)@ == old(groups)@
                    &&& if there {
                        refusal == Refusal::Conflict && (views(g.streams@).contains(id) || views(
                            g.listeners@,
                        ).contains(id))
                    } else {
                        refusal == Refusal::TooManyRequests && old(groups)@.dom().len() >= 1_000
                    }
                },
            }
        }),
{
    lemma_plain(query.secret@);
    lemma_plain(query.device_id@);
    law_the_groups_are_counted(old(groups));
    let secret = query.secret@;
    if r is Ok {
        let h = final(groups)@[secret];
        let before = if old(groups)@.dom().contains(secret) {
            views(old(groups)@[secret].listeners@)
        } else {
            Seq::empty()
        };
        assert(views(h.listeners@).drop_last() =~= before);
        assert(views(h.listeners@)[before.len() as int] == query.device_id@);
        if !old(groups)@.dom().contains(secret) {
            assert(views(h.streams@).len() == h.streams@.len());
        }
    }
}

/// A group is made as it should be: nothing is queued, it is paused at the start and at full
/// volume, and does not go on by itself.
pub proof fn law_a_group_starts_fresh<C>(
    groups: &mut Groups,
    query: &StreamQuery,
    r: Result<Joined<C>, Refusal>,
)
    requires
        call_ensures(Groups::stream_handler::<C>, (groups, query), r),
        old(groups).wf(),
        is_plain_id(query.secret@),
        is_plain_id(query.device_id@),
        !old(groups)@.dom().contains(query.secret@),
        r is Ok,
    ensures
        ({
            let h = final(groups)@[query.secret@];
            &&& h.tracklist.items().len() == 0
            &&& h.tracklist.source() == TracklistType::Tracks
            &&& h.playback_status == Status::Paused
            &&& h.position == 0
            &&& h.volume.bits == 0x3f80_0000
            &&& !h.auto_play
        }),
{
    lemma_plain(query.secret@);
    lemma_plain(query.device_id@);
}

/// A device that leaves is gone and the other devices stay. Where it played, another one of those
/// that stay plays from then on, of which everyone is told; where it did not, the one that plays
/// goes on. The group ends only when nobody is left. Nothing else changes.
pub proof fn law_a_device_leaves_its_group<C>(
    groups: &mut Groups,
    secret: &str,
    client: &str,
    r: Vec<ServerEvent<C>>,
)
    requires
        call_ensures(Groups::leave::<C>, (groups, secret, client, StreamType::Device), r),
        old(groups).wf(),
        client@.len() > 0,
        old(groups)@.dom().contains(secret@),
    ensures
        others_kept(old(groups)@, final(groups)@, secret@),
        ({
            let g = old(groups)@[secret@];
            let h = final(groups)@[secret@];
            let stays = exists|id: Seq<char>|
                id != client@ && #[trigger] views(g.streams@).contains(id);
            &&& final(groups)@.dom().contains(secret@) <==> stays || g.listeners@.len() > 0
            &&& final(groups)@.dom().contains(secret@) ==> {
                &&& forall|id: Seq<char>| #[trigger]
                    views(h.streams@).contains(id) <==> views(g.streams@).contains(id) && id
                        != client@
                &&& h.listeners == g.listeners
                &&& h.tracklist == g.tracklist && h.playback_status == g.playback_status
                    && h.position == g.position && h.volume == g.volume && h.auto_play
                    == g.auto_play
                &&& g.active_device@ != client@ ==> h.active_device@ == g.active_device@ && r@.len()
                    == 1
                &&& g.active_device@ == client@ && stays ==> views(h.streams@).contains(
                    h.active_device@,
                ) && r@.len() == 2 && (r@[0] matches ServerEvent::ActiveDevice(told) && told@
                    == h.active_device@)
                &&& g.active_device@ == client@ && !stays ==> h.active_device@.len() == 0
                    && r@.len() == 1
                &&& r@.len() > 0
                &&& r@.last() matches ServerEvent::AvailableDevices(told) && views(told@) == views(
                    h.streams@,
                )
            }
        }),
{
    let g = old(groups)@[secret@];
    lemma_without_text(views(g.streams@), client@);
    let left = without_text(views(g.streams@), client@);
    let stays = exists|id: Seq<char>| id != client@ && #[trigger] views(g.streams@).contains(id);
    assert(stays <==> left.len() > 0) by {
        if left.len() > 0 {
            assert(left.contains(left[0]));
            assert(views(g.streams@).contains(left[0]));
        }
        if stays {
            let id = choose|id: Seq<char>|
                id != client@ && #[trigger] views(g.streams@).contains(id);
            assert(left.contains(id));
        }
    }
    if final(groups)@.dom().contains(secret@) {
        let h = final(groups)@[secret@];
        assert(views(h.streams@).len() == h.streams@.len());
        if left.len() > 0 {
            assert(left.contains(left[0]));
        }
    } else {
        let h = choose|h: Group| #[trigger]
            left_group(g, h, client@, StreamType::Device) && h.streams@.len() + h.listeners@.len()
                == 0;
        assert(views(h.streams@).len() == h.streams@.len());
    }
}

/// A listener that leaves is gone, and no device and nothing that plays changes; nobody is told.
/// The group ends only when nobody is left.
pub proof fn law_a_listener_leaves_its_group<C>(
    groups: &mut Groups,
    secret: &str,
    client: &str,
    r: Vec<ServerEvent<C>>,
)
    requires
        call_ensures(Groups::leave::<C>, (groups, secret, client, StreamType::Listener), r),
        old(groups).wf(),
        client@.len() > 0,
        old(groups)@.dom().contains(secret@),
    ensures
        others_kept(old(groups)@, final(groups)@, secret@),
        r@.len() == 0,
        ({
            let g = old(groups)@[secret@];
            let h = final(groups)@[secret@];
            let stays = exists|id: Seq<char>|
                id != client@ && #[trigger] views(g.listeners@).contains(id);
            &&& final(groups)@.dom().contains(secret@) <==> stays || g.streams@.len() > 0
            &&& final(groups)@.dom().contains(secret@) ==> {
                &&& forall|id: Seq<char>| #[trigger]
                    views(h.listeners@).contains(id) <==> views(g.listeners@).contains(id) && id
                        != client@
                &&& h.streams == g.streams && h.active_device == g.active_device
                &&& h.tracklist == g.tracklist && h.playback_status == g.playback_status
                    && h.position == g.position && h.volume == g.volume && h.auto_play
                    == g.auto_play
            }
        }),
{
    let g = old(groups)@[secret@];
    lemma_without_text(views(g.listeners@), client@);
    let left = without_text(views(g.listeners@), client@);
    let stays = exists|id: Seq<char>| id != client@ && #[trigger] views(g.listeners@).contains(id);
    assert(stays <==> left.len() > 0) by {
        if left.len() > 0 {
            assert(left.contains(left[0]));
            assert(views(g.listeners@).contains(left[0]));
        }
        if stays {
            let id = choose|id: Seq<char>|
                id != client@ && #[trigger] views(g.listeners@).contains(id);
            assert(left.contains(id));
        }
    }
    if final(groups)@.dom().contains(secret@) {
        let h = final(groups)@[secret@];
        assert(views(h.listeners@).len() == h.listeners@.len());
    } else {
        let h = choose|h: Group| #[trigger]
            left_group(g, h, client@, StreamType::Listener) && h.streams@.len() + h.listeners@.len()
                == 0;
        assert(views(h.listeners@).len() == h.listeners@.len());
    }
}

/// What the device that plays says of its queue is what everyone is told, and what is known of the
/// group from then on. Another device may not say it, and changes nothing.
pub proof fn law_a_tracklist_that_is_set_is_known<C>(
    groups: &mut Groups,
    auth: &AuthQuery,
    device: &DeviceRequest,
    tracklist: Tracklist,
    r: Result<ServerEvent<C>, Refusal>,
    after: &Groups,
    state: Result<DisconnectState, Refusal>,
)
    requires
        call_ensures(Groups::set_tracklist::<C>, (groups, auth, device, tracklist), r),
        call_ensures(Groups::get_state, (after, auth), state),
        old(groups).wf(),
        *after == *final(groups),
        is_plain_id(auth.secret@),
        is_plain_id(device.device_id@),
    ensures
        r is Ok <==> plays_in(old(groups)@, auth.secret@, device.device_id@),
        r is Err ==> final(groups)@ == old(groups)@ && r->Err_0 == Refusal::Forbidden,
        r matches Ok(event) ==> {
            &&& event matches ServerEvent::Tracklist(told) && told.items() == tracklist.items()
            &&& state matches Ok(known) && known.tracklist.items() == tracklist.items()
            &&& others_kept(old(groups)@, final(groups)@, auth.secret@)
            &&& final(groups)@[auth.secret@] == (Group {
                tracklist,
                ..old(groups)@[auth.secret@]
            })
        },
{
    lemma_plain(auth.secret@);
    lemma_plain(device.device_id@);
}

/// What the device that plays says of its status is what everyone is told, and what is known of the
/// group from then on. Another device may not say it, and changes nothing.
pub proof fn law_a_status_that_is_set_is_known<C>(
    groups: &mut Groups,
    auth: &AuthQuery,
    device: &DeviceRequest,
    status: Status,
    r: Result<ServerEvent<C>, Refusal>,
    after: &Groups,
    state: Result<DisconnectState, Refusal>,
)
    requires
        call_ensures(Groups::set_status::<C>, (groups, auth, device, status), r),
        call_ensures(Groups::get_state, (after, auth), state),
        old(groups).wf(),
        *after == *final(groups),
        is_plain_id(auth.secret@),
        is_plain_id(device.device_id@),
    ensures
        r is Ok <==> plays_in(old(groups)@, auth.secret@, device.device_id@),
        r is Err ==> final(groups)@ == old(groups)@ && r->Err_0 == Refusal::Forbidden,
        r matches Ok(event) ==> {
            &&& event == ServerEvent::<C>::Status(status)
            &&& state matches Ok(known) && known.playback_status == status
            &&& others_kept(old(groups)@, final(groups)@, auth.secret@)
            &&& final(groups)@[auth.secret@] == (Group {
                playback_status: status,
                ..old(groups)@[auth.secret@]
            })
        },
{
    lemma_plain(auth.secret@);
    lemma_plain(device.device_id@);
}

/// What the device that plays says of its position is what everyone is told, and what is known of
/// the group from then on. Another device may not say it, and changes nothing.
pub proof fn law_a_position_that_is_set_is_known<C>(
    groups: &mut Groups,
    auth: &AuthQuery,
    device: &DeviceRequest,
    position: u128,
    r: Result<ServerEvent<C>, Refusal>,
    after: &Groups,
    state: Result<DisconnectState, Refusal>,
)
    requires
        call_ensures(Groups::set_position::<C>, (groups, auth, device, position), r),
        call_ensures(Groups::get_state, (after, auth), state),
        old(groups).wf(),
        *after == *final(groups),
        is_plain_id(auth.secret@),
        is_plain_id(device.device_id@),
    ensures
        r is Ok <==> plays_in(old(groups)@, auth.secret@, device.device_id@),
        r is Err ==> final(groups)@ == old(groups)@ && r->Err_0 == Refusal::Forbidden,
        r matches Ok(event) ==> {
            &&& event == ServerEvent::<C>::Position(position)
            &&& state matches Ok(known) && known.position == position
            &&& others_kept(old(groups)@, final(groups)@, auth.secret@)
            &&& final(groups)@[auth.secret@] == (Group { position, ..old(groups)@[auth.secret@] })
        },
{
    lemma_plain(auth.secret@);
    lemma_plain(device.device_id@);
}

/// A volume from silence to full that the device that plays sets is what everyone is told, and what
/// is known of the group from then on. Any other volume is refused, as is any other device.
pub proof fn law_a_volume_that_is_set_is_known<C>(
    groups: &mut Groups,
    auth: &AuthQuery,
    device: &DeviceRequest,
    volume: Volume,
    r: Result<ServerEvent<C>, Refusal>,
    after: &Groups,
    state: Result<DisconnectState, Refusal>,
)
    requires
        call_ensures(Groups::set_volume::<C>, (groups, auth, device, volume), r),
        call_ensures(Groups::get_state, (after, auth), state),
        old(groups).wf(),
        *after == *final(groups),
        is_plain_id(auth.secret@),
        is_plain_id(device.device_id@),
    ensures
        ({
            let valid = volume.bits <= 0x3f80_0000 || volume.bits == 0x8000_0000;
            let plays = plays_in(old(groups)@, auth.secret@, device.device_id@);
            &&& r is Ok <==> valid && plays
            &&& r is Err ==> final(groups)@ == old(groups)@
            &&& !valid ==> r == Err::<ServerEvent<C>, Refusal>(Refusal::BadRequest)
            &&& valid && !plays ==> r == Err::<ServerEvent<C>, Refusal>(Refusal::Forbidden)
        }),
        r matches Ok(event) ==> {
            &&& event == ServerEvent::<C>::Volume(volume)
            &&& state matches Ok(known) && known.volume == volume
            &&& others_kept(old(groups)@, final(groups)@, auth.secret@)
            &&& final(groups)@[auth.secret@] == (Group { volume, ..old(groups)@[auth.secret@] })
        },
{
    lemma_plain(auth.secret@);
    lemma_plain(device.device_id@);
}

/// Whether the device that plays goes on by itself is what everyone is told, and what is known of
/// the group from then on. Another device may not say it, and changes nothing.
pub proof fn law_auto_play_that_is_set_is_known<C>(
    groups: &mut Groups,
    auth: &AuthQuery,
    device: &DeviceRequest,
    auto_play: bool,
    r: Result<ServerEvent<C>, Refusal>,
    after: &Groups,
    state: Result<DisconnectState, Refusal>,
)
    requires
        call_ensures(Groups::set_auto_play::<C>, (groups, auth, device, auto_play), r),
        call_ensures(Groups::get_state, (after, auth), state),
        old(groups).wf(),
        *after == *final(groups),
        is_plain_id(auth.secret@),
        is_plain_id(device.device_id@),
    ensures
        r is Ok <==> plays_in(old(groups)@, auth.secret@, device.device_id@),
        r is Err ==> final(groups)@ == old(groups)@ && r->Err_0 == Refusal::Forbidden,
        r matches Ok(event) ==> {
            &&& event == ServerEvent::<C>::AutoPlay(auto_play)
            &&& state matches Ok(known) && known.auto_play == auto_play
            &&& others_kept(old(groups)@, final(groups)@, auth.secret@)
            &&& final(groups)@[auth.secret@] == (Group { auto_play, ..old(groups)@[auth.secret@] })
        },
{
    lemma_plain(auth.secret@);
    lemma_plain(device.device_id@);
}

/// A device of the group that is made the one that plays is it from then on, of which everyone is
/// told where it is news; only a device of the group can be, and nothing else changes.
pub proof fn law_a_device_that_is_chosen_plays<C>(
    groups: &mut Groups,
    auth: &AuthQuery,
    request: &DeviceRequest,
    r: Result<Option<ServerEvent<C>>, Refusal>,
)
    requires
        call_ensures(Groups::set_active_device::<C>, (groups, auth, request), r),
        old(groups).wf(),
        is_plain_id(auth.secret@),
        is_plain_id(request.device_id@),
    ensures
        ({
            let secret = auth.secret@;
            let id = request.device_id@;
            let there = old(groups)@.dom().contains(secret);
            let g = old(groups)@[secret];
            let h = final(groups)@[secret];
            &&& r is Ok <==> there && views(g.streams@).contains(id)
            &&& !there ==> r == Err::<Option<ServerEvent<C>>, Refusal>(Refusal::NotFound)
            &&& r is Err ==> final(groups)@ == old(groups)@
            &&& r matches Ok(news) ==> {
                &&& plays_in(final(groups)@, secret, id)
                &&& others_kept(old(groups)@, final(groups)@, secret)
                &&& h == (Group { active_device: h.active_device, ..g })
                &&& news is Some <==> g.active_device@ != id
                &&& news matches Some(event)
                    ==> event matches ServerEvent::ActiveDevice(told) && told@ == id
            }
        }),
{
    lemma_plain(auth.secret@);
    lemma_plain(request.device_id@);
}

/// A listener, or a device that does not play, can command the device that plays; its command is
/// passed on as it is. No other client can.
pub proof fn law_a_command_is_passed_on<C>(
    groups: &Groups,
    auth: &AuthQuery,
    client: &DeviceRequest,
    command: C,
    r: Result<ServerEvent<C>, Refusal>,
)
    requires
        call_ensures(Groups::control::<C>, (groups, auth, client, command), r),
        groups.wf(),
        is_plain_id(auth.secret@),
        is_plain_id(client.device_id@),
    ensures
        ({
            let secret = auth.secret@;
            let id = client.device_id@;
            let g = groups@[secret];
            let there = groups@.dom().contains(secret);
            let may = views(g.listeners@).contains(id) || (views(g.streams@).contains(id)
                && g.active_device@ != id);
            &&& there && may ==> r == Ok::<ServerEvent<C>, Refusal>(ServerEvent::Control(command))
            &&& !there ==> r == Err::<ServerEvent<C>, Refusal>(Refusal::NotFound)
            &&& there && !may ==> r == Err::<ServerEvent<C>, Refusal>(Refusal::Forbidden)
        }),
{
    lemma_plain(auth.secret@);
    lemma_plain(client.device_id@);
}

/// A client sees the state of its group as it is.
pub proof fn law_a_client_sees_its_group(
    groups: &Groups,
    auth: &AuthQuery,
    r: Result<DisconnectState, Refusal>,
)
    requires
        call_ensures(Groups::get_state, (groups, auth), r),
        groups.wf(),
        is_plain_id(auth.secret@),
    ensures
        r is Ok <==> groups@.dom().contains(auth.secret@),
        r matches Err(refusal) ==> refusal == Refusal::NotFound,
        r matches Ok(state) ==> {
            let g = groups@[auth.secret@];
            &&& state.active_device@ == g.active_device@
            &&& views(state.available_devices@) == views(g.streams@)
            &&& state.playback_status == g.playback_status
            &&& state.tracklist.items() == g.tracklist.items()
            &&& state.tracklist.source() == g.tracklist.source()
            &&& state.position == g.position
            &&& state.volume == g.volume
            &&& state.auto_play == g.auto_play
        },
{
    lemma_plain(auth.secret@);
}

/// Sixty requests are served in ten seconds: with all that counts less than that ago, one more is
/// served exactly where there are fewer, and then counts; what counts under other names stays.
pub proof fn law_sixty_requests_are_served(
    limits: &mut RateLimits,
    key: &str,
    now: u128,
    r: bool,
    other: Seq<char>,
)
    requires
        call_ensures(RateLimits::allow, (limits, key, now), r),
        old(limits).wf(),
        old(limits).counted(key@).len() > 0 ==> now - old(limits).counted(key@)[0]
            <= 10_000_000_000,
        other != key@,
    ensures
        r <==> old(limits).counted(key@).len() < 60,
        final(limits).counted(key@) == if r {
            old(limits).counted(key@).push(now)
        } else {
            old(limits).counted(key@)
        },
        final(limits).counted(other) == old(limits).counted(other),
{
}

/// Requests that lie more than ten seconds back do not count: where all do, one more is served and
/// is the only one that counts.
pub proof fn law_old_requests_do_not_count(limits: &mut RateLimits, key: &str, now: u128, r: bool)
    requires
        call_ensures(RateLimits::allow, (limits, key, now), r),
        old(limits).wf(),
        forall|i: int|
            0 <= i < old(limits).counted(key@).len() ==> now - #[trigger] old(limits).counted(
                key@,
            )[i] > 10_000_000_000,
    ensures
        r,
        final(limits).counted(key@) == seq![now],
{
    lemma_none_recent(old(limits).counted(key@), now);
    assert(Seq::<u128>::empty().push(now) =~= seq![now]);
}

proof fn lemma_none_recent(times: Seq<u128>, now: u128)
    requires
        forall|i: int| 0 <= i < times.len() ==> now - #[trigger] times[i] > RATE_LIMIT_WINDOW,
    ensures
        recent(times, now) == Seq::<u128>::empty(),
    decreases times.len(),
{
    if times.len() > 0 {
        let rest = times.drop_first();
        assert forall|i: int| 0 <= i < rest.len() implies now - #[trigger] rest[i]
            > RATE_LIMIT_WINDOW by {
            assert(rest[i] == times[i + 1]);
        }
        lemma_none_recent(rest, now);
    } else {
        assert(times =~= Seq::empty());
    }
}

/// The requests of different groups are counted apart from each other, and apart from those that
/// name none.
pub proof fn law_groups_are_counted_apart(
    a: &str,
    b: &str,
    under_a: String,
    under_b: String,
    under_none: String,
)
    requires
        call_ensures(rate_limit_key, (Some(a),), under_a),
        call_ensures(rate_limit_key, (Some(b),), under_b),
        call_ensures(rate_limit_key, (None::<&str>,), under_none),
        is_plain_id(a@),
        is_plain_id(b@),
        a@ != b@,
    ensures
        under_a@ != under_b@,
        under_a@ != under_none@,
{
    lemma_plain(a@);
    lemma_plain(b@);
    reveal_strlit("secret:");
    reveal_strlit("global");
    let p = "secret:"@;
    assert((p + a@).skip(p.len() as int) =~= a@);
    assert((p + b@).skip(p.len() as int) =~= b@);
    assert((p + a@)[0] == 's');
    assert("global"@[0] == 'g');
}

/// What a request names is read as an id, and a request that names nothing is bad.
pub proof fn law_requests_are_read_by_their_ids(
    auth: &AuthQuery,
    secret: &str,
    read: String,
    r: Result<String, Refusal>,
    request: &DeviceRequest,
    device: &str,
    named: String,
    d: Result<String, Refusal>,
)
    requires
        auth.secret@ == secret@,
        call_ensures(sanitize_id, (secret,), read),
        call_ensures(sanitize_auth_query, (auth,), r),
        request.device_id@ == device@,
        call_ensures(sanitize_id, (device,), named),
        call_ensures(sanitize_device_request, (request,), d),
    ensures
        read@.len() > 0 ==> (r matches Ok(text) && text@ == read@),
        read@.len() == 0 ==> r == Err::<String, Refusal>(Refusal::BadRequest),
        named@.len() > 0 ==> (d matches Ok(text) && text@ == named@),
        named@.len() == 0 ==> d == Err::<String, Refusal>(Refusal::BadRequest),
{
}

/// Who asks for a stream is read by secret and device, each as an id, and gets the stream that was
/// asked for; without either the request is bad.
pub proof fn law_a_stream_is_read_by_its_ids(
    query: &StreamQuery,
    secret: &str,
    read: String,
    device: &str,
    named: String,
    r: Result<(String, String, StreamType), Refusal>,
)
    requires
        query.secret@ == secret@,
        call_ensures(sanitize_id, (secret,), read),
        query.device_id@ == device@,
        call_ensures(sanitize_id, (device,), named),
        call_ensures(sanitize_stream_query, (query,), r),
    ensures
        read@.len() > 0 && named@.len() > 0 ==> (r matches Ok(all) && all.0@ == read@ && all.1@
            == named@ && all.2 == query.stream_type),
        read@.len() == 0 || named@.len() == 0 ==> r == Err::<(String, String, StreamType), Refusal>(
            Refusal::BadRequest,
        ),
{
}

/// Secrets and the ids of devices are read in the same way.
pub proof fn law_secrets_are_read_like_ids(value: &str, read: String, secret: String, device: String)
    requires
        call_ensures(sanitize_id, (value,), read),
        call_ensures(sanitize_secret, (value,), secret),
        call_ensures(sanitize_device_id, (value,), device),
    ensures
        secret@ == read@,
        device@ == read@,
{
}

} // verus!

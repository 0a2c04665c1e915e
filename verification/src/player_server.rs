//! The plain server for shared players: a group comes into being with the first request that
//! names it, and the device that plays is chosen by request.
//!
//! Spans of time are in nanoseconds.

use vstd::prelude::*;
use crate::disconnect_server::Refusal;
use crate::models::Volume;
use crate::player_connect::PlayerStatus;
use crate::registry::Registry;
use crate::text::{contains_text, copy_texts, owned, remove_text, views, without_text};
use crate::tracklist::{QueueItem, Tracklist, TracklistType};

verus! {

/// The devices that share a player, and what it does.
pub struct PlayerGroup {
    pub streams: Vec<String>,
    pub current_device: Option<String>,
    pub tracklist: Tracklist,
    pub playback_status: PlayerStatus,
    pub position: u128,
    pub volume: Volume,
}

/// The state of a group as a client sees it.
pub struct PlayerGroupState {
    pub selected_device: Option<String>,
    pub available_devices: Vec<String>,
    pub playback_status: PlayerStatus,
    pub tracklist: Tracklist,
    pub position: u128,
    pub volume: Volume,
}

/// What a client of the plain server is told.
pub enum PlayerServerEvent<C> {
    Control(C),
    Tracklist(Tracklist),
    Status(PlayerStatus),
    Position(u128),
    Volume(Volume),
    ActiveDevice(String),
}

/// A group that nobody has changed yet.
pub open spec fn is_fresh(g: PlayerGroup) -> bool {
    &&& g.streams@.len() == 0
    &&& g.current_device is None
    &&& g.tracklist.items() == Seq::<QueueItem>::empty()
    &&& g.tracklist.source() == TracklistType::Tracks
    &&& g.tracklist.next_id() == 0
    &&& g.playback_status == PlayerStatus::Paused
    &&& g.position == 0
    &&& g.volume == (Volume { bits: 0x3f80_0000 })
}

/// The device is the one that plays.
pub open spec fn plays(groups: Map<Seq<char>, PlayerGroup>, secret: Seq<char>, id: Seq<char>) -> bool {
    groups.dom().contains(secret) && (groups[secret].current_device matches Some(device)
        && device@ == id)
}

/// The outcome of a request that only the device that plays may make.
pub open spec fn player_outcome(
    before: Map<Seq<char>, PlayerGroup>,
    after: Map<Seq<char>, PlayerGroup>,
    secret: Seq<char>,
    id: Seq<char>,
    refusal: Option<Refusal>,
    set: spec_fn(PlayerGroup) -> PlayerGroup,
) -> bool {
    if plays(before, secret, id) {
        refusal is None && after == before.insert(secret, set(before[secret]))
    } else {
        refusal == Some(Refusal::Forbidden) && after == before
    }
}

/// The group is there afterwards: as it was, or fresh.
pub open spec fn ensured(
    before: Map<Seq<char>, PlayerGroup>,
    after: Map<Seq<char>, PlayerGroup>,
    secret: Seq<char>,
) -> bool {
    &&& after.dom().contains(secret)
    &&& after == before.insert(secret, after[secret])
    &&& if before.dom().contains(secret) {
        after[secret] == before[secret]
    } else {
        is_fresh(after[secret])
    }
}

/// The groups by their secrets.
pub struct PlayerGroups {
    groups: Registry<PlayerGroup>,
}

impl PlayerGroups {
    /// The groups by their secrets.
    pub closed spec fn view(&self) -> Map<Seq<char>, PlayerGroup> {
        self.groups@
    }

    pub closed spec fn wf(&self) -> bool {
        self.groups.wf()
    }

    pub fn new() -> (r: Self)
        ensures
            r.wf(),
            r@ == Map::<Seq<char>, PlayerGroup>::empty(),
    {
        PlayerGroups { groups: Registry::new() }
    }

    /// Whether a group is there.
    pub fn contains(&self, secret: &str) -> (r: bool)
        requires
            self.wf(),
        ensures
            r == self@.dom().contains(secret@),
    {
        self.groups.contains(secret)
    }

    /// Makes a group where it is not there.
    pub fn ensure_group(&mut self, secret: &str)
        requires
            old(self).wf(),
        ensures
            final(self).wf(),
            ensured(old(self)@, final(self)@, secret@),
    {
        if !self.groups.contains(secret) {
            self.groups.put(
                secret,
                PlayerGroup {
                    streams: Vec::new(),
                    current_device: None,
                    tracklist: Tracklist::default(),
                    playback_status: PlayerStatus::Paused,
                    position: 0,
                    volume: Volume { bits: 0x3f80_0000 },
                },
            );
        }
        assert(self.groups@ =~= old(self)@.insert(secret@, self.groups@[secret@]));
    }

    pub fn is_active_device(&self, secret: &str, device_id: &str) -> (r: bool)
        requires
            self.wf(),
        ensures
            r == plays(self@, secret@, device_id@),
    {
        match self.groups.get(secret) {
            Some(group) => match &group.current_device {
                Some(device) => *device == owned(device_id),
                None => false,
            },
            None => false,
        }
    }

    pub fn get_state(&mut self, secret: &str) -> (r: PlayerGroupState)
        requires
            old(self).wf(),
        ensures
            final(self).wf(),
            ensured(old(self)@, final(self)@, secret@),
            ({
                let g = final(self)@[secret@];
                &&& r.selected_device == g.current_device
                &&& views(r.available_devices@) == views(g.streams@)
                &&& r.playback_status == g.playback_status
                &&& r.tracklist.items() == g.tracklist.items()
                &&& r.tracklist.source() == g.tracklist.source()
                &&& r.tracklist.next_id() == g.tracklist.next_id()
                &&& r.position == g.position
                &&& r.volume == g.volume
            }),
    {
        self.ensure_group(secret);
        match self.groups.get(secret) {
            Some(group) => PlayerGroupState {
                selected_device: crate::models::copy_text(&group.current_device),
                available_devices: copy_texts(&group.streams),
                playback_status: group.playback_status,
                tracklist: group.tracklist.clone(),
                position: group.position,
                volume: group.volume,
            },
            None => PlayerGroupState {
                selected_device: None,
                available_devices: Vec::new(),
                playback_status: PlayerStatus::Paused,
                tracklist: Tracklist::default(),
                position: 0,
                volume: Volume { bits: 0x3f80_0000 },
            },
        }
    }

    /// Passes on a command of a client that does not play itself.
    pub fn control<C>(&mut self, secret: &str, device_id: &str, command: C) -> (r: Result<
        PlayerServerEvent<C>,
        Refusal,
    >)
        requires
            old(self).wf(),
        ensures
            final(self).wf(),
            match r {
                Ok(event) => {
                    &&& !plays(old(self)@, secret@, device_id@)
                    &&& ensured(old(self)@, final(self)@, secret@)
                    &&& event == PlayerServerEvent::Control(command)
                },
                Err(refusal) => {
                    &&& plays(old(self)@, secret@, device_id@)
                    &&& refusal == Refusal::Forbidden
                    &&& final(self)@ == old(self)@
                },
            },
    {
        if self.is_active_device(secret, device_id) {
            return Err(Refusal::Forbidden);
        }
        self.ensure_group(secret);
        Ok(PlayerServerEvent::Control(command))
    }

    /// Makes a device the one that plays.
    pub fn set_current_device<C>(&mut self, secret: &str, device_id: &str) -> (r: PlayerServerEvent<
        C,
    >)
        requires
            old(self).wf(),
        ensures
            final(self).wf(),
            r matches PlayerServerEvent::ActiveDevice(device) && device@ == device_id@,
            final(self)@.dom().contains(secret@),
            final(self)@ == old(self)@.insert(secret@, final(self)@[secret@]),
            ({
                let h = final(self)@[secret@];
                &&& h.current_device matches Some(device) && device@ == device_id@
                &&& if old(self)@.dom().contains(secret@) {
                    h == (PlayerGroup {
                        current_device: h.current_device,
                        ..old(self)@[secret@]
                    })
                } else {
                    is_fresh(PlayerGroup { current_device: None, ..h })
                }
            }),
    {
        self.ensure_group(secret);
        if let Some(mut group) = self.groups.take(secret) {
            group.current_device = Some(owned(device_id));
            self.groups.put(secret, group);
            assert(self.groups@ =~= old(self)@.insert(secret@, group));
        }
        PlayerServerEvent::ActiveDevice(owned(device_id))
    }

    pub fn set_tracklist<C>(&mut self, secret: &str, device_id: &str, tracklist: Tracklist) -> (r:
        Result<PlayerServerEvent<C>, Refusal>)
        requires
            old(self).wf(),
        ensures
            final(self).wf(),
            player_outcome(
                old(self)@,
                final(self)@,
                secret@,
                device_id@,
                crate::disconnect_server::refusal_of(r),
                |g: PlayerGroup| PlayerGroup { tracklist, ..g },
            ),
            r matches Ok(event) ==> event matches PlayerServerEvent::Tracklist(told)
                && told.items() == tracklist.items() && told.source() == tracklist.source()
                && told.next_id() == tracklist.next_id(),
    {
        if !self.is_active_device(secret, device_id) {
            return Err(Refusal::Forbidden);
        }
        let told = tracklist.clone();
        if let Some(mut group) = self.groups.take(secret) {
            group.tracklist = tracklist;
            self.groups.put(secret, group);
            assert(self.groups@ =~= old(self)@.insert(secret@, group));
        }
        Ok(PlayerServerEvent::Tracklist(told))
    }

    pub fn set_status<C>(&mut self, secret: &str, device_id: &str, status: PlayerStatus) -> (r:
        Result<PlayerServerEvent<C>, Refusal>)
        requires
            old(self).wf(),
        ensures
            final(self).wf(),
            player_outcome(
                old(self)@,
                final(self)@,
                secret@,
                device_id@,
                crate::disconnect_server::refusal_of(r),
                |g: PlayerGroup| PlayerGroup { playback_status: status, ..g },
            ),
            r matches Ok(event) ==> event == PlayerServerEvent::<C>::Status(status),
    {
        if !self.is_active_device(secret, device_id) {
            return Err(Refusal::Forbidden);
        }
        if let Some(mut group) = self.groups.take(secret) {
            group.playback_status = status;
            self.groups.put(secret, group);
            assert(self.groups@ =~= old(self)@.insert(secret@, group));
        }
        Ok(PlayerServerEvent::Status(status))
    }

    pub fn set_position<C>(&mut self, secret: &str, device_id: &str, position: u128) -> (r: Result<
        PlayerServerEvent<C>,
        Refusal,
    >)
        requires
            old(self).wf(),
        ensures
            final(self).wf(),
            player_outcome(
                old(self)@,
                final(self)@,
                secret@,
                device_id@,
                crate::disconnect_server::refusal_of(r),
                |g: PlayerGroup| PlayerGroup { position, ..g },
            ),
            r matches Ok(event) ==> event == PlayerServerEvent::<C>::Position(position),
    {
        if !self.is_active_device(secret, device_id) {
            return Err(Refusal::Forbidden);
        }
        if let Some(mut group) = self.groups.take(secret) {
            group.position = position;
            self.groups.put(secret, group);
            assert(self.groups@ =~= old(self)@.insert(secret@, group));
        }
        Ok(PlayerServerEvent::Position(position))
    }

    pub fn set_volume<C>(&mut self, secret: &str, device_id: &str, volume: Volume) -> (r: Result<
        PlayerServerEvent<C>,
        Refusal,
    >)
        requires
            old(self).wf(),
        ensures
            final(self).wf(),
            player_outcome(
                old(self)@,
                final(self)@,
                secret@,
                device_id@,
                crate::disconnect_server::refusal_of(r),
                |g: PlayerGroup| PlayerGroup { volume, ..g },
            ),
            r matches Ok(event) ==> event == PlayerServerEvent::<C>::Volume(volume),
    {
        if !self.is_active_device(secret, device_id) {
            return Err(Refusal::Forbidden);
        }
        if let Some(mut group) = self.groups.take(secret) {
            group.volume = volume;
            self.groups.put(secret, group);
            assert(self.groups@ =~= old(self)@.insert(secret@, group));
        }
        Ok(PlayerServerEvent::Volume(volume))
    }

    /// Lets a device join a group.
    pub fn stream_handler(&mut self, secret: &str, device_id: &str)
        requires
            old(self).wf(),
        ensures
            final(self).wf(),
            final(self)@.dom().contains(secret@),
            final(self)@ == old(self)@.insert(secret@, final(self)@[secret@]),
            ({
                let h = final(self)@[secret@];
                let streams = if old(self)@.dom().contains(secret@) {
                    views(old(self)@[secret@].streams@)
                } else {
                    Seq::empty()
                };
                &&& views(h.streams@) == if streams.contains(device_id@) {
                    streams
                } else {
                    streams.push(device_id@)
                }
                &&& if old(self)@.dom().contains(secret@) {
                    h == (PlayerGroup { streams: h.streams, ..old(self)@[secret@] })
                } else {
                    h.current_device is None && h.position == 0 && h.playback_status
                        == PlayerStatus::Paused && h.volume == (Volume { bits: 0x3f80_0000 })
                        && h.tracklist.items() == Seq::<QueueItem>::empty()
                        && h.tracklist.source() == TracklistType::Tracks && h.tracklist.next_id()
                        == 0
                }
            }),
    {
        self.ensure_group(secret);
        if let Some(mut group) = self.groups.take(secret) {
            let ghost streams = views(group.streams@);
            assert(!old(self)@.dom().contains(secret@) ==> streams =~= Seq::empty());
            if !contains_text(&group.streams, device_id) {
                group.streams.push(owned(device_id));
                assert(views(group.streams@) =~= streams.push(device_id@));
            }
            self.groups.put(secret, group);
            assert(self.groups@ =~= old(self)@.insert(secret@, group));
        }
    }

    /// Lets a device leave its group, which ends with its last device.
    pub fn leave(&mut self, secret: &str, device_id: &str)
        requires
            old(self).wf(),
        ensures
            final(self).wf(),
            if !old(self)@.dom().contains(secret@) {
                final(self)@ == old(self)@
            } else {
                let g = old(self)@[secret@];
                let streams = without_text(views(g.streams@), device_id@);
                if streams.len() == 0 {
                    final(self)@ == old(self)@.remove(secret@)
                } else {
                    let h = final(self)@[secret@];
                    &&& final(self)@ == old(self)@.insert(secret@, h)
                    &&& h == (PlayerGroup { streams: h.streams, ..g })
                    &&& views(h.streams@) == streams
                }
            },
    {
        if let Some(mut group) = self.groups.take(secret) {
            remove_text(&mut group.streams, device_id);
            assert(views(group.streams@).len() == group.streams@.len());
            if group.streams.len() > 0 {
                self.groups.put(secret, group);
                assert(self.groups@ =~= old(self)@.insert(secret@, group));
            }
        }
    }

    /// Whether a device is told of an event: commands go to the device that plays, what it does
    /// goes to all others, and which device plays is told to everyone.
    pub fn should_send<C>(&self, secret: &str, device_id: &str, event: &PlayerServerEvent<C>) -> (r:
        bool)
        requires
            self.wf(),
        ensures
            r == match event {
                PlayerServerEvent::Control(_) => plays(self@, secret@, device_id@),
                PlayerServerEvent::ActiveDevice(_) => true,
                _ => !plays(self@, secret@, device_id@),
            },
    {
        let is_active: bool = self.is_active_device(secret, device_id);
        match event {
            PlayerServerEvent::Control(_) => is_active,
            PlayerServerEvent::ActiveDevice(_) => true,
            _ => !is_active,
        }
    }
}

} // verus!

//! What the desktop is told of the track that plays. Positions are in nanoseconds.

use vstd::prelude::*;
use crate::models::{copy_text, Status};
use crate::sequences::first_match;
use crate::tracklist::{playing, position_of_playing, QueueItem, Tracklist};

verus! {

/// A change of the position by more than this is a jump.
pub const JUMP: u128 = 3_000_000_000;

/// What the desktop shows.
#[derive(Debug, PartialEq)]
pub struct NowPlaying {
    pub title: String,
    pub artist: Option<String>,
    pub album: Option<String>,
    pub duration_seconds: u32,
    pub elapsed: u128,
    pub status: Status,
    pub artwork_url: Option<String>,
    pub queue_index: u64,
    pub queue_count: u64,
}

/// The state that the desktop shows.
#[derive(Clone, Copy, Debug, PartialEq, Eq, Structural)]
pub enum PlaybackState {
    Playing,
    Paused,
    Stopped,
}

/// What the desktop shows of a queue, where one of its tracks plays.
pub open spec fn shown(queue: Seq<QueueItem>, elapsed: u128, status: Status) -> Option<NowPlaying> {
    match first_match(queue, playing()) {
        Some(i) => Some(
            NowPlaying {
                title: queue[i].track.title,
                artist: queue[i].track.artist_name,
                album: queue[i].track.album_title,
                duration_seconds: queue[i].track.duration_seconds,
                elapsed,
                status,
                artwork_url: queue[i].track.image,
                queue_index: position_of_playing(queue) as u64,
                queue_count: queue.len() as u64,
            },
        ),
        None => None,
    }
}

pub fn build_now_playing(tracklist: &Tracklist, elapsed: u128, status: Status) -> (r: Option<
    NowPlaying,
>)
    ensures
        r == shown(tracklist.items(), elapsed, status),
{
    match tracklist.current_track() {
        Some(track) => Some(
            NowPlaying {
                title: track.title.clone(),
                artist: copy_text(&track.artist_name),
                album: copy_text(&track.album_title),
                duration_seconds: track.duration_seconds,
                elapsed,
                status,
                artwork_url: copy_text(&track.image),
                queue_index: tracklist.current_position() as u64,
                queue_count: tracklist.total() as u64,
            },
        ),
        None => None,
    }
}

impl NowPlaying {
    /// Whether time passes: it does only while the track plays.
    pub fn is_running(&self) -> (r: bool)
        ensures
            r == (self.status == Status::Playing),
    {
        match self.status {
            Status::Playing => true,
            Status::Buffering | Status::Paused => false,
        }
    }
}

/// The state that the desktop shows.
pub fn playback_state(now_playing: Option<&NowPlaying>) -> (r: PlaybackState)
    ensures
        r == match now_playing {
            Some(shown) => if shown.status == Status::Paused {
                PlaybackState::Paused
            } else {
                PlaybackState::Playing
            },
            None => PlaybackState::Stopped,
        },
{
    match now_playing {
        Some(shown) => match shown.status {
            Status::Playing | Status::Buffering => PlaybackState::Playing,
            Status::Paused => PlaybackState::Paused,
        },
        None => PlaybackState::Stopped,
    }
}

/// What the desktop shows, and the last position of the player.
pub struct NowPlayingCenter {
    pub current: Option<NowPlaying>,
    pub last_position: u128,
}

impl NowPlayingCenter {
    /// The start: what is shown, which is pushed where a track plays.
    pub fn new(tracklist: &Tracklist, position: u128, status: Status) -> (r: Self)
        ensures
            r.current == shown(tracklist.items(), position, status),
            r.last_position == position,
    {
        NowPlayingCenter {
            current: build_now_playing(tracklist, position, status),
            last_position: position,
        }
    }

    /// The queue has changed: what is shown is made anew, and pushed.
    pub fn tracklist_changed(&mut self, tracklist: &Tracklist, position: u128, status: Status)
        ensures
            final(self).current == shown(tracklist.items(), position, status),
            final(self).last_position == old(self).last_position,
    {
        self.current = build_now_playing(tracklist, position, status);
    }

    /// The status has changed. Returns whether what is shown is to be pushed.
    pub fn status_changed(&mut self, status: Status, position: u128) -> (r: bool)
        ensures
            final(self).last_position == old(self).last_position,
            r == old(self).current is Some,
            final(self).current == (match old(self).current {
                Some(known) => Some(NowPlaying { status, elapsed: position, ..known }),
                None => None,
            }),
    {
        match self.current.take() {
            Some(mut known) => {
                known.status = status;
                known.elapsed = position;
                self.current = Some(known);
                true
            },
            None => false,
        }
    }

    /// The position has changed. Returns whether what is shown is to be pushed: only a jump is,
    /// as the desktop counts on by itself.
    pub fn position_changed(&mut self, position: u128) -> (r: bool)
        ensures
            final(self).last_position == position,
            ({
                let apart = if position > old(self).last_position {
                    position - old(self).last_position
                } else {
                    old(self).last_position - position
                };
                &&& r == (apart > JUMP && old(self).current is Some)
                &&& final(self).current == (match old(self).current {
                    Some(known) => Some(
                        if r {
                            NowPlaying { elapsed: position, ..known }
                        } else {
                            known
                        },
                    ),
                    None => None,
                })
            }),
    {
        let apart: u128 = if position > self.last_position {
            position - self.last_position
        } else {
            self.last_position - position
        };
        self.last_position = position;
        if apart <= JUMP {
            return false;
        }
        match self.current.take() {
            Some(mut known) => {
                known.elapsed = position;
                self.current = Some(known);
                true
            },
            None => false,
        }
    }
}

/// Whether the artwork at `url` has to be fetched: it is not the one that is kept.
pub fn needs_artwork(kept_url: &Option<String>, url: &str) -> (r: bool)
    ensures
        r == !(kept_url matches Some(kept) && kept@ == url@),
{
    match kept_url {
        Some(kept) => *kept != crate::text::owned(url),
        None => true,
    }
}

} // verus!

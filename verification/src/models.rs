//! The catalogue as the player knows it.

use vstd::prelude::*;

verus! {

/// Where a queued track stands in playback.
#[derive(Clone, Copy, Debug, PartialEq, Eq, Structural)]
pub enum TrackStatus {
    Played,
    Playing,
    Unplayed,
}

/// What the player is doing.
#[derive(Clone, Copy, Debug, PartialEq, Eq, Structural)]
pub enum Status {
    Playing,
    Buffering,
    Paused,
}

impl Default for Status {
    fn default() -> (r: Status)
        ensures
            r == Status::Paused,
    {
        Status::Paused
    }
}

/// The best quality that tracks are streamed in.
#[derive(Clone, Copy, Debug, PartialEq, Eq, Structural)]
pub enum AudioQuality {
    Mp3,
    CD,
    HIFI96,
    HIFI192,
}

/// A volume between silence and full, as the IEEE 754 pattern of a single-precision number.
#[derive(Clone, Copy, Debug, PartialEq, Eq, Structural)]
pub struct Volume {
    pub bits: u32,
}

/// A copy of an optional text.
pub fn copy_text(text: &Option<String>) -> (r: Option<String>)
    ensures
        r == *text,
{
    match text {
        Some(value) => Some(value.clone()),
        None => None,
    }
}

/// A track, with what a catalogue entry says of it and where it stands in playback.
///
/// `sampling_rate` is the IEEE 754 pattern of the rate in kilohertz.
#[derive(Debug, PartialEq)]
pub struct Track {
    pub id: u32,
    pub title: String,
    pub number: u32,
    pub explicit: bool,
    pub hires_available: bool,
    pub available: bool,
    pub status: TrackStatus,
    pub image: Option<String>,
    pub image_thumbnail: Option<String>,
    pub duration_seconds: u32,
    pub artist_name: Option<String>,
    pub artist_id: Option<u32>,
    pub album_title: Option<String>,
    pub album_id: Option<String>,
    pub playlist_track_id: Option<u64>,
    pub bit_depth: Option<u32>,
    pub sampling_rate: Option<u32>,
    pub release_date: Option<String>,
    pub performers: Option<String>,
    pub copyright: Option<String>,
}

impl Clone for Track {
    fn clone(&self) -> (r: Track)
        ensures
            r == *self,
    {
        Track {
            id: self.id,
            title: self.title.clone(),
            number: self.number,
            explicit: self.explicit,
            hires_available: self.hires_available,
            available: self.available,
            status: self.status,
            image: copy_text(&self.image),
            image_thumbnail: copy_text(&self.image_thumbnail),
            duration_seconds: self.duration_seconds,
            artist_name: copy_text(&self.artist_name),
            artist_id: self.artist_id,
            album_title: copy_text(&self.album_title),
            album_id: copy_text(&self.album_id),
            playlist_track_id: self.playlist_track_id,
            bit_depth: self.bit_depth,
            sampling_rate: self.sampling_rate,
            release_date: copy_text(&self.release_date),
            performers: copy_text(&self.performers),
            copyright: copy_text(&self.copyright),
        }
    }
}

impl Default for Track {
    fn default() -> (r: Track)
        ensures
            r.id == 0,
            r.title@ == Seq::<char>::empty(),
            r.number == 0,
            !r.explicit && !r.hires_available && !r.available,
            r.status == TrackStatus::Unplayed,
            r.image is None && r.image_thumbnail is None,
            r.duration_seconds == 0,
            r.artist_name is None && r.artist_id is None,
            r.album_title is None && r.album_id is None,
            r.playlist_track_id is None,
            r.bit_depth is None && r.sampling_rate is None,
            r.release_date is None && r.performers is None && r.copyright is None,
    {
        Track {
            id: 0,
            title: String::new(),
            number: 0,
            explicit: false,
            hires_available: false,
            available: false,
            status: TrackStatus::Unplayed,
            image: None,
            image_thumbnail: None,
            duration_seconds: 0,
            artist_name: None,
            artist_id: None,
            album_title: None,
            album_id: None,
            playlist_track_id: None,
            bit_depth: None,
            sampling_rate: None,
            release_date: None,
            performers: None,
            copyright: None,
        }
    }
}

#[derive(Debug, PartialEq)]
pub struct Artist {
    pub id: u32,
    pub name: String,
    pub image: Option<String>,
}

impl Clone for Artist {
    fn clone(&self) -> (r: Artist)
        ensures
            r == *self,
    {
        Artist { id: self.id, name: self.name.clone(), image: copy_text(&self.image) }
    }
}

#[derive(Debug, PartialEq)]
pub struct AlbumSimple {
    pub id: String,
    pub title: String,
    pub artist: Artist,
    pub hires_available: bool,
    pub explicit: bool,
    pub available: bool,
    pub image: String,
    pub duration_seconds: u32,
    pub release_year: u32,
}

impl Clone for AlbumSimple {
    fn clone(&self) -> (r: AlbumSimple)
        ensures
            r == *self,
    {
        AlbumSimple {
            id: self.id.clone(),
            title: self.title.clone(),
            artist: self.artist.clone(),
            hires_available: self.hires_available,
            explicit: self.explicit,
            available: self.available,
            image: self.image.clone(),
            duration_seconds: self.duration_seconds,
            release_year: self.release_year,
        }
    }
}

/// An album. `sampling_rate` is the IEEE 754 pattern of the rate in kilohertz.
#[derive(Debug, PartialEq)]
pub struct Album {
    pub id: String,
    pub title: String,
    pub artist: Artist,
    pub total_tracks: u32,
    pub release_year: u32,
    pub hires_available: bool,
    pub explicit: bool,
    pub available: bool,
    pub tracks: Vec<Track>,
    pub image: String,
    pub image_thumbnail: String,
    pub duration_seconds: u32,
    pub description: Option<String>,
    pub bit_depth: Option<u32>,
    pub sampling_rate: Option<u32>,
    pub awards: Vec<String>,
    pub label: Option<String>,
}

#[derive(Debug, PartialEq)]
pub struct ArtistPage {
    pub id: u32,
    pub name: String,
    pub image: Option<String>,
    pub albums: Vec<AlbumSimple>,
    pub singles: Vec<AlbumSimple>,
    pub live: Vec<AlbumSimple>,
    pub compilations: Vec<AlbumSimple>,
    pub similar_artists: Vec<Artist>,
    pub top_tracks: Vec<Track>,
    pub description: Option<String>,
}

#[derive(Debug, PartialEq)]
pub struct Genre {
    pub name: String,
    pub id: u32,
}

/// Who owns a playlist.
#[derive(Debug, PartialEq)]
pub struct Owner {
    pub id: i64,
    pub name: String,
}

#[derive(Debug, PartialEq)]
pub struct Playlist {
    pub id: u32,
    pub is_owned: bool,
    pub title: String,
    pub duration_seconds: u32,
    pub image: Option<String>,
    pub tracks: Vec<Track>,
    pub owner: Owner,
}

#[derive(Debug, PartialEq)]
pub struct PlaylistSimple {
    pub id: u32,
    pub is_owned: bool,
    pub title: String,
    pub duration_seconds: u32,
    pub tracks_count: u32,
    pub image: Option<String>,
    pub owner: Owner,
}

impl Clone for PlaylistSimple {
    fn clone(&self) -> (r: PlaylistSimple)
        ensures
            r == *self,
    {
        PlaylistSimple {
            id: self.id,
            is_owned: self.is_owned,
            title: self.title.clone(),
            duration_seconds: self.duration_seconds,
            tracks_count: self.tracks_count,
            image: copy_text(&self.image),
            owner: Owner { id: self.owner.id, name: self.owner.name.clone() },
        }
    }
}

#[derive(Debug, PartialEq)]
pub struct PlaylistTag {
    pub slug: String,
    pub name: String,
}

#[derive(Debug, PartialEq)]
pub struct DiscoverPage {
    pub new_releases: Vec<AlbumSimple>,
    pub qobuzissims: Vec<AlbumSimple>,
    pub ideal_discography: Vec<AlbumSimple>,
    pub album_of_the_week: Vec<AlbumSimple>,
    pub most_streamed: Vec<AlbumSimple>,
    pub press_awards: Vec<AlbumSimple>,
    pub playlists: Vec<PlaylistSimple>,
    pub playlists_tags: Vec<PlaylistTag>,
}

#[derive(Debug, PartialEq)]
pub struct SearchResults {
    pub query: String,
    pub albums: Vec<Album>,
    pub artists: Vec<Artist>,
    pub playlists: Vec<Playlist>,
    pub tracks: Vec<Track>,
}

} // verus!

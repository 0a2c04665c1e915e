//! The catalogue as the streaming service describes it. Sampling rates are IEEE 754 patterns.

use vstd::prelude::*;
use crate::models::Owner;

verus! {

pub struct Image {
    pub large: String,
    pub small: String,
}

pub struct ArtistImage {
    pub large: String,
}

pub struct Artist {
    pub id: u32,
    pub name: String,
    pub image: Option<ArtistImage>,
}

pub struct FeaturedAlbum {
    pub id: String,
    pub title: String,
    pub artist: Artist,
    pub hires_streamable: bool,
    pub parental_warning: bool,
    pub streamable: bool,
    pub image: Image,
    pub duration: u32,
    pub release_date_original: String,
}

pub struct AlbumTrack {
    pub id: u32,
    pub title: String,
    pub track_number: u32,
    pub parental_warning: bool,
    pub hires_streamable: bool,
    pub streamable: bool,
    pub duration: u32,
    pub maximum_bit_depth: Option<u32>,
    pub maximum_sampling_rate: Option<u32>,
    pub performers: Option<String>,
    pub copyright: Option<String>,
}

pub struct AlbumTracks {
    pub items: Vec<AlbumTrack>,
}

pub struct Award {
    pub name: String,
}

pub struct Label {
    pub name: String,
}

pub struct Album {
    pub id: String,
    pub title: String,
    pub artist: Artist,
    pub tracks_count: u32,
    pub hires_streamable: bool,
    pub parental_warning: bool,
    pub streamable: bool,
    pub tracks: Option<AlbumTracks>,
    pub image: Image,
    pub duration: Option<u32>,
    pub description: Option<String>,
    pub maximum_bit_depth: Option<u32>,
    pub maximum_sampling_rate: Option<u32>,
    pub release_date_original: String,
    pub awards: Vec<Award>,
    pub label: Option<Label>,
}

pub struct SuggestionArtist {
    pub id: u32,
    pub name: Option<String>,
}

pub struct Rights {
    pub hires_streamable: bool,
    pub streamable: bool,
}

pub struct Dates {
    pub original: String,
}

pub struct AlbumSuggestion {
    pub id: String,
    pub title: String,
    pub artists: Option<Vec<SuggestionArtist>>,
    pub rights: Rights,
    pub parental_warning: bool,
    pub image: Image,
    pub duration: u32,
    pub dates: Dates,
}

pub struct ArtistName {
    pub display: String,
}

/// A picture of an artist, named by its hash.
pub struct Portrait {
    pub hash: String,
    pub format: String,
}

pub struct ArtistImages {
    pub portrait: Option<Portrait>,
}

pub struct Biography {
    pub content: String,
}

pub struct PhysicalSupport {
    pub track_number: u32,
}

pub struct TopTrackAlbum {
    pub id: String,
    pub title: String,
    pub image: Image,
}

pub struct TopTrack {
    pub id: u32,
    pub title: String,
    pub physical_support: PhysicalSupport,
    pub parental_warning: bool,
    pub rights: Rights,
    pub duration: u32,
    pub album: TopTrackAlbum,
}

pub struct ArtistPage {
    pub id: u32,
    pub name: ArtistName,
    pub images: ArtistImages,
    pub top_tracks: Vec<TopTrack>,
    pub biography: Option<Biography>,
}

pub struct Genre {
    pub name: String,
    pub id: u32,
}

pub struct Performer {
    pub id: u32,
    pub name: String,
}

pub struct TrackAlbum {
    pub id: String,
    pub title: String,
    pub artist: Artist,
    pub image: Image,
    pub release_date_original: String,
}

pub struct Track {
    pub id: u32,
    pub title: String,
    pub track_number: u32,
    pub duration: u32,
    pub parental_warning: bool,
    pub hires_streamable: bool,
    pub streamable: bool,
    pub performer: Option<Performer>,
    pub album: Option<TrackAlbum>,
    pub playlist_track_id: Option<u64>,
    pub maximum_bit_depth: Option<u32>,
    pub maximum_sampling_rate: Option<u32>,
    pub release_date_original: Option<String>,
    pub performers: Option<String>,
    pub copyright: Option<String>,
}

pub struct Tracks {
    pub items: Vec<Track>,
}

pub struct Playlist {
    pub id: u32,
    pub name: String,
    pub owner: Owner,
    pub duration: u32,
    pub tracks: Option<Tracks>,
    pub image_rectangle: Vec<String>,
    pub images300: Option<Vec<String>>,
}

pub struct PlaylistImage {
    pub rectangle: Option<String>,
}

pub struct PlaylistSimple {
    pub id: u32,
    pub name: String,
    pub owner: Owner,
    pub duration: u32,
    pub tracks_count: u32,
    pub image: PlaylistImage,
}

pub struct PlaylistTag {
    pub slug: String,
    pub name: String,
}

/// A list in its two wrappings.
pub struct Items<T> {
    pub items: Vec<T>,
}

pub struct Container<T> {
    pub data: Items<T>,
}

pub struct Containers {
    pub new_releases: Container<AlbumSuggestion>,
    pub qobuzissims: Container<AlbumSuggestion>,
    pub ideal_discography: Container<AlbumSuggestion>,
    pub album_of_the_week: Container<AlbumSuggestion>,
    pub most_streamed: Container<AlbumSuggestion>,
    pub press_awards: Container<AlbumSuggestion>,
    pub playlists: Container<PlaylistSimple>,
    pub playlists_tags: Container<PlaylistTag>,
}

pub struct Discover {
    pub containers: Containers,
}

pub struct SearchAllResults {
    pub query: String,
    pub albums: Items<Album>,
    pub artists: Items<Artist>,
    pub playlists: Items<Playlist>,
    pub tracks: Items<Track>,
}

} // verus!

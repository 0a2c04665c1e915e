//! From the catalogue as the service describes it to the catalogue as the player knows it.

use vstd::prelude::*;
use crate::html::{plain_text, sanitize_html};
use crate::models::{
    Album, AlbumSimple, Artist, ArtistPage, AudioQuality, DiscoverPage, Genre, Playlist,
    PlaylistSimple, PlaylistTag, SearchResults, Track, TrackStatus,
};
use crate::qobuz_models;
use crate::text::{owned, text_view};

verus! {

/// The year of a date in a format, where the text is such a date.
pub uninterp spec fn date_year(text: Seq<char>, format: Seq<char>) -> Option<i32>;

/// `time::Date::parse` with a format that `time::format_description` describes, and `Date::year`:
/// the year of the date that the text is. Which texts are dates in a format is left to the crate.
#[verifier::external_body]
fn parsed_year(text: &str, format: &str) -> (r: Option<i32>)
    ensures
        r == date_year(text@, format@),
{
    let format = time::format_description::parse_borrowed::<1>(format).ok()?;
    time::Date::parse(text, &format).ok().map(|date| date.year())
}

/// The year that a date counts as: none where it is no date or lies before our era.
pub open spec fn year_number(year: Option<i32>) -> u32 {
    match year {
        Some(year) => if year >= 0 {
            year as u32
        } else {
            0
        },
        None => 0,
    }
}

/// The year that a parsed date counts as.
pub fn year_or_zero(year: Option<i32>) -> (r: u32)
    ensures
        r == year_number(year),
{
    match year {
        Some(year) => if year >= 0 {
            year as u32
        } else {
            0
        },
        None => 0,
    }
}

/// The year of a release, whose date is written as year, month and day.
pub open spec fn release_year(date: Seq<char>) -> u32 {
    year_number(date_year(date, "[year]-[month]-[day]"@))
}

#[must_use]
pub fn extract_year(date_str: &str) -> (r: u32)
    ensures
        r == release_year(date_str@),
{
    year_or_zero(parsed_year(date_str, "[year]-[month]-[day]"))
}

/// The quality allows more than CD quality.
pub open spec fn allows_hires(max_audio_quality: AudioQuality) -> bool {
    max_audio_quality == AudioQuality::HIFI96 || max_audio_quality == AudioQuality::HIFI192
}

#[must_use]
pub fn hifi_available(track_has_hires_available: bool, max_audio_quality: &AudioQuality) -> (r: bool)
    ensures
        r == (track_has_hires_available && allows_hires(*max_audio_quality)),
{
    if !track_has_hires_available {
        return false;
    }
    match max_audio_quality {
        AudioQuality::Mp3 | AudioQuality::CD => false,
        AudioQuality::HIFI96 | AudioQuality::HIFI192 => true,
    }
}

/// The artist that an entry describes.
pub open spec fn artist_of(value: qobuz_models::Artist) -> Artist {
    Artist {
        id: value.id,
        name: value.name,
        image: match value.image {
            Some(image) => Some(image.large),
            None => None,
        },
    }
}

#[must_use]
pub fn parse_artist(value: qobuz_models::Artist) -> (r: Artist)
    ensures
        r == artist_of(value),
{
    Artist {
        id: value.id,
        name: value.name,
        image: match value.image {
            Some(image) => Some(image.large),
            None => None,
        },
    }
}

#[must_use]
pub fn parse_genre(value: qobuz_models::Genre) -> (r: Genre)
    ensures
        r == (Genre { name: value.name, id: value.id }),
{
    Genre { name: value.name, id: value.id }
}

#[must_use]
pub fn parse_featured_album(value: qobuz_models::FeaturedAlbum) -> (r: AlbumSimple)
    ensures
        r == (AlbumSimple {
            id: value.id,
            title: value.title,
            artist: artist_of(value.artist),
            hires_available: value.hires_streamable,
            explicit: value.parental_warning,
            available: value.streamable,
            image: value.image.large,
            duration_seconds: value.duration,
            release_year: release_year(value.release_date_original@),
        }),
{
    let release_year: u32 = extract_year(value.release_date_original.as_str());
    AlbumSimple {
        id: value.id,
        title: value.title,
        artist: parse_artist(value.artist),
        hires_available: value.hires_streamable,
        explicit: value.parental_warning,
        available: value.streamable,
        image: value.image.large,
        duration_seconds: value.duration,
        release_year,
    }
}

/// `r` is the album that a suggestion describes; an artist that is not named is unknown.
pub open spec fn is_suggested(
    r: AlbumSimple,
    s: qobuz_models::AlbumSuggestion,
    max_audio_quality: AudioQuality,
) -> bool {
    &&& r.id == s.id
    &&& r.title == s.title
    &&& r.hires_available == (s.rights.hires_streamable && allows_hires(max_audio_quality))
    &&& r.explicit == s.parental_warning
    &&& r.available == s.rights.streamable
    &&& r.image == s.image.large
    &&& r.duration_seconds == s.duration
    &&& r.release_year == release_year(s.dates.original@)
    &&& r.artist.image is None
    &&& match s.artists {
        Some(artists) => if artists@.len() > 0 {
            &&& r.artist.id == artists@[0].id
            &&& match artists@[0].name {
                Some(name) => r.artist.name == name,
                None => r.artist.name@ == "Unknown"@,
            }
        } else {
            r.artist.id == 0 && r.artist.name@ == "Unknown"@
        },
        None => r.artist.id == 0 && r.artist.name@ == "Unknown"@,
    }
}

#[must_use]
pub fn parse_album_simple(
    s: qobuz_models::AlbumSuggestion,
    max_audio_quality: &AudioQuality,
) -> (r: AlbumSimple)
    ensures
        is_suggested(r, s, *max_audio_quality),
{
    let (artist_id, artist_name): (u32, String) = match &s.artists {
        Some(artists) => if artists.len() > 0 {
            match &artists[0].name {
                Some(name) => (artists[0].id, name.clone()),
                None => (artists[0].id, owned("Unknown")),
            }
        } else {
            (0, owned("Unknown"))
        },
        None => (0, owned("Unknown")),
    };
    let release_year: u32 = extract_year(s.dates.original.as_str());
    AlbumSimple {
        id: s.id,
        title: s.title,
        artist: Artist { id: artist_id, name: artist_name, image: None },
        hires_available: hifi_available(s.rights.hires_streamable, max_audio_quality),
        explicit: s.parental_warning,
        available: s.rights.streamable,
        image: s.image.large,
        duration_seconds: s.duration,
        release_year,
    }
}

/// The track of an album.
pub open spec fn album_track(
    t: qobuz_models::AlbumTrack,
    album: qobuz_models::Album,
) -> Track {
    Track {
        id: t.id,
        title: t.title,
        number: t.track_number,
        explicit: t.parental_warning,
        hires_available: t.hires_streamable,
        available: t.streamable,
        status: TrackStatus::Unplayed,
        image: Some(album.image.large),
        image_thumbnail: Some(album.image.small),
        duration_seconds: t.duration,
        artist_name: Some(album.artist.name),
        artist_id: Some(album.artist.id),
        album_title: Some(album.title),
        album_id: Some(album.id),
        playlist_track_id: None,
        bit_depth: t.maximum_bit_depth,
        sampling_rate: t.maximum_sampling_rate,
        release_date: Some(album.release_date_original),
        performers: t.performers,
        copyright: t.copyright,
    }
}

/// `r` is the album that an entry describes.
pub open spec fn is_album(
    r: Album,
    value: qobuz_models::Album,
    max_audio_quality: AudioQuality,
) -> bool {
    let count = match value.tracks {
        Some(tracks) => tracks.items@.len(),
        None => 0,
    };
    &&& r.id == value.id
    &&& r.title == value.title
    &&& r.artist == artist_of(value.artist)
    &&& r.total_tracks == value.tracks_count
    &&& r.release_year == release_year(value.release_date_original@)
    &&& r.hires_available == (value.hires_streamable && allows_hires(max_audio_quality))
    &&& r.explicit == value.parental_warning
    &&& r.available == value.streamable
    &&& r.tracks@.len() == count
    &&& forall|i: int|
        0 <= i < count ==> #[trigger] r.tracks@[i] == album_track(value.tracks->0.items@[i], value)
    &&& r.image == value.image.large
    &&& r.image_thumbnail == value.image.small
    &&& r.duration_seconds == match value.duration {
        Some(duration) => duration,
        None => 0,
    }
    &&& text_view(r.description) == plain_text(text_view(value.description))
    &&& r.bit_depth == value.maximum_bit_depth
    &&& r.sampling_rate == value.maximum_sampling_rate
    &&& r.awards@.len() == value.awards@.len()
    &&& forall|i: int|
        0 <= i < r.awards@.len() ==> #[trigger] r.awards@[i] == value.awards@[i].name
    &&& r.label == match value.label {
        Some(label) => Some(label.name),
        None => None,
    }
}

/// A copy of an optional text.
fn copied(text: &Option<String>) -> (r: Option<String>)
    ensures
        r == *text,
{
    crate::models::copy_text(text)
}

#[must_use]
pub fn parse_album(value: qobuz_models::Album, max_audio_quality: &AudioQuality) -> (r: Album)
    ensures
        is_album(r, value, *max_audio_quality),
{
    let release_year: u32 = extract_year(value.release_date_original.as_str());
    let mut tracks: Vec<Track> = Vec::new();
    if let Some(listed) = &value.tracks {
        for i in 0..listed.items.len()
            invariant
                value.tracks == Some(*listed),
                tracks@.len() == i,
                forall|j: int|
                    0 <= j < i ==> #[trigger] tracks@[j] == album_track(listed.items@[j], value),
        {
            let t = &listed.items[i];
            tracks.push(
                Track {
                    id: t.id,
                    title: t.title.clone(),
                    number: t.track_number,
                    explicit: t.parental_warning,
                    hires_available: t.hires_streamable,
                    available: t.streamable,
                    status: TrackStatus::Unplayed,
                    image: Some(value.image.large.clone()),
                    image_thumbnail: Some(value.image.small.clone()),
                    duration_seconds: t.duration,
                    artist_name: Some(value.artist.name.clone()),
                    artist_id: Some(value.artist.id),
                    album_title: Some(value.title.clone()),
                    album_id: Some(value.id.clone()),
                    playlist_track_id: None,
                    bit_depth: t.maximum_bit_depth,
                    sampling_rate: t.maximum_sampling_rate,
                    release_date: Some(value.release_date_original.clone()),
                    performers: copied(&t.performers),
                    copyright: copied(&t.copyright),
                },
            );
        }
    }
    let mut awards: Vec<String> = Vec::new();
    for i in 0..value.awards.len()
        invariant
            awards@.len() == i,
            forall|j: int| 0 <= j < i ==> #[trigger] awards@[j] == value.awards@[j].name,
    {
        awards.push(value.awards[i].name.clone());
    }
    Album {
        id: value.id,
        title: value.title,
        artist: parse_artist(value.artist),
        total_tracks: value.tracks_count,
        release_year,
        hires_available: hifi_available(value.hires_streamable, max_audio_quality),
        explicit: value.parental_warning,
        available: value.streamable,
        tracks,
        image: value.image.large,
        image_thumbnail: value.image.small,
        duration_seconds: match value.duration {
            Some(duration) => duration,
            None => 0,
        },
        description: sanitize_html(value.description),
        bit_depth: value.maximum_bit_depth,
        sampling_rate: value.maximum_sampling_rate,
        awards,
        label: match value.label {
            Some(label) => Some(label.name),
            None => None,
        },
    }
}

/// The address of a portrait.
pub open spec fn portrait_url(value: qobuz_models::Portrait) -> Seq<char> {
    "https://static.qobuz.com/images/artists/covers/large/"@ + value.hash@ + "."@ + value.format@
}

pub fn image_to_string(value: &qobuz_models::Portrait) -> (r: String)
    ensures
        r@ == portrait_url(*value),
{
    owned("https://static.qobuz.com/images/artists/covers/large/").concat(
        value.hash.as_str(),
    ).concat(".").concat(value.format.as_str())
}

/// A top track of an artist.
pub open spec fn top_track(t: qobuz_models::TopTrack, artist: qobuz_models::ArtistPage) -> Track {
    Track {
        id: t.id,
        number: t.physical_support.track_number,
        title: t.title,
        explicit: t.parental_warning,
        hires_available: t.rights.hires_streamable,
        available: t.rights.streamable,
        status: TrackStatus::Unplayed,
        image: Some(t.album.image.large),
        image_thumbnail: Some(t.album.image.small),
        duration_seconds: t.duration,
        artist_name: Some(artist.name.display),
        artist_id: Some(artist.id),
        album_title: Some(t.album.title),
        album_id: Some(t.album.id),
        playlist_track_id: None,
        bit_depth: None,
        sampling_rate: None,
        release_date: None,
        performers: None,
        copyright: None,
    }
}

#[must_use]
pub fn parse_artist_page(
    artist: qobuz_models::ArtistPage,
    albums: Vec<AlbumSimple>,
    singles: Vec<AlbumSimple>,
    live: Vec<AlbumSimple>,
    compilations: Vec<AlbumSimple>,
    similar_artists: Vec<Artist>,
) -> (r: ArtistPage)
    ensures
        r.id == artist.id,
        r.name == artist.name.display,
        text_view(r.image) == (match artist.images.portrait {
            Some(portrait) => Some(portrait_url(portrait)),
            None => None,
        }),
        r.albums == albums,
        r.singles == singles,
        r.live == live,
        r.compilations == compilations,
        r.similar_artists == similar_artists,
        r.top_tracks@.len() == artist.top_tracks@.len(),
        forall|i: int|
            0 <= i < r.top_tracks@.len() ==> #[trigger] r.top_tracks@[i] == top_track(
                artist.top_tracks@[i],
                artist,
            ),
        text_view(r.description) == plain_text(
            match artist.biography {
                Some(biography) => Some(biography.content@),
                None => None,
            },
        ),
{
    let image = match &artist.images.portrait {
        Some(portrait) => Some(image_to_string(portrait)),
        None => None,
    };
    let mut top_tracks: Vec<Track> = Vec::new();
    for i in 0..artist.top_tracks.len()
        invariant
            top_tracks@.len() == i,
            forall|j: int|
                0 <= j < i ==> #[trigger] top_tracks@[j] == top_track(artist.top_tracks@[j], artist),
    {
        let t = &artist.top_tracks[i];
        top_tracks.push(
            Track {
                id: t.id,
                number: t.physical_support.track_number,
                title: t.title.clone(),
                explicit: t.parental_warning,
                hires_available: t.rights.hires_streamable,
                available: t.rights.streamable,
                status: TrackStatus::Unplayed,
                image: Some(t.album.image.large.clone()),
                image_thumbnail: Some(t.album.image.small.clone()),
                duration_seconds: t.duration,
                artist_name: Some(artist.name.display.clone()),
                artist_id: Some(artist.id),
                album_title: Some(t.album.title.clone()),
                album_id: Some(t.album.id.clone()),
                playlist_track_id: None,
                bit_depth: None,
                sampling_rate: None,
                release_date: None,
                performers: None,
                copyright: None,
            },
        );
    }
    ArtistPage {
        id: artist.id,
        name: artist.name.display,
        image,
        albums,
        singles,
        live,
        compilations,
        similar_artists,
        top_tracks,
        description: sanitize_html(
            match artist.biography {
                Some(biography) => Some(biography.content),
                None => None,
            },
        ),
    }
}

/// The artist of a track: its performer, or else the artist of its album.
pub open spec fn track_artist(value: qobuz_models::Track) -> Option<(u32, String)> {
    match value.performer {
        Some(performer) => Some((performer.id, performer.name)),
        None => match value.album {
            Some(album) => Some((album.artist.id, album.artist.name)),
            None => None,
        },
    }
}

/// The track that an entry describes.
pub open spec fn track_of(value: qobuz_models::Track, max_audio_quality: AudioQuality) -> Track {
    Track {
        id: value.id,
        number: value.track_number,
        title: value.title,
        duration_seconds: value.duration,
        explicit: value.parental_warning,
        hires_available: value.hires_streamable && allows_hires(max_audio_quality),
        available: value.streamable,
        status: TrackStatus::Unplayed,
        image: match value.album {
            Some(album) => Some(album.image.large),
            None => None,
        },
        image_thumbnail: match value.album {
            Some(album) => Some(album.image.small),
            None => None,
        },
        artist_name: match track_artist(value) {
            Some(artist) => Some(artist.1),
            None => None,
        },
        artist_id: match track_artist(value) {
            Some(artist) => Some(artist.0),
            None => None,
        },
        album_title: match value.album {
            Some(album) => Some(album.title),
            None => None,
        },
        album_id: match value.album {
            Some(album) => Some(album.id),
            None => None,
        },
        playlist_track_id: value.playlist_track_id,
        bit_depth: value.maximum_bit_depth,
        sampling_rate: value.maximum_sampling_rate,
        release_date: match value.release_date_original {
            Some(date) => Some(date),
            None => match value.album {
                Some(album) => Some(album.release_date_original),
                None => None,
            },
        },
        performers: value.performers,
        copyright: value.copyright,
    }
}

#[must_use]
pub fn parse_track(value: qobuz_models::Track, max_audio_quality: &AudioQuality) -> (r: Track)
    ensures
        r == track_of(value, *max_audio_quality),
{
    let (artist_id, artist_name): (Option<u32>, Option<String>) = match &value.performer {
        Some(performer) => (Some(performer.id), Some(performer.name.clone())),
        None => match &value.album {
            Some(album) => (Some(album.artist.id), Some(album.artist.name.clone())),
            None => (None, None),
        },
    };
    let release_date = match value.release_date_original {
        Some(date) => Some(date),
        None => match &value.album {
            Some(album) => Some(album.release_date_original.clone()),
            None => None,
        },
    };
    let (image, image_thumbnail, album_title, album_id): (
        Option<String>,
        Option<String>,
        Option<String>,
        Option<String>,
    ) = match value.album {
        Some(album) => (
            Some(album.image.large),
            Some(album.image.small),
            Some(album.title),
            Some(album.id),
        ),
        None => (None, None, None, None),
    };
    Track {
        id: value.id,
        number: value.track_number,
        title: value.title,
        duration_seconds: value.duration,
        explicit: value.parental_warning,
        hires_available: hifi_available(value.hires_streamable, max_audio_quality),
        available: value.streamable,
        status: TrackStatus::Unplayed,
        image,
        image_thumbnail,
        artist_name,
        artist_id,
        album_title,
        album_id,
        playlist_track_id: value.playlist_track_id,
        bit_depth: value.maximum_bit_depth,
        sampling_rate: value.maximum_sampling_rate,
        release_date,
        performers: value.performers,
        copyright: value.copyright,
    }
}

/// The tracks that entries describe.
fn parse_tracks(items: Vec<qobuz_models::Track>, max_audio_quality: &AudioQuality) -> (r: Vec<
    Track,
>)
    ensures
        r@ == items@.map_values(|t: qobuz_models::Track| track_of(t, *max_audio_quality)),
{
    let ghost all = items@;
    let mut r: Vec<Track> = Vec::new();
    for t in it: items
        invariant
            it.seq() == all,
            r@.len() == it.index(),
            forall|j: int|
                0 <= j < r@.len() ==> #[trigger] r@[j] == track_of(all[j], *max_audio_quality),
    {
        r.push(parse_track(t, max_audio_quality));
    }
    assert(r@ =~= all.map_values(|t: qobuz_models::Track| track_of(t, *max_audio_quality)));
    r
}

/// `r` is the playlist that an entry describes. Its picture is the first of its own, or else the
/// first of those of its albums.
pub open spec fn is_playlist(
    r: Playlist,
    playlist: qobuz_models::Playlist,
    user_id: i64,
    max_audio_quality: AudioQuality,
) -> bool {
    &&& r.id == playlist.id
    &&& r.is_owned == (user_id == playlist.owner.id)
    &&& r.title == playlist.name
    &&& r.duration_seconds == playlist.duration
    &&& r.owner == playlist.owner
    &&& r.image == (if playlist.image_rectangle@.len() > 0 {
        Some(playlist.image_rectangle@[0])
    } else {
        match playlist.images300 {
            Some(images) => if images@.len() > 0 {
                Some(images@[0])
            } else {
                None
            },
            None => None,
        }
    })
    &&& r.tracks@ == match playlist.tracks {
        Some(tracks) => tracks.items@.map_values(
            |t: qobuz_models::Track| track_of(t, max_audio_quality),
        ),
        None => Seq::<Track>::empty(),
    }
}

#[must_use]
pub fn parse_playlist(
    playlist: qobuz_models::Playlist,
    user_id: i64,
    max_audio_quality: &AudioQuality,
) -> (r: Playlist)
    ensures
        is_playlist(r, playlist, user_id, *max_audio_quality),
{
    let image = if playlist.image_rectangle.len() > 0 {
        Some(playlist.image_rectangle[0].clone())
    } else {
        match &playlist.images300 {
            Some(images) => if images.len() > 0 {
                Some(images[0].clone())
            } else {
                None
            },
            None => None,
        }
    };
    let tracks = match playlist.tracks {
        Some(tracks) => parse_tracks(tracks.items, max_audio_quality),
        None => Vec::new(),
    };
    Playlist {
        id: playlist.id,
        is_owned: user_id == playlist.owner.id,
        title: playlist.name,
        duration_seconds: playlist.duration,
        image,
        tracks,
        owner: playlist.owner,
    }
}

/// The playlist that a short entry describes.
pub open spec fn playlist_simple_of(
    playlist: qobuz_models::PlaylistSimple,
    user_id: i64,
) -> PlaylistSimple {
    PlaylistSimple {
        id: playlist.id,
        is_owned: user_id == playlist.owner.id,
        title: playlist.name,
        duration_seconds: playlist.duration,
        tracks_count: playlist.tracks_count,
        image: playlist.image.rectangle,
        owner: playlist.owner,
    }
}

#[must_use]
pub fn parse_playlist_simple(playlist: qobuz_models::PlaylistSimple, user_id: i64) -> (r:
    PlaylistSimple)
    ensures
        r == playlist_simple_of(playlist, user_id),
{
    PlaylistSimple {
        id: playlist.id,
        is_owned: user_id == playlist.owner.id,
        title: playlist.name,
        duration_seconds: playlist.duration,
        tracks_count: playlist.tracks_count,
        image: playlist.image.rectangle,
        owner: playlist.owner,
    }
}

/// `r` are the albums that suggestions describe, in order.
pub open spec fn are_suggested(
    r: Seq<AlbumSimple>,
    items: Seq<qobuz_models::AlbumSuggestion>,
    max_audio_quality: AudioQuality,
) -> bool {
    r.len() == items.len() && forall|i: int|
        0 <= i < r.len() ==> is_suggested(#[trigger] r[i], items[i], max_audio_quality)
}

fn parse_suggestions(
    container: qobuz_models::Container<qobuz_models::AlbumSuggestion>,
    max_audio_quality: &AudioQuality,
) -> (r: Vec<AlbumSimple>)
    ensures
        are_suggested(r@, container.data.items@, *max_audio_quality),
{
    let ghost all = container.data.items@;
    let mut r: Vec<AlbumSimple> = Vec::new();
    for s in it: container.data.items
        invariant
            it.seq() == all,
            r@.len() == it.index(),
            forall|j: int|
                0 <= j < r@.len() ==> is_suggested(#[trigger] r@[j], all[j], *max_audio_quality),
    {
        r.push(parse_album_simple(s, max_audio_quality));
    }
    r
}

#[must_use]
pub fn parse_discover(
    discover: qobuz_models::Discover,
    max_audio_quality: &AudioQuality,
    user_id: i64,
) -> (r: DiscoverPage)
    ensures
        ({
            let c = discover.containers;
            let q = *max_audio_quality;
            &&& are_suggested(r.new_releases@, c.new_releases.data.items@, q)
            &&& are_suggested(r.qobuzissims@, c.qobuzissims.data.items@, q)
            &&& are_suggested(r.ideal_discography@, c.ideal_discography.data.items@, q)
            &&& are_suggested(r.album_of_the_week@, c.album_of_the_week.data.items@, q)
            &&& are_suggested(r.most_streamed@, c.most_streamed.data.items@, q)
            &&& are_suggested(r.press_awards@, c.press_awards.data.items@, q)
            &&& r.playlists@ == c.playlists.data.items@.map_values(
                |p: qobuz_models::PlaylistSimple| playlist_simple_of(p, user_id),
            )
            &&& r.playlists_tags@ == c.playlists_tags.data.items@.map_values(
                |t: qobuz_models::PlaylistTag| PlaylistTag { slug: t.slug, name: t.name },
            )
        }),
{
    let containers = discover.containers;
    let ghost all = containers.playlists.data.items@;
    let mut playlists: Vec<PlaylistSimple> = Vec::new();
    for p in it: containers.playlists.data.items
        invariant
            it.seq() == all,
            playlists@.len() == it.index(),
            forall|j: int|
                0 <= j < playlists@.len() ==> #[trigger] playlists@[j] == playlist_simple_of(
                    all[j],
                    user_id,
                ),
    {
        playlists.push(parse_playlist_simple(p, user_id));
    }
    assert(playlists@ =~= all.map_values(
        |p: qobuz_models::PlaylistSimple| playlist_simple_of(p, user_id),
    ));
    let ghost tags = containers.playlists_tags.data.items@;
    let mut playlists_tags: Vec<PlaylistTag> = Vec::new();
    for t in it: containers.playlists_tags.data.items
        invariant
            it.seq() == tags,
            playlists_tags@.len() == it.index(),
            forall|j: int|
                0 <= j < playlists_tags@.len() ==> #[trigger] playlists_tags@[j] == (PlaylistTag {
                    slug: tags[j].slug,
                    name: tags[j].name,
                }),
    {
        playlists_tags.push(PlaylistTag { slug: t.slug, name: t.name });
    }
    assert(playlists_tags@ =~= tags.map_values(
        |t: qobuz_models::PlaylistTag| PlaylistTag { slug: t.slug, name: t.name },
    ));
    DiscoverPage {
        new_releases: parse_suggestions(containers.new_releases, max_audio_quality),
        qobuzissims: parse_suggestions(containers.qobuzissims, max_audio_quality),
        ideal_discography: parse_suggestions(containers.ideal_discography, max_audio_quality),
        album_of_the_week: parse_suggestions(containers.album_of_the_week, max_audio_quality),
        most_streamed: parse_suggestions(containers.most_streamed, max_audio_quality),
        press_awards: parse_suggestions(containers.press_awards, max_audio_quality),
        playlists,
        playlists_tags,
    }
}

pub fn parse_search_results(
    search_results: qobuz_models::SearchAllResults,
    user_id: i64,
    max_audio_quality: &AudioQuality,
) -> (r: SearchResults)
    ensures
        r.query == search_results.query,
        r.albums@.len() == search_results.albums.items@.len(),
        forall|i: int|
            0 <= i < r.albums@.len() ==> is_album(
                #[trigger] r.albums@[i],
                search_results.albums.items@[i],
                *max_audio_quality,
            ),
        r.artists@ == search_results.artists.items@.map_values(
            |a: qobuz_models::Artist| artist_of(a),
        ),
        r.playlists@.len() == search_results.playlists.items@.len(),
        forall|i: int|
            0 <= i < r.playlists@.len() ==> is_playlist(
                #[trigger] r.playlists@[i],
                search_results.playlists.items@[i],
                user_id,
                *max_audio_quality,
            ),
        r.tracks@ == search_results.tracks.items@.map_values(
            |t: qobuz_models::Track| track_of(t, *max_audio_quality),
        ),
{
    let ghost album_items = search_results.albums.items@;
    let mut albums: Vec<Album> = Vec::new();
    for a in it: search_results.albums.items
        invariant
            it.seq() == album_items,
            albums@.len() == it.index(),
            forall|j: int|
                0 <= j < albums@.len() ==> is_album(
                    #[trigger] albums@[j],
                    album_items[j],
                    *max_audio_quality,
                ),
    {
        albums.push(parse_album(a, max_audio_quality));
    }
    let ghost artist_items = search_results.artists.items@;
    let mut artists: Vec<Artist> = Vec::new();
    for a in it: search_results.artists.items
        invariant
            it.seq() == artist_items,
            artists@.len() == it.index(),
            forall|j: int|
                0 <= j < artists@.len() ==> #[trigger] artists@[j] == artist_of(artist_items[j]),
    {
        artists.push(parse_artist(a));
    }
    assert(artists@ =~= artist_items.map_values(|a: qobuz_models::Artist| artist_of(a)));
    let ghost playlist_items = search_results.playlists.items@;
    let mut playlists: Vec<Playlist> = Vec::new();
    for p in it: search_results.playlists.items
        invariant
            it.seq() == playlist_items,
            playlists@.len() == it.index(),
            forall|j: int|
                0 <= j < playlists@.len() ==> is_playlist(
                    #[trigger] playlists@[j],
                    playlist_items[j],
                    user_id,
                    *max_audio_quality,
                ),
    {
        playlists.push(parse_playlist(p, user_id, max_audio_quality));
    }
    SearchResults {
        query: search_results.query,
        albums,
        artists,
        playlists,
        tracks: parse_tracks(search_results.tracks.items, max_audio_quality),
    }
}

} // verus!

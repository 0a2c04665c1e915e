//! What the catalogue keeps of the entries that the service describes.

use vstd::prelude::*;
use crate::html::sanitize_html;
use crate::mapper::{
    date_year, extract_year, hifi_available, image_to_string, parse_album, parse_album_simple,
    parse_artist, parse_artist_page, parse_discover, parse_featured_album, parse_genre,
    parse_playlist, parse_playlist_simple, parse_search_results, parse_track, year_or_zero,
};
use crate::models::{
    Album, AlbumSimple, Artist, ArtistPage, AudioQuality, DiscoverPage, Genre, Playlist,
    PlaylistSimple, SearchResults, Track, TrackStatus,
};
use crate::qobuz_models;
use crate::text::text_view;

verus! {

/// A track is its performer's, whatever album it is on.
pub proof fn law_a_track_is_its_performers(
    value: qobuz_models::Track,
    quality: &AudioQuality,
    r: Track,
    performer: qobuz_models::Performer,
)
    requires
        call_ensures(parse_track, (value, quality), r),
        value.performer == Some(performer),
    ensures
        r.artist_id == Some(performer.id),
        r.artist_name == Some(performer.name),
{
}

/// A track without a performer is by the artist of its album, and by nobody where it is on none.
pub proof fn law_a_track_without_performer_is_its_albums(
    value: qobuz_models::Track,
    quality: &AudioQuality,
    r: Track,
)
    requires
        call_ensures(parse_track, (value, quality), r),
        value.performer is None,
    ensures
        value.album matches Some(album) ==> r.artist_id == Some(album.artist.id) && r.artist_name
            == Some(album.artist.name),
        value.album is None ==> r.artist_id is None && r.artist_name is None,
{
}

/// A track keeps what its entry says of it, has not been played, and takes its pictures and the
/// album it is on from its album, where it has one.
pub proof fn law_a_track_keeps_its_entry(
    value: qobuz_models::Track,
    quality: &AudioQuality,
    r: Track,
)
    requires
        call_ensures(parse_track, (value, quality), r),
    ensures
        r.id == value.id,
        r.title == value.title,
        r.number == value.track_number,
        r.duration_seconds == value.duration,
        r.explicit == value.parental_warning,
        r.available == value.streamable,
        r.status == TrackStatus::Unplayed,
        r.playlist_track_id == value.playlist_track_id,
        r.bit_depth == value.maximum_bit_depth,
        r.sampling_rate == value.maximum_sampling_rate,
        r.performers == value.performers,
        r.copyright == value.copyright,
        value.album matches Some(album) ==> r.image == Some(album.image.large) && r.image_thumbnail
            == Some(album.image.small) && r.album_title == Some(album.title) && r.album_id == Some(
            album.id,
        ),
        value.album is None ==> r.image is None && r.image_thumbnail is None && r.album_title is None
            && r.album_id is None,
{
}

/// A track is released when its own entry says so, and only else when its album was.
pub proof fn law_a_track_has_its_own_release_date(
    value: qobuz_models::Track,
    quality: &AudioQuality,
    r: Track,
)
    requires
        call_ensures(parse_track, (value, quality), r),
    ensures
        value.release_date_original is Some ==> r.release_date == value.release_date_original,
        value.release_date_original is None && value.album is Some ==> r.release_date == Some(
            value.album->0.release_date_original,
        ),
        value.release_date_original is None && value.album is None ==> r.release_date is None,
{
}

/// A track, an album or a suggestion counts as high resolution where it is to be had so and the
/// quality is beyond that of a CD.
pub proof fn law_high_resolution_takes_both(
    offered: bool,
    quality: &AudioQuality,
    r: bool,
    entry: qobuz_models::Track,
    track: Track,
    album_entry: qobuz_models::Album,
    album: Album,
    suggestion: qobuz_models::AlbumSuggestion,
    suggested: AlbumSimple,
)
    requires
        call_ensures(hifi_available, (offered, quality), r),
        call_ensures(parse_track, (entry, quality), track),
        call_ensures(parse_album, (album_entry, quality), album),
        call_ensures(parse_album_simple, (suggestion, quality), suggested),
    ensures
        ({
            let beyond = *quality != AudioQuality::Mp3 && *quality != AudioQuality::CD;
            &&& r <==> offered && beyond
            &&& track.hires_available <==> entry.hires_streamable && beyond
            &&& album.hires_available <==> album_entry.hires_streamable && beyond
            &&& suggested.hires_available <==> suggestion.rights.hires_streamable && beyond
        }),
{
}

/// A date counts as its year, and as no year where it is none or lies before our era.
pub proof fn law_a_date_counts_as_its_year(year: Option<i32>, r: u32, date: &str, of: u32)
    requires
        call_ensures(year_or_zero, (year,), r),
        call_ensures(extract_year, (date,), of),
        year == date_year(date@, "[year]-[month]-[day]"@),
    ensures
        of == r,
        year matches Some(y) ==> (if y >= 0 {
            r == y
        } else {
            r == 0
        }),
        year is None ==> r == 0,
{
}

/// An artist keeps id and name, and the large one of the pictures.
pub proof fn law_an_artist_keeps_its_entry(value: qobuz_models::Artist, r: Artist)
    requires
        call_ensures(parse_artist, (value,), r),
    ensures
        r.id == value.id,
        r.name == value.name,
        value.image matches Some(image) ==> r.image == Some(image.large),
        value.image is None ==> r.image is None,
{
}

/// A genre keeps its name and its id.
pub proof fn law_a_genre_keeps_its_entry(value: qobuz_models::Genre, r: Genre)
    requires
        call_ensures(parse_genre, (value,), r),
    ensures
        r.id == value.id,
        r.name == value.name,
{
}

/// A featured album keeps what its entry says of it.
pub proof fn law_a_featured_album_keeps_its_entry(
    value: qobuz_models::FeaturedAlbum,
    r: AlbumSimple,
    artist: Artist,
    date: &str,
    year: u32,
)
    requires
        call_ensures(parse_featured_album, (value,), r),
        call_ensures(parse_artist, (value.artist,), artist),
        date@ == value.release_date_original@,
        call_ensures(extract_year, (date,), year),
    ensures
        r.id == value.id,
        r.title == value.title,
        r.artist == artist,
        r.hires_available == value.hires_streamable,
        r.explicit == value.parental_warning,
        r.available == value.streamable,
        r.image == value.image.large,
        r.duration_seconds == value.duration,
        r.release_year == year,
{
}

/// A suggested album keeps what its entry says of it, with the first of its artists.
pub proof fn law_a_suggestion_keeps_its_entry(
    value: qobuz_models::AlbumSuggestion,
    quality: &AudioQuality,
    r: AlbumSimple,
    date: &str,
    year: u32,
)
    requires
        call_ensures(parse_album_simple, (value, quality), r),
        date@ == value.dates.original@,
        call_ensures(extract_year, (date,), year),
    ensures
        r.id == value.id,
        r.title == value.title,
        r.explicit == value.parental_warning,
        r.available == value.rights.streamable,
        r.image == value.image.large,
        r.duration_seconds == value.duration,
        r.release_year == year,
        r.artist.image is None,
        value.artists matches Some(artists) ==> (artists@.len() > 0 ==> r.artist.id
            == artists@[0].id && (artists@[0].name is Some ==> r.artist.name
            == artists@[0].name->0)),
{
}

/// An artist that a suggestion does not name is unknown, and has no id where there is none at all.
pub proof fn law_an_artist_without_name_is_unknown(
    value: qobuz_models::AlbumSuggestion,
    quality: &AudioQuality,
    r: AlbumSimple,
)
    requires
        call_ensures(parse_album_simple, (value, quality), r),
    ensures
        value.artists is None || value.artists->0@.len() == 0 ==> r.artist.id == 0
            && r.artist.name@ == seq!['U', 'n', 'k', 'n', 'o', 'w', 'n'],
        value.artists matches Some(artists) ==> (artists@.len() > 0 && artists@[0].name is None
            ==> r.artist.id == artists@[0].id && r.artist.name@ == seq![
            'U',
            'n',
            'k',
            'n',
            'o',
            'w',
            'n',
        ]),
{
    reveal_strlit("Unknown");
    assert("Unknown"@ =~= seq!['U', 'n', 'k', 'n', 'o', 'w', 'n']);
}

/// An album keeps what its entry says of it, with the names of its awards in their order.
pub proof fn law_an_album_keeps_its_entry(
    value: qobuz_models::Album,
    quality: &AudioQuality,
    r: Album,
    artist: Artist,
    date: &str,
    year: u32,
    description: Option<String>,
)
    requires
        call_ensures(parse_album, (value, quality), r),
        call_ensures(parse_artist, (value.artist,), artist),
        date@ == value.release_date_original@,
        call_ensures(extract_year, (date,), year),
        call_ensures(sanitize_html, (value.description,), description),
    ensures
        r.id == value.id,
        r.title == value.title,
        r.artist == artist,
        r.total_tracks == value.tracks_count,
        r.release_year == year,
        r.explicit == value.parental_warning,
        r.available == value.streamable,
        r.image == value.image.large,
        r.image_thumbnail == value.image.small,
        r.bit_depth == value.maximum_bit_depth,
        r.sampling_rate == value.maximum_sampling_rate,
        value.duration matches Some(duration) ==> r.duration_seconds == duration,
        value.duration is None ==> r.duration_seconds == 0,
        value.label matches Some(label) ==> r.label == Some(label.name),
        value.label is None ==> r.label is None,
        r.awards@.len() == value.awards@.len(),
        forall|i: int|
            0 <= i < value.awards@.len() ==> #[trigger] r.awards@[i] == value.awards@[i].name,
        text_view(r.description) == text_view(description),
{
}

/// The tracks of an album come in its order; each keeps what its own entry says of it, and is the
/// album's in all else: artist, pictures, title and date.
pub proof fn law_an_albums_tracks_are_its_own(
    value: qobuz_models::Album,
    quality: &AudioQuality,
    r: Album,
    i: int,
)
    requires
        call_ensures(parse_album, (value, quality), r),
        0 <= i < r.tracks@.len(),
    ensures
        value.tracks matches Some(tracks) && {
            let entry = tracks.items@[i];
            let track = r.tracks@[i];
            &&& r.tracks@.len() == tracks.items@.len()
            &&& track.id == entry.id
            &&& track.title == entry.title
            &&& track.number == entry.track_number
            &&& track.explicit == entry.parental_warning
            &&& track.hires_available == entry.hires_streamable
            &&& track.available == entry.streamable
            &&& track.duration_seconds == entry.duration
            &&& track.bit_depth == entry.maximum_bit_depth
            &&& track.sampling_rate == entry.maximum_sampling_rate
            &&& track.performers == entry.performers
            &&& track.copyright == entry.copyright
            &&& track.status == TrackStatus::Unplayed
            &&& track.playlist_track_id is None
            &&& track.image == Some(r.image)
            &&& track.image_thumbnail == Some(r.image_thumbnail)
            &&& track.artist_name == Some(r.artist.name)
            &&& track.artist_id == Some(r.artist.id)
            &&& track.album_title == Some(r.title)
            &&& track.album_id == Some(r.id)
            &&& track.release_date == Some(value.release_date_original)
        },
{
}

/// An album lists as many tracks as its entry does.
pub proof fn law_an_album_lists_every_track(
    value: qobuz_models::Album,
    quality: &AudioQuality,
    r: Album,
)
    requires
        call_ensures(parse_album, (value, quality), r),
    ensures
        value.tracks matches Some(tracks) ==> r.tracks@.len() == tracks.items@.len(),
        value.tracks is None ==> r.tracks@.len() == 0,
{
}

/// A portrait is named by its hash and its format.
pub proof fn law_a_portrait_is_named_by_its_hash(value: &qobuz_models::Portrait, r: String)
    requires
        call_ensures(image_to_string, (value,), r),
    ensures
        r@ == "https://static.qobuz.com/images/artists/covers/large/"@ + value.hash@ + seq!['.']
            + value.format@,
{
    reveal_strlit(".");
    assert("."@ =~= seq!['.']);
}

/// The page of an artist keeps what it is made of, and its top tracks come in their order, each by
/// the artist, and with the pictures, title and id of the album it is on.
pub proof fn law_an_artist_page_keeps_its_entry(
    artist: qobuz_models::ArtistPage,
    albums: Vec<AlbumSimple>,
    singles: Vec<AlbumSimple>,
    live: Vec<AlbumSimple>,
    compilations: Vec<AlbumSimple>,
    similar_artists: Vec<Artist>,
    r: ArtistPage,
    portrait: &qobuz_models::Portrait,
    url: String,
    biography: Option<String>,
    description: Option<String>,
)
    requires
        call_ensures(
            parse_artist_page,
            (artist, albums, singles, live, compilations, similar_artists),
            r,
        ),
        call_ensures(image_to_string, (portrait,), url),
        call_ensures(sanitize_html, (biography,), description),
        text_view(biography) == match artist.biography {
            Some(biography) => Some(biography.content@),
            None => None,
        },
    ensures
        r.id == artist.id,
        r.name == artist.name.display,
        r.albums == albums,
        r.singles == singles,
        r.live == live,
        r.compilations == compilations,
        r.similar_artists == similar_artists,
        artist.images.portrait == Some(*portrait) ==> (r.image matches Some(image) && image@
            == url@),
        artist.images.portrait is None ==> r.image is None,
        text_view(r.description) == text_view(description),
        r.top_tracks@.len() == artist.top_tracks@.len(),
        forall|i: int|
            0 <= i < artist.top_tracks@.len() ==> {
                let entry = artist.top_tracks@[i];
                let track = #[trigger] r.top_tracks@[i];
                &&& track.id == entry.id
                &&& track.title == entry.title
                &&& track.number == entry.physical_support.track_number
                &&& track.explicit == entry.parental_warning
                &&& track.hires_available == entry.rights.hires_streamable
                &&& track.available == entry.rights.streamable
                &&& track.duration_seconds == entry.duration
                &&& track.status == TrackStatus::Unplayed
                &&& track.image == Some(entry.album.image.large)
                &&& track.image_thumbnail == Some(entry.album.image.small)
                &&& track.album_title == Some(entry.album.title)
                &&& track.album_id == Some(entry.album.id)
                &&& track.artist_name == Some(artist.name.display)
                &&& track.artist_id == Some(artist.id)
                &&& track.playlist_track_id is None
                &&& track.bit_depth is None
                &&& track.sampling_rate is None
                &&& track.release_date is None
                &&& track.performers is None
                &&& track.copyright is None
            },
{
}

/// A playlist keeps what its entry says of it, belongs to the user who owns it, and shows the first
/// of its own pictures, or else the first of its albums'.
pub proof fn law_a_playlist_keeps_its_entry(
    value: qobuz_models::Playlist,
    user_id: i64,
    quality: &AudioQuality,
    r: Playlist,
)
    requires
        call_ensures(parse_playlist, (value, user_id, quality), r),
    ensures
        r.id == value.id,
        r.title == value.name,
        r.duration_seconds == value.duration,
        r.owner == value.owner,
        r.is_owned <==> value.owner.id == user_id,
        value.image_rectangle@.len() > 0 ==> r.image == Some(value.image_rectangle@[0]),
        value.image_rectangle@.len() == 0 && value.images300 is Some && value.images300->0@.len() > 0
            ==> r.image == Some(value.images300->0@[0]),
        value.image_rectangle@.len() == 0 && (value.images300 is None || value.images300->0@.len()
            == 0) ==> r.image is None,
        value.tracks is None ==> r.tracks@.len() == 0,
{
}

/// The tracks of a playlist are those of its entry, in order, each as it is on its own.
pub proof fn law_a_playlists_tracks_are_tracks(
    value: qobuz_models::Playlist,
    user_id: i64,
    quality: &AudioQuality,
    r: Playlist,
    i: int,
    track: Track,
)
    requires
        call_ensures(parse_playlist, (value, user_id, quality), r),
        value.tracks is Some,
        0 <= i < value.tracks->0.items@.len(),
        call_ensures(parse_track, (value.tracks->0.items@[i], quality), track),
    ensures
        r.tracks@.len() == value.tracks->0.items@.len(),
        r.tracks@[i] == track,
{
}

/// A short playlist keeps what its entry says of it, and belongs to the user who owns it.
pub proof fn law_a_short_playlist_keeps_its_entry(
    value: qobuz_models::PlaylistSimple,
    user_id: i64,
    r: PlaylistSimple,
)
    requires
        call_ensures(parse_playlist_simple, (value, user_id), r),
    ensures
        r.id == value.id,
        r.title == value.name,
        r.duration_seconds == value.duration,
        r.tracks_count == value.tracks_count,
        r.image == value.image.rectangle,
        r.owner == value.owner,
        r.is_owned <==> value.owner.id == user_id,
{
}

/// Two suggested albums are the same, whatever copies of their texts they hold.
pub open spec fn is_same_album(a: AlbumSimple, b: AlbumSimple) -> bool {
    &&& a.id == b.id
    &&& a.title == b.title
    &&& a.artist.id == b.artist.id
    &&& a.artist.name@ == b.artist.name@
    &&& a.artist.image == b.artist.image
    &&& a.hires_available == b.hires_available
    &&& a.explicit == b.explicit
    &&& a.available == b.available
    &&& a.image == b.image
    &&& a.duration_seconds == b.duration_seconds
    &&& a.release_year == b.release_year
}

/// Each shelf of the page that is offered to discover holds the suggestions of that shelf, in order,
/// each as it is on its own.
pub proof fn law_every_shelf_holds_its_suggestions(
    value: qobuz_models::Discover,
    quality: &AudioQuality,
    user_id: i64,
    r: DiscoverPage,
    s: qobuz_models::AlbumSuggestion,
    album: AlbumSimple,
    i: int,
)
    requires
        call_ensures(parse_discover, (value, quality, user_id), r),
        call_ensures(parse_album_simple, (s, quality), album),
        0 <= i,
    ensures
        ({
            let c = value.containers;
            let new = c.new_releases.data.items@;
            let best = c.qobuzissims.data.items@;
            let ideal = c.ideal_discography.data.items@;
            let week = c.album_of_the_week.data.items@;
            let most = c.most_streamed.data.items@;
            let press = c.press_awards.data.items@;
            &&& r.new_releases@.len() == new.len()
            &&& i < new.len() && new[i] == s ==> is_same_album(r.new_releases@[i], album)
            &&& r.qobuzissims@.len() == best.len()
            &&& i < best.len() && best[i] == s ==> is_same_album(r.qobuzissims@[i], album)
            &&& r.ideal_discography@.len() == ideal.len()
            &&& i < ideal.len() && ideal[i] == s ==> is_same_album(r.ideal_discography@[i], album)
            &&& r.album_of_the_week@.len() == week.len()
            &&& i < week.len() && week[i] == s ==> is_same_album(r.album_of_the_week@[i], album)
            &&& r.most_streamed@.len() == most.len()
            &&& i < most.len() && most[i] == s ==> is_same_album(r.most_streamed@[i], album)
            &&& r.press_awards@.len() == press.len()
            &&& i < press.len() && press[i] == s ==> is_same_album(r.press_awards@[i], album)
        }),
{
}

/// The playlists of the page that is offered to discover come in order, each as it is on its own,
/// and so do their tags.
pub proof fn law_discovered_playlists_are_playlists(
    value: qobuz_models::Discover,
    quality: &AudioQuality,
    user_id: i64,
    r: DiscoverPage,
    i: int,
    playlist: PlaylistSimple,
)
    requires
        call_ensures(parse_discover, (value, quality, user_id), r),
        0 <= i < value.containers.playlists.data.items@.len(),
        call_ensures(
            parse_playlist_simple,
            (value.containers.playlists.data.items@[i], user_id),
            playlist,
        ),
    ensures
        r.playlists@.len() == value.containers.playlists.data.items@.len(),
        r.playlists@[i] == playlist,
        r.playlists_tags@.len() == value.containers.playlists_tags.data.items@.len(),
        forall|k: int|
            0 <= k < r.playlists_tags@.len() ==> (#[trigger] r.playlists_tags@[k]).slug
                == value.containers.playlists_tags.data.items@[k].slug && r.playlists_tags@[k].name
                == value.containers.playlists_tags.data.items@[k].name,
{
}

/// What is found keeps its order, and each track and artist is as it is on its own.
pub proof fn law_found_tracks_are_tracks(
    value: qobuz_models::SearchAllResults,
    user_id: i64,
    quality: &AudioQuality,
    r: SearchResults,
    i: int,
    track: Track,
    artist: Artist,
)
    requires
        call_ensures(parse_search_results, (value, user_id, quality), r),
        0 <= i,
        i < value.tracks.items@.len() ==> call_ensures(
            parse_track,
            (value.tracks.items@[i], quality),
            track,
        ),
        i < value.artists.items@.len() ==> call_ensures(
            parse_artist,
            (value.artists.items@[i],),
            artist,
        ),
    ensures
        r.query == value.query,
        r.tracks@.len() == value.tracks.items@.len(),
        i < value.tracks.items@.len() ==> r.tracks@[i] == track,
        r.artists@.len() == value.artists.items@.len(),
        i < value.artists.items@.len() ==> r.artists@[i] == artist,
{
}

/// What is found keeps its order, and each album and playlist is as it is on its own.
pub proof fn law_found_albums_are_albums(
    value: qobuz_models::SearchAllResults,
    user_id: i64,
    quality: &AudioQuality,
    r: SearchResults,
    i: int,
    album: Album,
    playlist: Playlist,
)
    requires
        call_ensures(parse_search_results, (value, user_id, quality), r),
        0 <= i,
        i < value.albums.items@.len() ==> call_ensures(
            parse_album,
            (value.albums.items@[i], quality),
            album,
        ),
        i < value.playlists.items@.len() ==> call_ensures(
            parse_playlist,
            (value.playlists.items@[i], user_id, quality),
            playlist,
        ),
    ensures
        r.albums@.len() == value.albums.items@.len(),
        i < value.albums.items@.len() ==> {
            let found = r.albums@[i];
            &&& found.id == album.id
            &&& found.title == album.title
            &&& found.artist == album.artist
            &&& found.total_tracks == album.total_tracks
            &&& found.release_year == album.release_year
            &&& found.hires_available == album.hires_available
            &&& found.explicit == album.explicit
            &&& found.available == album.available
            &&& found.image == album.image
            &&& found.image_thumbnail == album.image_thumbnail
            &&& found.duration_seconds == album.duration_seconds
            &&& found.label == album.label
            &&& found.tracks@ =~= album.tracks@
            &&& found.awards@ =~= album.awards@
            &&& text_view(found.description) == text_view(album.description)
        },
        r.playlists@.len() == value.playlists.items@.len(),
        i < value.playlists.items@.len() ==> {
            let found = r.playlists@[i];
            &&& found.id == playlist.id
            &&& found.is_owned == playlist.is_owned
            &&& found.title == playlist.title
            &&& found.duration_seconds == playlist.duration_seconds
            &&& found.image == playlist.image
            &&& found.owner == playlist.owner
            &&& found.tracks@ == playlist.tracks@
        },
{
}

} // verus!

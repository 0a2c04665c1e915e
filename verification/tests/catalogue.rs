use qobine::error::Error;
use qobine::html::{non_empty, sanitize_html, strip_tags};
use qobine::mapper::{
    extract_year, hifi_available, image_to_string, parse_album, parse_album_simple, parse_artist,
    parse_artist_page, parse_discover, parse_featured_album, parse_genre, parse_playlist,
    parse_playlist_simple, parse_search_results, parse_track, year_or_zero,
};
use qobine::models::{AudioQuality, Owner, Status, Track, TrackStatus};
use qobine::now_playing_center::{
    build_now_playing, needs_artwork, playback_state, NowPlayingCenter, PlaybackState,
};
use qobine::qobuz_models as api;
use qobine::tracklist::{QueueItem, Tracklist, TracklistType};

fn text(value: &str) -> String {
    value.to_string()
}

fn image() -> api::Image {
    api::Image { large: text("large.jpg"), small: text("small.jpg") }
}

fn artist(id: u32, name: &str) -> api::Artist {
    api::Artist {
        id,
        name: text(name),
        image: Some(api::ArtistImage { large: text("face.jpg") }),
    }
}

fn album() -> api::Album {
    api::Album {
        id: text("a1"),
        title: text("Meddle"),
        artist: artist(7, "Pink Floyd"),
        tracks_count: 1,
        hires_streamable: true,
        parental_warning: false,
        streamable: true,
        tracks: Some(api::AlbumTracks {
            items: vec![api::AlbumTrack {
                id: 70,
                title: text("Echoes"),
                track_number: 6,
                parental_warning: true,
                hires_streamable: true,
                streamable: true,
                duration: 1411,
                maximum_bit_depth: Some(24),
                maximum_sampling_rate: None,
                performers: None,
                copyright: None,
            }],
        }),
        image: image(),
        duration: None,
        description: Some(text("<p>One &amp; two</p>")),
        maximum_bit_depth: Some(24),
        maximum_sampling_rate: None,
        release_date_original: text("1971-10-31"),
        awards: vec![api::Award { name: text("Best") }],
        label: Some(api::Label { name: text("Harvest") }),
    }
}

fn track() -> api::Track {
    api::Track {
        id: 70,
        title: text("Echoes"),
        track_number: 6,
        duration: 1411,
        parental_warning: false,
        hires_streamable: true,
        streamable: true,
        performer: None,
        album: Some(api::TrackAlbum {
            id: text("a1"),
            title: text("Meddle"),
            artist: artist(7, "Pink Floyd"),
            image: image(),
            release_date_original: text("1971-10-31"),
        }),
        playlist_track_id: Some(5),
        maximum_bit_depth: None,
        maximum_sampling_rate: None,
        release_date_original: None,
        performers: None,
        copyright: None,
    }
}

fn suggestion(artists: Option<Vec<api::SuggestionArtist>>) -> api::AlbumSuggestion {
    api::AlbumSuggestion {
        id: text("s1"),
        title: text("Animals"),
        artists,
        rights: api::Rights { hires_streamable: true, streamable: true },
        parental_warning: false,
        image: image(),
        duration: 2500,
        dates: api::Dates { original: text("1977-01-21") },
    }
}

fn owner() -> Owner {
    Owner { id: 3, name: text("me") }
}

fn playlist_entry() -> api::Playlist {
    api::Playlist {
        id: 11,
        name: text("Mix"),
        owner: owner(),
        duration: 60,
        tracks: Some(api::Tracks { items: vec![track()] }),
        image_rectangle: vec![],
        images300: Some(vec![text("300.jpg")]),
    }
}

fn playlist_simple() -> api::PlaylistSimple {
    api::PlaylistSimple {
        id: 12,
        name: text("Other"),
        owner: owner(),
        duration: 61,
        tracks_count: 2,
        image: api::PlaylistImage { rectangle: None },
    }
}

#[test]
fn the_year_of_a_date() {
    assert_eq!(extract_year("1971-10-31"), 1971);
    assert_eq!(extract_year("31.10.1971"), 0);
    assert_eq!(extract_year("1971-13-31"), 0);
    assert_eq!(year_or_zero(Some(1999)), 1999);
    assert_eq!(year_or_zero(Some(-5)), 0);
    assert_eq!(year_or_zero(None), 0);
}

#[test]
fn hires_depends_on_the_chosen_quality() {
    assert!(!hifi_available(true, &AudioQuality::Mp3));
    assert!(!hifi_available(true, &AudioQuality::CD));
    assert!(hifi_available(true, &AudioQuality::HIFI96));
    assert!(hifi_available(true, &AudioQuality::HIFI192));
    assert!(!hifi_available(false, &AudioQuality::HIFI192));
}

#[test]
fn an_album_is_mapped() {
    let album = parse_album(album(), &AudioQuality::HIFI192);
    assert_eq!(album.release_year, 1971);
    assert!(album.hires_available);
    assert_eq!(album.duration_seconds, 0);
    assert_eq!(album.description.as_deref(), Some("One & two"));
    assert_eq!(album.awards, ["Best"]);
    assert_eq!(album.label.as_deref(), Some("Harvest"));
    assert_eq!(album.tracks.len(), 1);
    assert_eq!(album.tracks[0].id, 70);
    assert_eq!(album.tracks[0].album_title.as_deref(), Some("Meddle"));
    assert_eq!(album.artist.image.as_deref(), Some("face.jpg"));
}

#[test]
fn a_track_is_mapped() {
    let track = parse_track(track(), &AudioQuality::CD);
    assert!(!track.hires_available);
    assert_eq!(track.artist_name.as_deref(), Some("Pink Floyd"));
    assert_eq!(track.artist_id, Some(7));
    assert_eq!(track.release_date.as_deref(), Some("1971-10-31"));
    assert_eq!(track.playlist_track_id, Some(5));
    assert_eq!(track.status, TrackStatus::Unplayed);
}

#[test]
fn suggestions_may_have_no_artist() {
    let unknown = parse_album_simple(suggestion(None), &AudioQuality::HIFI96);
    assert_eq!((unknown.artist.id, unknown.artist.name.as_str()), (0, "Unknown"));
    assert_eq!(unknown.release_year, 1977);
    let named = parse_album_simple(
        suggestion(Some(vec![api::SuggestionArtist { id: 7, name: Some(text("Pink Floyd")) }])),
        &AudioQuality::Mp3,
    );
    assert_eq!((named.artist.id, named.artist.name.as_str()), (7, "Pink Floyd"));
    assert!(!named.hires_available);
    let featured = parse_featured_album(api::FeaturedAlbum {
        id: text("f"),
        title: text("F"),
        artist: artist(1, "x"),
        hires_streamable: false,
        parental_warning: true,
        streamable: true,
        image: image(),
        duration: 9,
        release_date_original: text("2001-02-03"),
    });
    assert_eq!(featured.release_year, 2001);
    assert!(featured.explicit);
}

#[test]
fn playlists_know_their_owner() {
    let mine = parse_playlist(playlist_entry(), 3, &AudioQuality::CD);
    assert!(mine.is_owned);
    assert_eq!(mine.image.as_deref(), Some("300.jpg"));
    assert_eq!(mine.tracks.len(), 1);
    let theirs = parse_playlist_simple(playlist_simple(), 4);
    assert!(!theirs.is_owned);
    assert_eq!(theirs.tracks_count, 2);
}

#[test]
fn artists_and_genres_are_mapped() {
    assert_eq!(parse_artist(artist(7, "Pink Floyd")).image.as_deref(), Some("face.jpg"));
    assert_eq!(parse_genre(api::Genre { name: text("Rock"), id: 5 }).id, 5);
    let portrait = api::Portrait { hash: text("abc"), format: text("jpg") };
    assert_eq!(
        image_to_string(&portrait),
        "https://static.qobuz.com/images/artists/covers/large/abc.jpg"
    );
    let page = parse_artist_page(
        api::ArtistPage {
            id: 7,
            name: api::ArtistName { display: text("Pink Floyd") },
            images: api::ArtistImages { portrait: Some(portrait) },
            top_tracks: vec![],
            biography: Some(api::Biography { content: text("a<br>b") }),
        },
        vec![],
        vec![],
        vec![],
        vec![],
        vec![],
    );
    assert_eq!(page.name, "Pink Floyd");
    assert!(page.image.unwrap().ends_with("abc.jpg"));
    assert!(page.description.is_some());
}

fn shelf() -> api::Container<api::AlbumSuggestion> {
    api::Container { data: api::Items { items: vec![suggestion(None)] } }
}

#[test]
fn shelves_and_results_are_mapped() {
    let page = parse_discover(
        api::Discover {
            containers: api::Containers {
                new_releases: shelf(),
                qobuzissims: shelf(),
                ideal_discography: shelf(),
                album_of_the_week: shelf(),
                most_streamed: shelf(),
                press_awards: shelf(),
                playlists: api::Container { data: api::Items { items: vec![playlist_simple()] } },
                playlists_tags: api::Container {
                    data: api::Items {
                        items: vec![api::PlaylistTag { slug: text("hi"), name: text("Hi") }],
                    },
                },
            },
        },
        &AudioQuality::CD,
        3,
    );
    assert_eq!(page.new_releases.len(), 1);
    assert_eq!(page.playlists[0].id, 12);
    assert!(page.playlists[0].is_owned);
    assert_eq!(page.playlists_tags[0].slug, "hi");
    let results = parse_search_results(
        api::SearchAllResults {
            query: text("meddle"),
            albums: api::Items { items: vec![album()] },
            artists: api::Items { items: vec![artist(7, "Pink Floyd")] },
            playlists: api::Items { items: vec![playlist_entry()] },
            tracks: api::Items { items: vec![track()] },
        },
        3,
        &AudioQuality::CD,
    );
    assert_eq!(results.query, "meddle");
    assert_eq!(results.albums[0].title, "Meddle");
    assert_eq!(results.tracks[0].id, 70);
}

#[test]
fn tags_are_removed_and_entities_decoded() {
    assert_eq!(sanitize_html(None), None);
    assert_eq!(sanitize_html(Some(text("plain"))).as_deref(), Some("plain"));
    assert_eq!(sanitize_html(Some(text("<b>bold</b> &lt;x&gt;"))).as_deref(), Some("bold <x>"));
    assert_eq!(sanitize_html(Some(text(" <p>one</p>two "))).as_deref(), Some("one\ntwo"));
    assert_eq!(sanitize_html(Some(text(" \n "))), None);
}

#[test]
fn errors_tell_what_failed() {
    assert_eq!(Error::Login.display(), "Failed to login.");
    assert_eq!(Error::SecretNotSet.display(), "Internal error: Secret not set.");
    assert_eq!(Error::AppID.display(), "Failed to get an app id from Qobuz.");
    assert_eq!(Error::ActiveSecret.display(), "Failed to get a usable secret from Qobuz.");
    assert_eq!(Error::Create.display(), "Failed to create client");
    assert_eq!(
        Error::DeserializeJSON { message: text("x") }.display(),
        "Failed to deserialize json: x"
    );
    assert_eq!(Error::Stream { message: text("x") }.display(), "Unable to start stream: x");
    assert_eq!(Error::from_request(None).display(), "Unable to connect to Qobuz api");
    assert_eq!(Error::from_request(Some(text("404"))).display(), "404");
    assert_eq!(Error::from_conversion(text("too big")).display(), "too big");
    assert_eq!(Error::Time { message: text("t") }.display(), "t");
}

fn playing(count: usize, at: usize) -> Tracklist {
    let items = (0..count)
        .map(|i| QueueItem {
            track: Track {
                id: i as u32,
                title: format!("t{i}"),
                duration_seconds: 100,
                image: Some(text("cover.jpg")),
                status: if i == at { TrackStatus::Playing } else { TrackStatus::Unplayed },
                ..Track::default()
            },
            queue_id: i as u64,
            index: i,
            connect_id: None,
        })
        .collect();
    Tracklist::new(TracklistType::Tracks, items)
}

#[test]
fn the_system_is_told_what_plays() {
    let shown = build_now_playing(&playing(3, 1), 5, Status::Playing).expect("a track");
    assert_eq!(shown.title, "t1");
    assert_eq!((shown.queue_index, shown.queue_count), (1, 3));
    assert!(build_now_playing(&playing(3, 9), 5, Status::Playing).is_none());
    assert!(matches!(playback_state(Some(&shown)), PlaybackState::Playing));
    assert!(matches!(playback_state(None), PlaybackState::Stopped));
    assert!(shown.is_running());
    let waiting = build_now_playing(&playing(3, 1), 5, Status::Buffering).expect("a track");
    assert!(!waiting.is_running());
    assert!(needs_artwork(&None, "u"));
    assert!(!needs_artwork(&Some(text("u")), "u"));
}

#[test]
fn only_jumps_are_told() {
    let mut center = NowPlayingCenter::new(&playing(2, 0), 0, Status::Playing);
    assert!(!center.position_changed(1_000_000_000));
    assert!(center.position_changed(5_000_000_000));
    assert!(center.position_changed(0));
    assert!(center.status_changed(Status::Paused, 7));
    center.tracklist_changed(&playing(2, 9), 0, Status::Paused);
    assert!(center.current.is_none());
    assert!(!center.position_changed(9_000_000_000));
}

#[test]
fn tags_leave_their_text() {
    assert_eq!(strip_tags(" a<br>b<br/><p><BR />c &amp; "), "a\nb\n\nc &amp;");
    assert_eq!(strip_tags("<brx>a</p >b"), "a\nb");
    assert_eq!(strip_tags("a < b"), "a");
    assert_eq!(non_empty(String::new()), None);
    assert_eq!(non_empty(text(" ")).as_deref(), Some(" "));
}

//! What the terminal can be relied on to do.

use vstd::prelude::*;
use crate::keys::Key;
use crate::models::{AlbumSimple, Artist, PlaylistSimple, Status, Track};
use crate::notification::Notification;
use crate::terminal_app::{
    action_view, build_favorite_ids, device_error, notes, App, AppAction, AppState, FavoriteIds,
    FavoritesState, Output, StateView, Tab, TerminalEvent,
};
use crate::text::views;
use crate::tracklist::Tracklist;
use crate::web::owned_playlists;

verus! {

/// The keys that neither the page nor a popup used control the player, each in its way, and the
/// screen is drawn again.
pub proof fn law_keys_control_the_player<P>(
    app: &mut App<P>,
    c: char,
    now: u128,
    r: Option<AppAction>,
)
    requires
        call_ensures(
            App::<P>::handle_output,
            (app, Key::Char(c), Ok(Output::<P>::NotConsumed), now),
            r,
        ),
    ensures
        c == ' ' ==> (r matches Some(action) && action is PlayPause),
        c == 'n' ==> (r matches Some(action) && action is Next),
        c == 'p' ==> (r matches Some(action) && action is Previous),
        c == 'f' ==> (r matches Some(action) && action is JumpForward),
        c == 'b' ==> (r matches Some(action) && action is JumpBackward),
        c == 'X' ==> (r matches Some(action) && action is ClearQueue),
        c == 'c' ==> (r matches Some(action) && action is AskConnect),
        c == ' ' || c == 'n' || c == 'p' || c == 'f' || c == 'b' || c == 'X' ==> final(app).should_draw && final(app).current_screen == old(app).current_screen && final(app).exit
            == old(app).exit,
        r matches Some(action) ==> (action is PlayPause <==> c == ' ') && (action is Next <==> c
            == 'n') && (action is Previous <==> c == 'p') && (action is JumpForward <==> c == 'f')
            && (action is JumpBackward <==> c == 'b') && (action is ClearQueue <==> c == 'X'),
{
    let v = old(app).shown();
    assert(final(app).shown().draw == final(app).should_draw);
    assert(final(app).shown().screen == final(app).current_screen);
    assert(final(app).shown().exit == final(app).exit);
    assert(v.screen == old(app).current_screen && v.exit == old(app).exit);
}

/// The digits open the pages in their order, and searching is made ready; other keys stay on the
/// page.
pub proof fn law_digits_open_the_pages<P>(
    app: &mut App<P>,
    c: char,
    now: u128,
    r: Option<AppAction>,
)
    requires
        call_ensures(
            App::<P>::handle_output,
            (app, Key::Char(c), Ok(Output::<P>::NotConsumed), now),
            r,
        ),
    ensures
        c == '1' ==> final(app).current_screen == Tab::Favorites && r is None,
        c == '2' ==> final(app).current_screen == Tab::Search && (r matches Some(action)
            && action is FocusSearch),
        c == '3' ==> final(app).current_screen == Tab::Queue && r is None,
        c == '4' ==> final(app).current_screen == Tab::Discover && r is None,
        c == '5' ==> final(app).current_screen == Tab::Genres && r is None,
        c == '6' ==> final(app).current_screen == Tab::Preferences && r is None,
        '1' <= c <= '6' ==> final(app).should_draw && final(app).exit == old(app).exit,
        !('1' <= c <= '6') ==> final(app).current_screen == old(app).current_screen,
{
    assert(final(app).shown().draw == final(app).should_draw);
    assert(final(app).shown().screen == final(app).current_screen);
    assert(final(app).shown().exit == final(app).exit);
    assert(old(app).shown().screen == old(app).current_screen);
    assert(old(app).shown().exit == old(app).exit);
}

/// The letter q, and no other key, ends the program; the question mark shows the help, and the large
/// F the playing track alone.
pub proof fn law_q_ends_the_program<P>(app: &mut App<P>, c: char, now: u128, r: Option<AppAction>)
    requires
        call_ensures(
            App::<P>::handle_output,
            (app, Key::Char(c), Ok(Output::<P>::NotConsumed), now),
            r,
        ),
    ensures
        final(app).exit == (old(app).exit || c == 'q'),
        c == '?' ==> final(app).app_state is Help && final(app).should_draw,
        c == 'F' ==> final(app).app_state is Focus && final(app).should_draw,
        c != '?' && c != 'F' ==> final(app).app_state@ == old(app).app_state@,
{
    assert(final(app).shown().draw == final(app).should_draw);
    assert(final(app).shown().exit == final(app).exit);
    assert(old(app).shown().exit == old(app).exit);
    assert(final(app).shown().state == final(app).app_state@);
    assert(old(app).shown().state == old(app).app_state@);
}

/// Keys open what belongs to the track that plays: its album, its artist, and what is known of it.
pub proof fn law_keys_open_what_plays<P>(
    app: &mut App<P>,
    c: char,
    now: u128,
    r: Option<AppAction>,
    track: Track,
)
    requires
        call_ensures(
            App::<P>::handle_output,
            (app, Key::Char(c), Ok(Output::<P>::NotConsumed), now),
            r,
        ),
        old(app).now_playing.playing_track == Some(track),
        c == 'I' || c == 'G' || c == 'i',
    ensures
        c == 'I' && track.album_id is Some ==> (r matches Some(action) && (
        action matches AppAction::OpenAlbum(id) && id@ == track.album_id->0@)),
        c == 'I' && track.album_id is None ==> r is None,
        c == 'G' && track.artist_id is Some ==> (r matches Some(action) && (
        action matches AppAction::OpenArtist(artist) && artist.id == track.artist_id->0
            && artist.image is None && (track.artist_name matches Some(name) ==> artist.name@
            == name@))),
        c == 'G' && track.artist_id is None ==> r is None,
        c == 'i' ==> (r matches Some(action) && (action matches AppAction::OpenTrack(id) && id
            == track.id)),
{
}

/// Where nothing plays, nothing of it is opened.
pub proof fn law_nothing_is_opened_where_nothing_plays<P>(
    app: &mut App<P>,
    c: char,
    now: u128,
    r: Option<AppAction>,
)
    requires
        call_ensures(
            App::<P>::handle_output,
            (app, Key::Char(c), Ok(Output::<P>::NotConsumed), now),
            r,
        ),
        old(app).now_playing.playing_track is None,
        c == 'I' || c == 'G' || c == 'i',
    ensures
        r is None,
{
}

/// What became of a key: what was used up is drawn, favourites are loaded again, popups come and go
/// one by one, and a failure is told.
pub proof fn law_what_became_of_a_key<P>(
    app: &mut App<P>,
    key: Key,
    output: Result<Output<P>, String>,
    now: u128,
    r: Option<AppAction>,
)
    requires
        call_ensures(App::<P>::handle_output, (app, key, output, now), r),
    ensures
        output matches Ok(Output::Consumed) ==> r is None && final(app).should_draw
            && final(app).app_state@ == old(app).app_state@,
        output matches Ok(Output::UpdateFavorites) ==> (r matches Some(action)
            && action is UpdateFavorites) && final(app).should_draw,
        output matches Ok(Output::Popup(popup)) ==> r is None && final(app).should_draw && (
        final(app).app_state matches AppState::Popup(popups) && popups@.len() > 0 && popups@.last()
            == popup && (old(app).app_state matches AppState::Popup(before) ==> popups@.drop_last()
            == before@)),
        output matches Ok(Output::AddTrackToPlaylistAndPopPopup(ids)) ==> (r matches Some(action) && (
        action matches AppAction::AddTrack { playlist_id, track_id } && track_id == ids.0
            && playlist_id == ids.1)),
        output matches Err(message) ==> r is None && final(app).notifications.entries().len()
            == old(app).notifications.entries().len() + 1 && (
        final(app).notifications.entries().last().notification matches Notification::Error(text)
            && text@ == message@) && final(app).notifications.entries().last().instant == now,
        final(app).same_contents(old(app)),
{
    let v = old(app).shown();
    let w = final(app).shown();
    assert(w.draw == final(app).should_draw);
    assert(w.state == final(app).app_state@);
    assert(v.state == old(app).app_state@);
    if output is Ok && output->Ok_0 is Popup {
        if let AppState::Popup(popups) = final(app).app_state {
            if let AppState::Popup(before) = old(app).app_state {
                assert(popups@.drop_last() =~= before@);
            }
        }
    }
    if output is Err {
        let a = old(app).notifications.entries();
        let b = final(app).notifications.entries();
        assert(notes(b).len() == b.len());
        assert(notes(a).len() == a.len());
        assert(notes(b)[b.len() - 1] == (b[b.len() - 1].notification@, b[b.len() - 1].instant));
    }
}

/// A popup that is closed was on top: those below it stay, and without any the page is seen.
pub proof fn law_a_closed_popup_was_on_top<P>(
    app: &mut App<P>,
    key: Key,
    output: Output<P>,
    now: u128,
    r: Option<AppAction>,
    popups: Vec<P>,
)
    requires
        call_ensures(App::<P>::handle_output, (app, key, Ok(output), now), r),
        output is PopPopup || output is PopPopupUpdateFavorites,
        old(app).app_state == AppState::Popup(popups),
    ensures
        popups@.len() > 1 ==> (final(app).app_state matches AppState::Popup(rest) && rest@
            == popups@.drop_last()),
        popups@.len() <= 1 ==> final(app).app_state is Normal,
        final(app).should_draw,
        output is PopPopup ==> r is None,
        output is PopPopupUpdateFavorites ==> (r matches Some(action) && action is UpdateFavorites),
{
    let w = final(app).shown();
    assert(w.draw == final(app).should_draw);
    assert(w.state == final(app).app_state@);
    assert(old(app).shown().state == old(app).app_state@);
}

/// A track is offered to the playlists of the user.
pub proof fn law_a_track_is_offered_to_own_playlists<P>(
    app: &mut App<P>,
    key: Key,
    track: Track,
    now: u128,
    r: Option<AppAction>,
    playlists: &[PlaylistSimple],
    own: Vec<PlaylistSimple>,
)
    requires
        call_ensures(
            App::<P>::handle_output,
            (app, key, Ok(Output::AddTrackToPlaylistPopup(track)), now),
            r,
        ),
        playlists@ == old(app).favorites.playlists.items(),
        call_ensures(owned_playlists, (playlists,), own),
    ensures
        r matches Some(action) && (action matches AppAction::ChoosePlaylist(offered, list) && offered
            == track && list@ == own@),
{
}

/// While nothing lies over a page its keys go to it, and those of a popup to the one on top.
pub proof fn law_keys_go_to_what_is_seen<P>(
    app: &mut App<P>,
    key: Key,
    devices: &Vec<String>,
    r: Option<AppAction>,
)
    requires
        call_ensures(App::<P>::handle_event, (app, TerminalEvent::Press(key), devices), r),
    ensures
        old(app).app_state is Normal ==> (r matches Some(action) && (
        action matches AppAction::AskScreen(tab) && tab == old(app).current_screen)),
        old(app).app_state matches AppState::Popup(popups) ==> (popups@.len() > 0 ==> (
        r matches Some(action) && action is AskPopup)),
        old(app).app_state is Help ==> r is None && final(app).app_state is Normal
            && final(app).should_draw,
        final(app).same_contents(old(app)),
{
    let w = final(app).shown();
    assert(w.draw == final(app).should_draw);
    assert(w.state == final(app).app_state@);
    assert(old(app).shown().state == old(app).app_state@);
}

/// While only the playing track is shown, escape and the large F lead back, and the space bar plays
/// and pauses.
pub proof fn law_the_playing_track_alone<P>(
    app: &mut App<P>,
    key: Key,
    devices: &Vec<String>,
    r: Option<AppAction>,
)
    requires
        call_ensures(App::<P>::handle_event, (app, TerminalEvent::Press(key), devices), r),
        old(app).app_state is Focus,
    ensures
        key == Key::Esc || key == Key::Char('F') ==> final(app).app_state is Normal && r is None,
        key == Key::Char(' ') ==> final(app).app_state is Focus && (r matches Some(action)
            && action is PlayPause),
        key == Key::Char('n') ==> final(app).app_state is Focus && (r matches Some(action)
            && action is Next),
        final(app).should_draw,
{
    let w = final(app).shown();
    assert(w.draw == final(app).should_draw);
    assert(w.state == final(app).app_state@);
    assert(old(app).shown().state == old(app).app_state@);
}

/// In the list of devices the arrows go one device on or back, as far as there are any, enter chooses
/// the device, and any other key closes the list.
pub proof fn law_a_device_is_chosen<P>(
    app: &mut App<P>,
    key: Key,
    devices: &Vec<String>,
    at: usize,
    r: Option<AppAction>,
)
    requires
        call_ensures(App::<P>::handle_event, (app, TerminalEvent::Press(key), devices), r),
        old(app).app_state == AppState::<P>::ConnectPopup(at),
        at < devices@.len(),
    ensures
        key == Key::Right || key == Key::Down ==> r is None && (
        final(app).app_state matches AppState::ConnectPopup(to) && to == if at + 1 < devices@.len() {
            at + 1
        } else {
            at as int
        }),
        key == Key::Left || key == Key::Up ==> r is None && (
        final(app).app_state matches AppState::ConnectPopup(to) && to == if at > 0 {
            at - 1
        } else {
            0
        }),
        key == Key::Enter ==> final(app).app_state is Normal && (r matches Some(action) && (
        action matches AppAction::SelectDevice(device) && device@ == devices@[at as int]@)),
        key == Key::Esc || key is Char ==> final(app).app_state is Normal && r is None,
        final(app).should_draw,
{
    let w = final(app).shown();
    assert(w.draw == final(app).should_draw);
    assert(w.state == final(app).app_state@);
    assert(old(app).shown().state == old(app).app_state@);
    assert(devices.len() == devices@.len());
    let v = views(devices@);
    assert(v.len() == devices@.len());
    assert(v[at as int] == devices@[at as int]@);
}

/// The list of devices is opened, at its first, where remote playback is switched on.
pub proof fn law_devices_are_listed_where_switched_on<P>(app: &mut App<P>, enabled: bool)
    requires
        call_ensures(App::<P>::connect_configured, (app, enabled), ()),
    ensures
        enabled ==> final(app).app_state == AppState::<P>::ConnectPopup(0) && final(app).should_draw,
        !enabled ==> final(app).app_state@ == old(app).app_state@ && final(app).should_draw
            == old(app).should_draw,
{
    let w = final(app).shown();
    assert(w.draw == final(app).should_draw);
    assert(w.state == final(app).app_state@);
    assert(old(app).shown().state == old(app).app_state@);
    assert(old(app).shown().draw == old(app).should_draw);
}

/// A track that was added closes its popup and is told; one that could not be is told as an error
/// and leaves the popup.
pub proof fn law_an_added_track_is_told<P>(
    app: &mut App<P>,
    result: Result<(), String>,
    now: u128,
    r: Option<AppAction>,
)
    requires
        call_ensures(App::<P>::track_added, (app, result, now), r),
    ensures
        final(app).notifications.entries().len() == old(app).notifications.entries().len() + 1,
        final(app).notifications.entries().last().instant == now,
        result is Ok ==> (final(app).notifications.entries().last().notification matches
            Notification::Info(text) && text@ == "Added to playlist"@),
        result matches Err(message) ==> (
        final(app).notifications.entries().last().notification matches Notification::Error(text)
            && text@ == message@) && r is None && final(app).app_state@ == old(app).app_state@,
        result is Ok && old(app).app_state is Popup ==> (r matches Some(action)
            && action is UpdateFavorites),
        result is Ok && !(old(app).app_state is Popup) ==> r is None,
        final(app).should_draw,
{
    let v = old(app).shown();
    let w = final(app).shown();
    assert(w.draw == final(app).should_draw);
    assert(w.state == final(app).app_state@);
    assert(v.state == old(app).app_state@);
    let a = old(app).notifications.entries();
    let b = final(app).notifications.entries();
    assert(notes(b).len() == b.len());
    assert(notes(a).len() == a.len());
    assert(w.notes == notes(b) && v.notes == notes(a));
    assert(notes(b)[b.len() - 1] == (b[b.len() - 1].notification@, b[b.len() - 1].instant));
}

/// What changes is drawn: a size, a position, a status, an image and a message.
pub proof fn law_what_changes_is_drawn<P>(
    sized: &mut App<P>,
    devices: &Vec<String>,
    r: Option<AppAction>,
    moved: &mut App<P>,
    position: u128,
    changed: &mut App<P>,
    status: Status,
    pictured: &mut App<P>,
    told: &mut App<P>,
    message: Notification,
    now: u128,
)
    requires
        call_ensures(App::<P>::handle_event, (sized, TerminalEvent::Resize, devices), r),
        call_ensures(App::<P>::position_changed, (moved, position), ()),
        call_ensures(App::<P>::status_changed, (changed, status), ()),
        call_ensures(App::<P>::image_loaded, (pictured,), ()),
        call_ensures(App::<P>::notified, (told, message, now), ()),
        position / 1_000_000 < 0x1_0000_0000,
    ensures
        final(sized).should_draw && r is None,
        final(moved).should_draw && final(moved).now_playing.duration_ms == position / 1_000_000,
        final(moved).now_playing.playing_track == old(moved).now_playing.playing_track,
        final(changed).should_draw && final(changed).now_playing.status == status,
        final(changed).now_playing.duration_ms == old(changed).now_playing.duration_ms,
        final(pictured).should_draw,
        final(told).should_draw && final(told).notifications.entries().len()
            == old(told).notifications.entries().len() + 1,
{
    assert(final(sized).shown().draw == final(sized).should_draw);
    assert(final(moved).shown().draw == final(moved).should_draw);
    assert(final(changed).shown().draw == final(changed).should_draw);
    assert(final(pictured).shown().draw == final(pictured).should_draw);
    assert(final(told).shown().draw == final(told).should_draw);
    let a = old(told).notifications.entries();
    let b = final(told).notifications.entries();
    assert(notes(b).len() == b.len());
    assert(notes(a).len() == a.len());
    assert(final(told).shown().notes == notes(b) && old(told).shown().notes == notes(a));
}

/// A frame is drawn, and cleared before, where that was asked for, and then neither is asked for any
/// more.
pub proof fn law_a_frame_settles_what_was_asked<P>(
    app: &mut App<P>,
    r: (bool, bool),
    again: &mut App<P>,
    r2: (bool, bool),
)
    requires
        call_ensures(App::<P>::take_frame, (app,), r),
        *old(again) == *final(app),
        call_ensures(App::<P>::take_frame, (again,), r2),
    ensures
        r.0 == old(app).should_clear,
        r.1 == old(app).should_draw,
        r2 == (false, false),
{
    assert(final(app).shown().draw == final(app).should_draw);
    assert(final(app).shown().clear == final(app).should_clear);
}

/// Messages that were shown long enough go, and where any did the screen is cleared and drawn.
pub proof fn law_old_messages_clear_the_screen<P>(app: &mut App<P>, now: u128)
    requires
        call_ensures(App::<P>::tick, (app, now), ()),
    ensures
        ({
            let gone = final(app).notifications.entries().len()
                != old(app).notifications.entries().len();
            &&& gone ==> final(app).should_draw && final(app).should_clear
            &&& !gone ==> final(app).should_draw == old(app).should_draw
                && final(app).should_clear == old(app).should_clear
        }),
        forall|i: int|
            0 <= i < final(app).notifications.entries().len() ==> now < (
            #[trigger] final(app).notifications.entries()[i]).instant + 5_000_000_000,
        final(app).app_state@ == old(app).app_state@,
{
    let all = old(app).notifications.entries();
    let p = crate::notification::still_shown(now);
    assert forall|i: int| 0 <= i < final(app).notifications.entries().len() implies now < (
    #[trigger] final(app).notifications.entries()[i]).instant + 5_000_000_000 by {
        all.lemma_filter_pred(p, i);
    }
    assert(final(app).shown().draw == final(app).should_draw);
    assert(final(app).shown().clear == final(app).should_clear);
    assert(final(app).shown().state == final(app).app_state@);
    assert(old(app).shown().state == old(app).app_state@);
}

/// A queue that changed is shown with its tracks, in order, from the start of the one that plays.
pub proof fn law_a_changed_queue_is_shown<P>(
    app: &mut App<P>,
    tracklist: &Tracklist,
    r: Vec<Track>,
)
    requires
        call_ensures(App::<P>::tracklist_changed, (app, tracklist), r),
    ensures
        r@.len() == tracklist.items().len(),
        forall|i: int| 0 <= i < r@.len() ==> #[trigger] r@[i] == tracklist.items()[i].track,
        final(app).now_playing.tracklist_length == tracklist.items().len(),
        final(app).now_playing.duration_ms == 0,
        final(app).now_playing.status == old(app).now_playing.status,
        final(app).should_draw,
{
    assert(final(app).shown().draw == final(app).should_draw);
}

/// The ids of the favourites are those of the albums, artists, playlists and tracks among them.
pub proof fn law_favorites_are_known_by_their_ids(
    favorites: &FavoritesState,
    r: FavoriteIds,
    album: Seq<char>,
    id: u32,
)
    requires
        call_ensures(build_favorite_ids, (favorites,), r),
    ensures
        r.album_ids().contains(album) <==> exists|i: int|
            0 <= i < favorites.albums.items().len() && (
            #[trigger] favorites.albums.items()[i]).id@ == album,
        r.artist_ids().contains(id) <==> exists|i: int|
            0 <= i < favorites.artists.items().len() && (
            #[trigger] favorites.artists.items()[i]).id == id,
        r.playlist_ids().contains(id) <==> exists|i: int|
            0 <= i < favorites.playlists.items().len() && (
            #[trigger] favorites.playlists.items()[i]).id == id,
        r.track_ids().contains(id) <==> exists|i: int|
            0 <= i < favorites.tracks.items().len() && (
            #[trigger] favorites.tracks.items()[i]).id == id,
{
    lemma_ids(favorites.albums.items(), |a: AlbumSimple| a.id@, album);
    lemma_ids(favorites.artists.items(), |a: Artist| a.id, id);
    lemma_ids(favorites.playlists.items(), |p: PlaylistSimple| p.id, id);
    lemma_ids(favorites.tracks.items(), |t: Track| t.id, id);
}

proof fn lemma_ids<T, K>(s: Seq<T>, f: spec_fn(T) -> K, key: K)
    ensures
        s.map_values(f).to_set().contains(key) <==> exists|i: int|
            0 <= i < s.len() && f(#[trigger] s[i]) == key,
{
    let mapped = s.map_values(f);
    if mapped.contains(key) {
        let i = choose|i: int| 0 <= i < mapped.len() && mapped[i] == key;
        assert(f(s[i]) == key);
    }
    if exists|i: int| 0 <= i < s.len() && f(#[trigger] s[i]) == key {
        let i = choose|i: int| 0 <= i < s.len() && f(#[trigger] s[i]) == key;
        assert(mapped[i] == key);
    }
}

/// Favourites that were loaded take the place of those that were known; without them nothing
/// changes.
pub proof fn law_loaded_favorites_are_taken<P>(app: &mut App<P>, favorites: Option<FavoritesState>)
    requires
        call_ensures(App::<P>::update_favorites, (app, favorites), ()),
    ensures
        favorites matches Some(loaded) ==> final(app).favorites == loaded,
        favorites is None ==> final(app).favorites == old(app).favorites
            && final(app).favorite_ids == old(app).favorite_ids,
        final(app).now_playing == old(app).now_playing,
{
}

/// A page is shown under its name, and a device that could not be chosen is told with the reason.
pub proof fn law_pages_are_shown_under_their_names(
    tab: Tab,
    name: &'static str,
    err: &str,
    message: String,
)
    requires
        call_ensures(Tab::as_str, (tab,), name),
        call_ensures(device_error, (err,), message),
    ensures
        tab == Tab::Favorites ==> name@ == "Favorites"@,
        tab == Tab::Search ==> name@ == "Search"@,
        tab == Tab::Queue ==> name@ == "Queue"@,
        tab == Tab::Discover ==> name@ == "Discover"@,
        tab == Tab::Genres ==> name@ == "Genres"@,
        tab == Tab::Preferences ==> name@ == "Preferences"@,
        message@ == "Unable to select device: "@ + err@,
{
}

/// A popup lies over those that were there.
pub proof fn law_a_popup_lies_on_top<P>(app: &mut App<P>, popup: P)
    requires
        call_ensures(App::<P>::push_popup, (app, popup), ()),
    ensures
        final(app).should_draw,
        final(app).app_state matches AppState::Popup(popups) && popups@.len() > 0 && popups@.last()
            == popup && (old(app).app_state matches AppState::Popup(before) ==> popups@.drop_last()
            == before@) && (!(old(app).app_state is Popup) ==> popups@.len() == 1),
{
    assert(final(app).shown().draw == final(app).should_draw);
    assert(final(app).shown().state == final(app).app_state@);
    assert(old(app).shown().state == old(app).app_state@);
    if let AppState::Popup(popups) = final(app).app_state {
        if let AppState::Popup(before) = old(app).app_state {
            assert(popups@.drop_last() =~= before@);
        }
    }
}

} // verus!

use qobine::filtered_list::{FilteredListState, PlaylistList, RowState};
use qobine::grid::{card_title, cut_to_width, truncate_to_width, Card, Grid, GridStep};
use qobine::image_cache::{ImageLoaded, ImageManager};
use qobine::keys::{Key, ALT, CONTROL, META, SHIFT};
use qobine::models::{AlbumSimple, Artist, Owner, Playlist, PlaylistSimple, Status, Track, TrackStatus};
use qobine::new_playlist::NewPlaylistOverlay;
use qobine::notification::{Notification, NotificationList};
use qobine::now_playing::{
    can_render_cover, can_render_header_cover, create_now_playing_state, gauge_text, get_status,
    info_lines, played_ms, NowPlayingState,
};
use qobine::overlays::{
    added_to_favorites, new_playlist_step, removed_from_favorites, AddTrackOverlay,
    DeletePlaylistOverlay, NameStep, PlaylistOverlay, PlaylistStep, TrackInfoOverlay,
    TrackInfoStep, TrackTabKind,
};
use qobine::sub_tab::SubTab;
use qobine::terminal_app::{
    build_favorite_ids, device_error, App, AppAction, AppState, FavoritesState, Output, Tab,
    TerminalEvent,
};
use qobine::tracklist::{AlbumTracklist, QueueItem, Tracklist, TracklistType};

fn text(value: &str) -> String {
    value.to_string()
}

fn playlist(id: u32, is_owned: bool) -> PlaylistSimple {
    PlaylistSimple {
        id,
        is_owned,
        title: format!("playlist {id}"),
        duration_seconds: 60,
        tracks_count: 1,
        image: None,
        owner: Owner { id: 1, name: text("me") },
    }
}

fn album(id: &str) -> AlbumSimple {
    AlbumSimple {
        id: text(id),
        title: text(id),
        artist: Artist { id: 1, name: text("x"), image: None },
        hires_available: false,
        explicit: false,
        available: true,
        image: text(""),
        duration_seconds: 1,
        release_year: 2000,
    }
}

fn favorites() -> FavoritesState {
    FavoritesState {
        albums: FilteredListState::new(vec![album("a"), album("b"), album("a")]),
        artists: FilteredListState::new(vec![Artist { id: 4, name: text("y"), image: None }]),
        playlists: FilteredListState::new(vec![playlist(1, true), playlist(2, false)]),
        tracks: FilteredListState::new(vec![Track { id: 9, ..Track::default() }]),
    }
}

fn queue(count: usize, at: usize, source: TracklistType) -> Tracklist {
    let items = (0..count)
        .map(|i| QueueItem {
            track: Track {
                id: i as u32 + 1,
                title: format!("t{i}"),
                album_id: Some(format!("album {i}")),
                album_title: Some(format!("title {i}")),
                artist_id: Some(i as u32 + 50),
                artist_name: Some(format!("artist {i}")),
                duration_seconds: 100,
                status: if i == at { TrackStatus::Playing } else { TrackStatus::Unplayed },
                ..Track::default()
            },
            queue_id: i as u64,
            index: i,
            connect_id: None,
        })
        .collect();
    Tracklist::new(source, items)
}

fn app() -> App<u8> {
    let favorites = favorites();
    App {
        current_screen: Tab::Favorites,
        exit: false,
        should_draw: false,
        should_clear: false,
        app_state: AppState::Normal,
        now_playing: create_now_playing_state(
            &queue(3, 1, TracklistType::Tracks),
            Status::Playing,
        ),
        favorite_ids: build_favorite_ids(&favorites),
        favorites,
        notifications: NotificationList::new(),
    }
}

fn press(app: &mut App<u8>, key: Key) -> Option<AppAction> {
    app.handle_event(TerminalEvent::Press(key), &vec![text("tv"), text("phone")])
}

fn unused(app: &mut App<u8>, c: char) -> Option<AppAction> {
    app.handle_output(Key::Char(c), Ok(Output::NotConsumed), 0)
}

#[test]
fn favourites_are_told_by_their_ids() {
    let ids = build_favorite_ids(&favorites());
    assert!(ids.albums().contains("a") && ids.albums().contains("b"));
    assert_eq!(ids.albums().len(), 2);
    assert!(ids.artists().contains(&4));
    assert_eq!(ids.playlists().len(), 2);
    assert!(ids.tracks().contains(&9));
}

#[test]
fn pages_have_names_and_keys() {
    let names: Vec<&str> = Tab::VALUES.iter().map(|tab| tab.as_str()).collect();
    assert_eq!(names, ["Favorites", "Search", "Queue", "Discover", "Genres", "Preferences"]);
    let mut app = app();
    for (c, tab) in ['1', '2', '3', '4', '5', '6'].into_iter().zip(Tab::VALUES) {
        app.should_draw = false;
        let action = unused(&mut app, c);
        assert_eq!(app.current_screen, tab);
        assert!(app.should_draw);
        assert_eq!(matches!(action, Some(AppAction::FocusSearch)), tab == Tab::Search);
    }
}

#[test]
fn keys_that_nobody_used_control_the_player() {
    let mut app = app();
    assert!(matches!(unused(&mut app, 'X'), Some(AppAction::ClearQueue)));
    assert!(matches!(unused(&mut app, ' '), Some(AppAction::PlayPause)));
    assert!(matches!(unused(&mut app, 'n'), Some(AppAction::Next)));
    assert!(matches!(unused(&mut app, 'p'), Some(AppAction::Previous)));
    assert!(matches!(unused(&mut app, 'f'), Some(AppAction::JumpForward)));
    assert!(matches!(unused(&mut app, 'b'), Some(AppAction::JumpBackward)));
    assert!(matches!(unused(&mut app, 'I'), Some(AppAction::OpenAlbum(id)) if id == "album 1"));
    assert!(matches!(
        unused(&mut app, 'G'),
        Some(AppAction::OpenArtist(artist)) if artist.id == 51 && artist.name == "artist 1"
    ));
    assert!(matches!(unused(&mut app, 'i'), Some(AppAction::OpenTrack(2))));
    assert!(!app.exit);
    assert!(unused(&mut app, 'q').is_none());
    assert!(app.exit);
}

#[test]
fn popups_are_stacked() {
    let mut app = app();
    assert!(matches!(press(&mut app, Key::Enter), Some(AppAction::AskScreen(Tab::Favorites))));
    app.handle_output(Key::Enter, Ok(Output::Popup(1)), 0);
    app.handle_output(Key::Enter, Ok(Output::Popup(2)), 0);
    assert!(matches!(press(&mut app, Key::Esc), Some(AppAction::AskPopup)));
    app.handle_output(Key::Esc, Ok(Output::PopPopup), 0);
    assert!(matches!(&app.app_state, AppState::Popup(popups) if *popups == vec![1]));
    let action = app.handle_output(Key::Esc, Ok(Output::PopPopupUpdateFavorites), 0);
    assert!(matches!(action, Some(AppAction::UpdateFavorites)));
    assert!(matches!(app.app_state, AppState::Normal));
    assert!(app.handle_output(Key::Esc, Ok(Output::PopPopupUpdateFavorites), 0).is_none());
}

#[test]
fn a_track_is_added_to_an_own_playlist() {
    let mut app = app();
    let track = Track { id: 9, ..Track::default() };
    let action = app.handle_output(Key::Enter, Ok(Output::AddTrackToPlaylistPopup(track)), 0);
    match action {
        Some(AppAction::ChoosePlaylist(track, playlists)) => {
            assert_eq!(track.id, 9);
            assert_eq!(playlists.iter().map(|p| p.id).collect::<Vec<_>>(), [1]);
        }
        _ => panic!("expected a choice"),
    }
    app.push_popup(5);
    let action =
        app.handle_output(Key::Enter, Ok(Output::AddTrackToPlaylistAndPopPopup((9, 1))), 0);
    assert!(matches!(action, Some(AppAction::AddTrack { playlist_id: 1, track_id: 9 })));
    assert!(matches!(app.track_added(Ok(()), 3), Some(AppAction::UpdateFavorites)));
    assert!(matches!(app.app_state, AppState::Normal));
    assert!(app.track_added(Err(text("no")), 4).is_none());
    let notes = app.notifications.notifications();
    assert_eq!(*notes[0], Notification::Info(text("Added to playlist")));
    assert_eq!(*notes[1], Notification::Error(text("no")));
}

#[test]
fn failures_are_shown() {
    let mut app = app();
    assert!(app.handle_output(Key::Enter, Err(text("broken")), 0).is_none());
    assert!(!app.should_draw);
    assert_eq!(*app.notifications.notifications()[0], Notification::Error(text("broken")));
    assert_eq!(device_error("gone"), "Unable to select device: gone");
}

#[test]
fn help_and_focus_end_with_a_key() {
    let mut app = app();
    unused(&mut app, '?');
    assert!(matches!(app.app_state, AppState::Help));
    assert!(press(&mut app, Key::Char('q')).is_none());
    assert!(matches!(app.app_state, AppState::Normal));
    assert!(!app.exit);
    unused(&mut app, 'F');
    assert!(matches!(press(&mut app, Key::Char(' ')), Some(AppAction::PlayPause)));
    assert!(matches!(app.app_state, AppState::Focus));
    assert!(matches!(press(&mut app, Key::Char('n')), Some(AppAction::Next)));
    press(&mut app, Key::Esc);
    assert!(matches!(app.app_state, AppState::Normal));
}

#[test]
fn a_device_is_chosen() {
    let mut app = app();
    assert!(matches!(unused(&mut app, 'c'), Some(AppAction::AskConnect)));
    app.connect_configured(false);
    assert!(matches!(app.app_state, AppState::Normal));
    app.connect_configured(true);
    press(&mut app, Key::Down);
    press(&mut app, Key::Right);
    assert!(matches!(app.app_state, AppState::ConnectPopup(1)));
    assert!(matches!(
        press(&mut app, Key::Enter),
        Some(AppAction::SelectDevice(name)) if name == "phone"
    ));
    app.connect_configured(true);
    press(&mut app, Key::Up);
    assert!(matches!(app.app_state, AppState::ConnectPopup(0)));
    assert!(press(&mut app, Key::Char('x')).is_none());
    assert!(matches!(app.app_state, AppState::Normal));
}

#[test]
fn the_screen_is_drawn_when_something_changed() {
    let mut app = app();
    assert_eq!(app.take_frame(), (false, false));
    app.position_changed(4_294_967_297_000_000);
    assert_eq!(app.now_playing.duration_ms, 1);
    assert_eq!(app.take_frame(), (false, true));
    app.status_changed(Status::Paused);
    assert_eq!(app.now_playing.status, Status::Paused);
    let tracks = app.tracklist_changed(&queue(2, 0, TracklistType::Tracks));
    assert_eq!(tracks.len(), 2);
    assert_eq!(app.now_playing.tracklist_length, 2);
    assert_eq!(app.now_playing.status, Status::Paused);
    app.take_frame();
    app.notified(Notification::Success(text("hi")), 1);
    assert_eq!(app.take_frame(), (false, true));
    app.tick(2);
    assert_eq!(app.take_frame(), (false, false));
    app.tick(6_000_000_000);
    assert_eq!(app.take_frame(), (true, true));
    app.image_loaded();
    assert!(app.should_draw);
    app.update_favorites(None);
    assert_eq!(app.favorite_ids.playlists().len(), 2);
}

#[test]
fn messages_are_shown_for_five_seconds() {
    let mut list = NotificationList::new();
    list.push(Notification::Info(text("a")), 0);
    list.push(Notification::Info(text("b")), 1_000_000_000);
    assert!(!list.tick(4_999_999_999));
    assert!(list.tick(5_000_000_000));
    assert_eq!(list.notifications().len(), 1);
}

#[test]
fn a_queue_is_titled_by_what_it_belongs_to() {
    let source = TracklistType::Album(AlbumTracklist {
        title: text("Meddle"),
        id: text("m"),
        image: None,
    });
    let state = create_now_playing_state(&queue(3, 2, source), Status::Paused);
    assert_eq!(state.entity_title.as_deref(), Some("Meddle"));
    assert_eq!(state.tracklist_position, 2);
    let track = state.playing_track.as_ref().unwrap();
    assert_eq!(info_lines(&state, track), ["t2", "artist 2", "Meddle", "3 of 3"]);
    let loose = create_now_playing_state(&queue(3, 2, TracklistType::Tracks), Status::Paused);
    assert_eq!(loose.entity_title.as_deref(), Some("title 2"));
}

#[test]
fn progress_is_a_bar() {
    assert_eq!(gauge_text(2, 4, 5), "██▌  ");
    assert_eq!(gauge_text(5, 0, 5), "█████");
    assert_eq!(gauge_text(0, 0, 2), "  ");
    assert_eq!(gauge_text(0, 8, 1), "█");
    let track = Track { duration_seconds: 2, ..Track::default() };
    assert_eq!(played_ms(1500, &track), 1500);
    assert_eq!(played_ms(2500, &track), 2000);
    assert_eq!(get_status(Status::Playing), "Playing ⏵");
    assert_eq!(get_status(Status::Paused), "Paused ⏸");
    assert_eq!(get_status(Status::Buffering), "Buffering");
}

#[test]
fn a_cover_needs_room() {
    assert!(can_render_cover(false, true, 23, 10, 20, 10, 2));
    assert!(!can_render_cover(false, true, 22, 10, 20, 10, 2));
    assert!(!can_render_cover(true, true, 99, 99, 20, 10, 2));
    assert!(!can_render_cover(false, false, 99, 99, 20, 10, 2));
    assert!(can_render_header_cover(true, 22, 10, 20, 10, 2));
    assert!(!can_render_header_cover(true, 22, 9, 20, 10, 2));
}

#[test]
fn lists_go_round() {
    assert_eq!(SubTab::default(), SubTab::Albums);
    assert_eq!(SubTab::Tracks.next(), SubTab::Albums);
    assert_eq!(SubTab::Albums.previous(), SubTab::Tracks);
    for (i, tab) in [SubTab::Albums, SubTab::Artists, SubTab::Playlists, SubTab::Tracks]
        .into_iter()
        .enumerate()
    {
        assert_eq!(tab.selected(), i);
        assert_eq!(tab.next().previous(), tab);
        assert_eq!(SubTab::labels()[i], tab.as_str());
    }
}

#[test]
fn a_list_is_filtered_and_rearranged() {
    let mut list = FilteredListState::new(vec![1, 2, 3]);
    list.set_filter(vec![2]);
    assert_eq!(list.filter(), [2]);
    assert_eq!(list.all_items(), [1, 2, 3]);
    list.move_index_to_new_index(0, 2);
    assert_eq!(list.filter(), [2, 3, 1]);
    list.move_index_to_new_index(2, 0);
    assert_eq!(list.all_items(), [1, 2, 3]);
    list.remove_at_index(1);
    assert_eq!(list.filter(), [1, 3]);
    list.remove_at_index(7);
    assert_eq!(list.all_items(), [1, 3]);
    list.set_all_items(vec![9]);
    assert_eq!(list.filter(), [9]);
}

#[test]
fn rows_are_chosen() {
    let mut state = RowState::default();
    state.select_previous();
    assert_eq!(state.selected, Some(usize::MAX));
    state.select_next();
    assert_eq!(state.selected, Some(usize::MAX));
    state.offset = 4;
    state.select(None);
    assert_eq!(state.offset, 0);
    state.select_next();
    assert_eq!(state.selected, Some(0));
    let mut list = PlaylistList::new(vec![playlist(1, true), playlist(2, true)]);
    assert_eq!(list.selected(), Some(0));
    list.select_next();
    assert_eq!(list.get(1).map(|p| p.id), Some(2));
    list.select_previous();
    assert_eq!(list.selected(), Some(0));
    assert!(list.get(2).is_none());
    assert_eq!(PlaylistList::new(vec![]).selected(), None);
}

#[test]
fn a_grid_scrolls_to_its_choice() {
    let mut grid = Grid::new((0..10).collect::<Vec<i32>>());
    let cards = grid.layout(1, 2, 21, 11, 10, 5);
    assert_eq!(cards.len(), 4);
    assert_eq!(cards[3], Card { index: 3, x: 11, y: 7, selected: false });
    assert!(cards[0].selected);
    assert_eq!(grid.handle_key(Key::Down), GridStep::Consumed);
    assert_eq!(grid.handle_key(Key::Char('j')), GridStep::Consumed);
    assert_eq!(grid.selected(), Some(&4));
    let cards = grid.layout(1, 2, 21, 11, 10, 5);
    assert_eq!(cards.iter().map(|c| c.index).collect::<Vec<_>>(), [2, 3, 4, 5]);
    for _ in 0..9 {
        grid.handle_key(Key::Char('l'));
    }
    assert_eq!(grid.selected(), Some(&9));
    let cards = grid.layout(1, 2, 21, 11, 10, 5);
    assert!(cards.iter().any(|c| c.selected && c.index == 9));
    grid.handle_key(Key::Left);
    grid.handle_key(Key::Up);
    assert_eq!(grid.selected(), Some(&6));
    assert!(grid.layout(0, 0, 9, 11, 10, 5).is_empty());
    grid.set_filter(vec![5]);
    assert_eq!(grid.selected(), Some(&5));
    assert_eq!(grid.all_items().len(), 10);
}

#[test]
fn a_grid_passes_requests_on() {
    let mut grid = Grid::new(vec![1]);
    assert_eq!(grid.handle_key(Key::Char('A')), GridStep::AddToFavorites);
    assert_eq!(grid.handle_key(Key::Char('U')), GridStep::RemoveFromFavorites);
    assert_eq!(grid.handle_key(Key::Char('B')), GridStep::AddToQueue);
    assert_eq!(grid.handle_key(Key::Enter), GridStep::Open);
    assert_eq!(grid.handle_key(Key::Char('z')), GridStep::NotConsumed);
    grid.set_all_items(vec![]);
    assert_eq!(grid.selected(), None);
    assert_eq!(grid.handle_key(Key::Enter), GridStep::Consumed);
    assert_eq!(grid.filter().len(), 0);
}

#[test]
fn titles_are_cut_to_columns() {
    assert_eq!(truncate_to_width("short", 5), "short");
    assert_eq!(truncate_to_width("too long", 5), "too…");
    assert_eq!(truncate_to_width("日本語の題", 10), "日本語の題");
    assert_eq!(truncate_to_width("日本語の題", 6), "日本…");
    assert_eq!(truncate_to_width("abc", 0), "");
    assert_eq!(cut_to_width("abc", 1, 3, 2, &vec![1, 1, 1]), "");
    assert_eq!(cut_to_width("a b", 2, 3, 1, &vec![1, 0, 1]), "a…");
    assert_eq!(card_title("Echoes", 8, 8), "Echoes");
    assert_eq!(card_title("Echoes", 8, 10), "Ech…");
}

#[test]
fn images_are_fetched_once() {
    let mut images: ImageManager<u8> = ImageManager::new();
    assert!(images.get("u").is_none());
    assert!(images.request("u"));
    assert!(!images.request("u"));
    assert!(images.get("u").is_none());
    images.insert(ImageLoaded { url: text("u"), image: Some(7) });
    assert_eq!(images.get("u"), Some(&7));
    images.insert(ImageLoaded { url: text("v"), image: None });
    assert!(!images.request("v"));
    assert!(images.get("v").is_none());
    assert!(!images.request("u"));
    assert!(images.request("w"));
}

#[test]
fn what_is_new_is_empty() {
    let mut grid: Grid<u8> = Grid::default();
    assert!(grid.filter().is_empty());
    assert!(grid.all_items().is_empty());
    assert!(grid.selected().is_none());
    assert!(matches!(grid.handle_key(Key::Down), GridStep::Consumed));
    assert!(grid.selected().is_none());
    grid.set_all_items(vec![4, 5]);
    assert_eq!(grid.selected(), Some(&4));
    assert!(matches!(grid.handle_key(Key::Down), GridStep::Consumed));
    assert_eq!(grid.selected(), Some(&4));

    let list: FilteredListState<u8> = FilteredListState::default();
    assert!(list.filter().is_empty());
    assert_eq!(list.state().selected, None);
    assert_eq!(PlaylistList::default().selected(), None);
    assert!(NotificationList::default().notifications().is_empty());
    assert!(matches!(AppState::<u8>::default(), AppState::Normal));

    let state = NowPlayingState::default();
    assert!(state.entity_title.is_none() && state.playing_track.is_none());
    assert_eq!((state.tracklist_length, state.tracklist_position, state.duration_ms), (0, 0, 0));
    assert!(matches!(state.status, Status::Paused));
}

#[test]
fn a_playlist_is_chosen_for_a_track() {
    let track = Track { id: 9, title: text("Echoes"), ..Track::default() };
    let mut overlay = AddTrackOverlay::new(track, vec![playlist(1, true), playlist(2, true)]);
    assert_eq!(overlay.heading(), "Add Echoes to playlist");
    assert_eq!(overlay.track_title(), "Echoes");
    assert!(matches!(overlay.handle_event::<u8>(Key::Char('j')), Output::Consumed));
    assert!(matches!(
        overlay.handle_event::<u8>(Key::Enter),
        Output::AddTrackToPlaylistAndPopPopup((9, 2))
    ));
    overlay.handle_event::<u8>(Key::Down);
    assert!(matches!(overlay.handle_event::<u8>(Key::Enter), Output::Consumed));
    assert!(matches!(overlay.handle_event::<u8>(Key::Esc), Output::PopPopup));
}

#[test]
fn deleting_is_confirmed() {
    let mut overlay = DeletePlaylistOverlay::new(playlist(3, true));
    assert_eq!(overlay.heading(), "Delete playlist 3?");
    assert_eq!(overlay.selected(), 1);
    let step = overlay.handle_event::<u8>(Key::Enter);
    assert!(step.delete.is_none() && matches!(step.output, Output::PopPopupUpdateFavorites));
    overlay.handle_event::<u8>(Key::Char('h'));
    assert_eq!(overlay.selected(), 0);
    assert_eq!(overlay.handle_event::<u8>(Key::Enter).delete, Some(3));
}

#[test]
fn a_new_playlist_needs_a_name() {
    assert!(matches!(new_playlist_step(Key::Enter, "  Mix "), NameStep::Create(n) if n == "Mix"));
    assert!(matches!(new_playlist_step(Key::Enter, "  "), NameStep::Nothing));
    assert!(matches!(new_playlist_step(Key::Esc, "x"), NameStep::Close));
    assert!(matches!(new_playlist_step(Key::Char('x'), ""), NameStep::Type));
}

fn hit(overlay: &mut NewPlaylistOverlay, key: Key, modifiers: u8) -> (String, usize) {
    assert!(matches!(overlay.handle_event(key, modifiers), NameStep::Type));
    (overlay.name(), overlay.cursor())
}

fn typed(name: &str) -> NewPlaylistOverlay {
    let mut overlay = NewPlaylistOverlay::default();
    for c in name.chars() {
        hit(&mut overlay, Key::Char(c), if c.is_uppercase() { SHIFT } else { 0 });
    }
    assert_eq!((overlay.name().as_str(), overlay.cursor()), (name, name.chars().count()));
    overlay
}

#[test]
fn a_name_is_typed() {
    let mut empty = NewPlaylistOverlay::new();
    assert!(matches!(empty.handle_event(Key::Enter, 0), NameStep::Nothing));
    let mut overlay = typed(" My mix");
    for (key, modifiers) in [(Key::Other, 0), (Key::Up, 0), (Key::Home, SHIFT), (Key::Char('x'), ALT)] {
        assert_eq!(hit(&mut overlay, key, modifiers), (text(" My mix"), 7));
    }
    assert_eq!(hit(&mut overlay, Key::Char('@'), CONTROL | ALT), (text(" My mix@"), 8));
    assert!(matches!(overlay.handle_event(Key::Esc, 0), NameStep::Close));
    let step = overlay.handle_event(Key::Enter, 0);
    assert!(matches!(step, NameStep::Create(name) if name == "My mix@"));
    assert_eq!((overlay.name().as_str(), overlay.cursor()), (" My mix@", 8));
}

#[test]
fn the_caret_steps_by_characters_and_words() {
    let mut overlay = typed("one two e\u{301}");
    assert_eq!(hit(&mut overlay, Key::Left, 0).1, 8);
    assert_eq!(hit(&mut overlay, Key::Right, 0).1, 10);
    assert_eq!(hit(&mut overlay, Key::Left, CONTROL).1, 8);
    assert_eq!(hit(&mut overlay, Key::Char('b'), META).1, 4);
    assert_eq!(hit(&mut overlay, Key::Char('b'), CONTROL).1, 3);
    assert_eq!(hit(&mut overlay, Key::Home, 0).1, 0);
    assert_eq!(hit(&mut overlay, Key::Left, 0).1, 0);
    assert_eq!(hit(&mut overlay, Key::Right, CONTROL).1, 4);
    assert_eq!(hit(&mut overlay, Key::Char('f'), META).1, 8);
    assert_eq!(hit(&mut overlay, Key::Char('a'), CONTROL).1, 0);
    assert_eq!(hit(&mut overlay, Key::Char('f'), CONTROL).1, 1);
    assert_eq!(hit(&mut overlay, Key::End, 0).1, 10);
    assert_eq!(hit(&mut overlay, Key::Char('e'), CONTROL).1, 10);
    assert_eq!(hit(&mut overlay, Key::Right, CONTROL).1, 10);
}

#[test]
fn characters_and_words_are_deleted() {
    let mut overlay = typed("one two e\u{301}");
    assert_eq!(hit(&mut overlay, Key::Backspace, 0), (text("one two "), 8));
    assert_eq!(hit(&mut overlay, Key::Char('h'), CONTROL), (text("one two"), 7));
    assert_eq!(hit(&mut overlay, Key::Delete, 0), (text("one two"), 7));
    assert_eq!(hit(&mut overlay, Key::Backspace, ALT), (text("one "), 4));
    hit(&mut overlay, Key::Home, 0);
    assert_eq!(hit(&mut overlay, Key::Delete, 0), (text("ne "), 0));
    assert_eq!(hit(&mut overlay, Key::Backspace, 0), (text("ne "), 0));
    assert_eq!(hit(&mut overlay, Key::Delete, CONTROL), (text(""), 0));
    assert_eq!(hit(&mut overlay, Key::Char('y'), CONTROL), (text("ne "), 3));
}

#[test]
fn what_was_cut_comes_back() {
    let mut overlay = typed("one two");
    assert_eq!(hit(&mut overlay, Key::Char('u'), CONTROL), (text(""), 0));
    assert_eq!(hit(&mut overlay, Key::Char('y'), CONTROL), (text("one two"), 7));
    hit(&mut overlay, Key::Left, CONTROL);
    assert_eq!(hit(&mut overlay, Key::Char('k'), CONTROL), (text("one "), 4));
    assert_eq!(hit(&mut overlay, Key::Char('y'), CONTROL), (text("one two"), 7));

    let mut joined = typed("one two");
    hit(&mut joined, Key::Char('w'), CONTROL);
    assert_eq!(hit(&mut joined, Key::Char('w'), CONTROL), (text(""), 0));
    assert_eq!(hit(&mut joined, Key::Char('y'), CONTROL), (text("one two"), 7));

    let mut apart = typed("one two");
    hit(&mut apart, Key::Char('w'), CONTROL);
    hit(&mut apart, Key::End, 0);
    assert_eq!(hit(&mut apart, Key::Char('d'), META), (text(""), 0));
    assert_eq!(hit(&mut apart, Key::Char('y'), CONTROL), (text("one "), 4));

    let mut kept = typed("one two");
    hit(&mut kept, Key::Backspace, META);
    hit(&mut kept, Key::Right, 0);
    assert_eq!(hit(&mut kept, Key::Char('w'), CONTROL), (text(""), 0));
    assert_eq!(hit(&mut kept, Key::Char('y'), CONTROL), (text("one two"), 7));
}

fn playlist_page(is_owned: bool) -> PlaylistOverlay {
    let tracks = (0..3)
        .map(|i| Track { id: i, playlist_track_id: Some(u64::from(i) + 10), ..Track::default() })
        .collect();
    PlaylistOverlay::new(Playlist {
        id: 5,
        is_owned,
        title: text("Mix"),
        duration_seconds: 99,
        image: None,
        tracks,
        owner: Owner { id: 1, name: text("me") },
    })
}

#[test]
fn tracks_of_an_own_playlist_are_moved_and_deleted() {
    let mut page = playlist_page(true);
    assert_eq!(page.header_lines("1:39"), ["Mix", "me", "", "3 tracks · 1:39"]);
    assert_eq!(page.handle_event(Key::Char('D')), PlaylistStep::Consumed);
    page.select_index(0);
    assert_eq!(page.handle_event(Key::Char('u')), PlaylistStep::Consumed);
    assert_eq!(
        page.handle_event(Key::Char('d')),
        PlaylistStep::Move { index: 0, new_index: 1, playlist_track_id: 10 }
    );
    page.track_moved(0, 1);
    assert_eq!(
        page.handle_event(Key::Char('u')),
        PlaylistStep::Move { index: 1, new_index: 0, playlist_track_id: 10 }
    );
    assert_eq!(
        page.handle_event(Key::Char('D')),
        PlaylistStep::Delete { index: 1, playlist_track_id: 10 }
    );
    page.track_deleted(1);
    assert_eq!(page.header_lines("")[3], "2 tracks · ");
    assert_eq!(page.selected_control(), 0);
    assert_eq!(page.handle_event(Key::Left), PlaylistStep::Consumed);
    assert_eq!(page.selected_control(), 1);
    assert_eq!(page.handle_event(Key::Esc), PlaylistStep::Close);
    assert_eq!(page.handle_event(Key::Enter), PlaylistStep::List);
    let mut foreign = playlist_page(false);
    foreign.select_index(0);
    assert_eq!(foreign.handle_event(Key::Char('d')), PlaylistStep::Consumed);
}

#[test]
fn a_track_has_pages() {
    let track = Track {
        title: text("Echoes"),
        album_id: Some(text("m")),
        artist_id: Some(7),
        release_date: Some(text("1971")),
        performers: Some(text("A, guitar - B, bass -  - ")),
        copyright: Some(text("(C)")),
        hires_available: true,
        bit_depth: Some(24),
        sampling_rate: Some(1),
        explicit: true,
        ..Track::default()
    };
    let mut page = TrackInfoOverlay::new(track);
    let lines: Vec<(String, bool)> =
        page.information_lines().into_iter().map(|l| (l.text, l.bold)).collect();
    assert_eq!(
        lines,
        [
            (text("Released: 1971"), false),
            (text(""), false),
            (text("Credits"), true),
            (text("A, guitar"), false),
            (text("B, bass"), false),
            (text(""), false),
            (text("Copyright"), true),
            (text("(C)"), false),
        ]
    );
    assert_eq!(page.metadata_parts("23:31", "96").len(), 6);
    assert_eq!(page.metadata_parts("23:31", "96")[3], " 24 bit - 96kHz");
    assert_eq!(page.header_names(), (text("Unknown artist"), text("Unknown album")));
    assert!(matches!(page.handle_event(Key::Enter), TrackInfoStep::Consumed));
    page.handle_event(Key::Down);
    assert_eq!(page.selected_tab_kind(), TrackTabKind::GoToAlbum);
    assert_eq!(page.page_message(), "Press Enter to open album");
    assert!(matches!(page.handle_event(Key::Enter), TrackInfoStep::OpenAlbum(id) if id == "m"));
    page.handle_event(Key::Char('j'));
    assert!(matches!(
        page.handle_event(Key::Char('l')),
        TrackInfoStep::OpenArtist(artist) if artist.id == 7 && artist.name.is_empty()
    ));
    page.handle_event(Key::Down);
    assert_eq!(page.selected_tab_kind(), TrackTabKind::Info);
    page.handle_event(Key::Up);
    assert_eq!(page.selected_tab_kind(), TrackTabKind::GoToArtist);
    assert!(matches!(page.handle_event(Key::Esc), TrackInfoStep::Close));
}

#[test]
fn favourites_are_announced() {
    assert_eq!(added_to_favorites("Meddle"), "Meddle added to favorites");
    assert_eq!(removed_from_favorites("Meddle"), "Meddle removed from favorites");
}

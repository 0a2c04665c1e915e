//! The terminal: what a key does on each page, and when the screen is drawn again.

use std::collections::HashSet;
use vstd::prelude::*;
use vstd::hash_set::StringHashSet;
use crate::filtered_list::FilteredListState;
use crate::keys::Key;
use crate::models::{AlbumSimple, Artist, PlaylistSimple, Status, Track};
use crate::notification::{still_shown, Entry, Notification, NotificationList, NotificationView};
use crate::now_playing::{create_now_playing_state, queue_title, track_playing, NowPlayingState};
use crate::text::{owned, views};
use crate::tracklist::{position_of_playing, Tracklist};
use crate::web::{is_owned, owned_playlists};

verus! {

/// The ids of what the user likes.
pub struct FavoriteIds {
    albums: StringHashSet,
    artists: HashSet<u32>,
    playlists: HashSet<u32>,
    tracks: HashSet<u32>,
}

/// What the user likes.
pub struct FavoritesState {
    pub albums: FilteredListState<AlbumSimple>,
    pub artists: FilteredListState<Artist>,
    pub playlists: FilteredListState<PlaylistSimple>,
    pub tracks: FilteredListState<Track>,
}

impl FavoriteIds {
    /// The ids of the albums.
    pub closed spec fn album_ids(&self) -> Set<Seq<char>> {
        self.albums@
    }

    /// The ids of the artists.
    pub closed spec fn artist_ids(&self) -> Set<u32> {
        self.artists@
    }

    /// The ids of the playlists.
    pub closed spec fn playlist_ids(&self) -> Set<u32> {
        self.playlists@
    }

    /// The ids of the tracks.
    pub closed spec fn track_ids(&self) -> Set<u32> {
        self.tracks@
    }

    pub fn albums(&self) -> (r: &StringHashSet)
        ensures
            r@ == self.album_ids(),
    {
        &self.albums
    }

    pub fn artists(&self) -> (r: &HashSet<u32>)
        ensures
            r@ == self.artist_ids(),
    {
        &self.artists
    }

    pub fn playlists(&self) -> (r: &HashSet<u32>)
        ensures
            r@ == self.playlist_ids(),
    {
        &self.playlists
    }

    pub fn tracks(&self) -> (r: &HashSet<u32>)
        ensures
            r@ == self.track_ids(),
    {
        &self.tracks
    }
}

/// The ids of favourites are those of all items of their lists.
pub open spec fn ids_of(favorites: FavoritesState, ids: FavoriteIds) -> bool {
    &&& ids.album_ids() == favorites.albums.items().map_values(|a: AlbumSimple| a.id@).to_set()
    &&& ids.artist_ids() == favorites.artists.items().map_values(|a: Artist| a.id).to_set()
    &&& ids.playlist_ids() == favorites.playlists.items().map_values(
        |p: PlaylistSimple| p.id,
    ).to_set()
    &&& ids.track_ids() == favorites.tracks.items().map_values(|t: Track| t.id).to_set()
}

proof fn lemma_taken_ids<T, K>(s: Seq<T>, f: spec_fn(T) -> K, i: int)
    requires
        0 <= i < s.len(),
    ensures
        s.take(i + 1).map_values(f).to_set() == s.take(i).map_values(f).to_set().insert(f(s[i])),
{
    let more = s.take(i + 1).map_values(f);
    let less = s.take(i).map_values(f);
    assert(more =~= less.push(f(s[i])));
    assert forall|k: K| more.to_set().contains(k) <==> less.to_set().insert(f(s[i])).contains(
        k,
    ) by {
        if more.contains(k) {
            let j = choose|j: int| 0 <= j < more.len() && more[j] == k;
            if j < i {
                assert(less[j] == k);
            }
        }
        if less.contains(k) {
            let j = choose|j: int| 0 <= j < less.len() && less[j] == k;
            assert(more[j] == k);
        }
        assert(more[i] == f(s[i]));
    }
    assert(more.to_set() =~= less.to_set().insert(f(s[i])));
}

proof fn lemma_no_ids<T, K>(s: Seq<T>, f: spec_fn(T) -> K)
    ensures
        s.take(0).map_values(f).to_set() == Set::<K>::empty(),
        s.take(s.len() as int) == s,
{
    assert(s.take(0).map_values(f).to_set() =~= Set::<K>::empty());
    assert(s.take(s.len() as int) =~= s);
}

fn album_ids(items: &[AlbumSimple]) -> (r: StringHashSet)
    ensures
        r@ == items@.map_values(|a: AlbumSimple| a.id@).to_set(),
{
    let ghost f = |a: AlbumSimple| a.id@;
    let mut ids = StringHashSet::new();
    proof {
        lemma_no_ids(items@, f);
    }
    for i in 0..items.len()
        invariant
            ids@ == items@.take(i as int).map_values(f).to_set(),
            f == (|a: AlbumSimple| a.id@),
    {
        proof {
            lemma_taken_ids(items@, f, i as int);
        }
        ids.insert(items[i].id.clone());
    }
    ids
}

fn artist_ids(items: &[Artist]) -> (r: HashSet<u32>)
    ensures
        r@ == items@.map_values(|a: Artist| a.id).to_set(),
{
    broadcast use vstd::std_specs::hash::group_hash_axioms;

    let ghost f = |a: Artist| a.id;
    let mut ids: HashSet<u32> = HashSet::new();
    proof {
        lemma_no_ids(items@, f);
    }
    for i in 0..items.len()
        invariant
            ids@ == items@.take(i as int).map_values(f).to_set(),
            f == (|a: Artist| a.id),
    {
        proof {
            lemma_taken_ids(items@, f, i as int);
        }
        ids.insert(items[i].id);
    }
    ids
}

fn playlist_ids(items: &[PlaylistSimple]) -> (r: HashSet<u32>)
    ensures
        r@ == items@.map_values(|p: PlaylistSimple| p.id).to_set(),
{
    broadcast use vstd::std_specs::hash::group_hash_axioms;

    let ghost f = |p: PlaylistSimple| p.id;
    let mut ids: HashSet<u32> = HashSet::new();
    proof {
        lemma_no_ids(items@, f);
    }
    for i in 0..items.len()
        invariant
            ids@ == items@.take(i as int).map_values(f).to_set(),
            f == (|p: PlaylistSimple| p.id),
    {
        proof {
            lemma_taken_ids(items@, f, i as int);
        }
        ids.insert(items[i].id);
    }
    ids
}

fn track_ids(items: &[Track]) -> (r: HashSet<u32>)
    ensures
        r@ == items@.map_values(|t: Track| t.id).to_set(),
{
    broadcast use vstd::std_specs::hash::group_hash_axioms;

    let ghost f = |t: Track| t.id;
    let mut ids: HashSet<u32> = HashSet::new();
    proof {
        lemma_no_ids(items@, f);
    }
    for i in 0..items.len()
        invariant
            ids@ == items@.take(i as int).map_values(f).to_set(),
            f == (|t: Track| t.id),
    {
        proof {
            lemma_taken_ids(items@, f, i as int);
        }
        ids.insert(items[i].id);
    }
    ids
}

pub fn build_favorite_ids(favorite_state: &FavoritesState) -> (r: FavoriteIds)
    ensures
        ids_of(*favorite_state, r),
{
    FavoriteIds {
        albums: album_ids(favorite_state.albums.all_items()),
        artists: artist_ids(favorite_state.artists.all_items()),
        playlists: playlist_ids(favorite_state.playlists.all_items()),
        tracks: track_ids(favorite_state.tracks.all_items()),
    }
}

/// What became of a key.
pub enum Output<P> {
    Consumed,
    NotConsumed,
    UpdateFavorites,
    Popup(P),
    PopPopup,
    PopPopupUpdateFavorites,
    AddTrackToPlaylistPopup(Track),
    /// The track and the playlist that it is added to.
    AddTrackToPlaylistAndPopPopup((u32, u32)),
}

/// A page.
#[derive(Clone, Copy, Debug, PartialEq, Eq, Structural)]
pub enum Tab {
    Favorites,
    Search,
    Queue,
    Discover,
    Genres,
    Preferences,
}

impl Default for Tab {
    fn default() -> (r: Tab)
        ensures
            r == Tab::Favorites,
    {
        Tab::Favorites
    }
}

impl Tab {
    /// The name of a page.
    pub open spec fn name(self) -> Seq<char> {
        match self {
            Tab::Favorites => "Favorites"@,
            Tab::Search => "Search"@,
            Tab::Queue => "Queue"@,
            Tab::Discover => "Discover"@,
            Tab::Genres => "Genres"@,
            Tab::Preferences => "Preferences"@,
        }
    }

    pub fn as_str(self) -> (r: &'static str)
        ensures
            r@ == self.name(),
    {
        match self {
            Tab::Favorites => "Favorites",
            Tab::Search => "Search",
            Tab::Queue => "Queue",
            Tab::Discover => "Discover",
            Tab::Genres => "Genres",
            Tab::Preferences => "Preferences",
        }
    }

    /// The pages in their order.
    pub const VALUES: [Tab; 6] = [
        Tab::Favorites,
        Tab::Search,
        Tab::Queue,
        Tab::Discover,
        Tab::Genres,
        Tab::Preferences,
    ];
}

/// What lies over the page. The last popup is on top.
pub enum AppState<P> {
    Normal,
    Popup(Vec<P>),
    Help,
    ConnectPopup(usize),
    Focus,
}

impl<P> Default for AppState<P> {
    fn default() -> (r: AppState<P>)
        ensures
            r@ == StateView::<P>::Normal,
    {
        AppState::Normal
    }
}

/// What lies over the page.
pub enum StateView<P> {
    Normal,
    Popup { popups: Seq<P> },
    Help,
    ConnectPopup { selected: usize },
    Focus,
}

impl<P> View for AppState<P> {
    type V = StateView<P>;

    open spec fn view(&self) -> StateView<P> {
        match self {
            AppState::Normal => StateView::Normal,
            AppState::Popup(popups) => StateView::Popup { popups: popups@ },
            AppState::Help => StateView::Help,
            AppState::ConnectPopup(selected) => StateView::ConnectPopup { selected: *selected },
            AppState::Focus => StateView::Focus,
        }
    }
}

/// What is left to be done outside.
pub enum AppAction {
    UpdateFavorites,
    ClearQueue,
    PlayPause,
    Next,
    Previous,
    JumpForward,
    JumpBackward,
    /// Whether remote playback is switched on is to be told.
    AskConnect,
    FocusSearch,
    OpenAlbum(String),
    OpenArtist(Artist),
    OpenTrack(u32),
    /// A popup offers the playlists for the track.
    ChoosePlaylist(Track, Vec<PlaylistSimple>),
    AddTrack { playlist_id: u32, track_id: u32 },
    SelectDevice(String),
    /// The popup on top gets the key, and what became of it is to be told.
    AskPopup,
    /// The page gets the key, and what became of it is to be told.
    AskScreen(Tab),
}

/// What is left to be done.
pub enum ActionView {
    UpdateFavorites,
    ClearQueue,
    PlayPause,
    Next,
    Previous,
    JumpForward,
    JumpBackward,
    AskConnect,
    FocusSearch,
    OpenAlbum { album: Seq<char> },
    OpenArtist { artist: u32, name: Seq<char>, image: Option<Seq<char>> },
    OpenTrack { track: u32 },
    ChoosePlaylist { offered: Track, playlists: Seq<PlaylistSimple> },
    AddTrack { playlist_id: u32, track_id: u32 },
    SelectDevice { device: Seq<char> },
    AskPopup,
    AskScreen { tab: Tab },
}

impl View for AppAction {
    type V = ActionView;

    open spec fn view(&self) -> ActionView {
        match self {
            AppAction::UpdateFavorites => ActionView::UpdateFavorites,
            AppAction::ClearQueue => ActionView::ClearQueue,
            AppAction::PlayPause => ActionView::PlayPause,
            AppAction::Next => ActionView::Next,
            AppAction::Previous => ActionView::Previous,
            AppAction::JumpForward => ActionView::JumpForward,
            AppAction::JumpBackward => ActionView::JumpBackward,
            AppAction::AskConnect => ActionView::AskConnect,
            AppAction::FocusSearch => ActionView::FocusSearch,
            AppAction::OpenAlbum(album) => ActionView::OpenAlbum { album: album@ },
            AppAction::OpenArtist(artist) => ActionView::OpenArtist {
                artist: artist.id,
                name: artist.name@,
                image: match artist.image {
                    Some(image) => Some(image@),
                    None => None,
                },
            },
            AppAction::OpenTrack(track) => ActionView::OpenTrack { track: *track },
            AppAction::ChoosePlaylist(offered, playlists) => ActionView::ChoosePlaylist {
                offered: *offered,
                playlists: playlists@,
            },
            AppAction::AddTrack { playlist_id, track_id } => ActionView::AddTrack {
                playlist_id: *playlist_id,
                track_id: *track_id,
            },
            AppAction::SelectDevice(device) => ActionView::SelectDevice { device: device@ },
            AppAction::AskPopup => ActionView::AskPopup,
            AppAction::AskScreen(tab) => ActionView::AskScreen { tab: *tab },
        }
    }
}

/// The view of what may be left to be done.
pub open spec fn action_view(action: Option<AppAction>) -> Option<ActionView> {
    match action {
        Some(action) => Some(action@),
        None => None,
    }
}

/// What the keys change.
pub struct Shown<P> {
    pub screen: Tab,
    pub exit: bool,
    pub draw: bool,
    pub clear: bool,
    pub state: StateView<P>,
    pub notes: Seq<(NotificationView, u128)>,
}

/// The terminal application, with popups of type `P`.
pub struct App<P> {
    pub current_screen: Tab,
    pub exit: bool,
    pub should_draw: bool,
    pub should_clear: bool,
    pub app_state: AppState<P>,
    pub now_playing: NowPlayingState,
    pub favorites: FavoritesState,
    pub favorite_ids: FavoriteIds,
    pub notifications: NotificationList,
}

/// Messages and the instants at which they came.
pub open spec fn notes(entries: Seq<Entry>) -> Seq<(NotificationView, u128)> {
    Seq::new(entries.len(), |i: int| (entries[i].notification@, entries[i].instant))
}

/// A popup on top of what there is; alone where something else lies over the page.
pub open spec fn over<P>(state: StateView<P>, popup: P) -> StateView<P> {
    match state {
        StateView::Popup { popups } => StateView::Popup { popups: popups.push(popup) },
        _ => StateView::Popup { popups: seq![popup] },
    }
}

/// The popup on top is gone. Without popups the page is seen.
pub open spec fn popped<P>(state: StateView<P>) -> StateView<P> {
    match state {
        StateView::Popup { popups } => if popups.len() <= 1 {
            StateView::Normal
        } else {
            StateView::Popup { popups: popups.drop_last() }
        },
        _ => state,
    }
}

/// A message is shown from now on.
pub open spec fn noted<P>(v: Shown<P>, note: NotificationView, now: u128) -> Shown<P> {
    Shown { notes: v.notes.push((note, now)), ..v }
}

/// The screen is drawn again.
pub open spec fn redrawn<P>(v: Shown<P>) -> Shown<P> {
    Shown { draw: true, ..v }
}

/// Another page is shown.
pub open spec fn on_screen<P>(v: Shown<P>, tab: Tab) -> Shown<P> {
    Shown { screen: tab, draw: true, ..v }
}

/// Something else lies over the page.
pub open spec fn in_state<P>(v: Shown<P>, state: StateView<P>) -> Shown<P> {
    Shown { state, draw: true, ..v }
}

/// What a key does that neither the page nor a popup used.
pub open spec fn after_char<P>(v: Shown<P>, playing: Option<Track>, c: char) -> (
    Shown<P>,
    Option<ActionView>,
) {
    if c == '?' {
        (in_state(v, StateView::Help), None)
    } else if c == 'X' {
        (redrawn(v), Some(ActionView::ClearQueue))
    } else if c == 'c' {
        (v, Some(ActionView::AskConnect))
    } else if c == 'I' {
        (
            v,
            match playing {
                Some(track) => match track.album_id {
                    Some(id) => Some(ActionView::OpenAlbum { album: id@ }),
                    None => None,
                },
                None => None,
            },
        )
    } else if c == 'G' {
        (
            v,
            match playing {
                Some(track) => match track.artist_id {
                    Some(id) => Some(
                        ActionView::OpenArtist {
                            artist: id,
                            name: match track.artist_name {
                                Some(name) => name@,
                                None => Seq::empty(),
                            },
                            image: None,
                        },
                    ),
                    None => None,
                },
                None => None,
            },
        )
    } else if c == 'i' {
        (
            v,
            match playing {
                Some(track) => Some(ActionView::OpenTrack { track: track.id }),
                None => None,
            },
        )
    } else if c == 'q' {
        (Shown { exit: true, draw: true, ..v }, None)
    } else if c == '1' {
        (on_screen(v, Tab::Favorites), None)
    } else if c == '2' {
        (on_screen(v, Tab::Search), Some(ActionView::FocusSearch))
    } else if c == '3' {
        (on_screen(v, Tab::Queue), None)
    } else if c == '4' {
        (on_screen(v, Tab::Discover), None)
    } else if c == '5' {
        (on_screen(v, Tab::Genres), None)
    } else if c == '6' {
        (on_screen(v, Tab::Preferences), None)
    } else if c == ' ' {
        (redrawn(v), Some(ActionView::PlayPause))
    } else if c == 'n' {
        (redrawn(v), Some(ActionView::Next))
    } else if c == 'p' {
        (redrawn(v), Some(ActionView::Previous))
    } else if c == 'f' {
        (redrawn(v), Some(ActionView::JumpForward))
    } else if c == 'b' {
        (redrawn(v), Some(ActionView::JumpBackward))
    } else if c == 'F' {
        (in_state(v, StateView::Focus), None)
    } else {
        (v, None)
    }
}

/// What follows from what became of a key.
pub open spec fn after_output<P>(
    v: Shown<P>,
    playing: Option<Track>,
    playlists: Seq<PlaylistSimple>,
    key: Key,
    output: Output<P>,
) -> (Shown<P>, Option<ActionView>) {
    match output {
        Output::Consumed => (redrawn(v), None),
        Output::UpdateFavorites => (redrawn(v), Some(ActionView::UpdateFavorites)),
        Output::NotConsumed => match key {
            Key::Char(c) => after_char(v, playing, c),
            _ => (v, None),
        },
        Output::Popup(popup) => (in_state(v, over(v.state, popup)), None),
        Output::PopPopup => if v.state is Popup {
            (in_state(v, popped(v.state)), None)
        } else {
            (v, None)
        },
        Output::PopPopupUpdateFavorites => if v.state is Popup {
            (in_state(v, popped(v.state)), Some(ActionView::UpdateFavorites))
        } else {
            (v, None)
        },
        Output::AddTrackToPlaylistPopup(track) => (
            redrawn(v),
            Some(
                ActionView::ChoosePlaylist { offered: track, playlists: playlists.filter(is_owned()) },
            ),
        ),
        Output::AddTrackToPlaylistAndPopPopup(ids) => (
            redrawn(v),
            Some(ActionView::AddTrack { playlist_id: ids.1, track_id: ids.0 }),
        ),
    }
}

/// What follows from what became of a key, or from its failure.
pub open spec fn after_result<P>(
    v: Shown<P>,
    playing: Option<Track>,
    playlists: Seq<PlaylistSimple>,
    key: Key,
    output: Result<Output<P>, String>,
    now: u128,
) -> (Shown<P>, Option<ActionView>) {
    match output {
        Ok(output) => after_output(v, playing, playlists, key, output),
        Err(message) => (noted(v, NotificationView::Error { text: message@ }, now), None),
    }
}

/// An event of the terminal.
#[derive(Clone, Copy, Debug, PartialEq, Eq, Structural)]
pub enum TerminalEvent {
    /// A key was pressed.
    Press(Key),
    Resize,
    Other,
}

/// The device that is chosen once a key was pressed in the list of devices, or nothing where the
/// list is closed.
pub open spec fn device_after(key: Key, selected: usize, count: int) -> Option<usize> {
    match key {
        Key::Left | Key::Up => Some(
            if selected > 0 {
                (selected - 1) as usize
            } else {
                selected
            },
        ),
        Key::Right | Key::Down => Some(
            if selected < count - 1 {
                (selected + 1) as usize
            } else {
                selected
            },
        ),
        _ => None,
    }
}

/// What an event does.
pub open spec fn after_event<P>(
    v: Shown<P>,
    playing: Option<Track>,
    event: TerminalEvent,
    devices: Seq<Seq<char>>,
) -> (Shown<P>, Option<ActionView>) {
    match event {
        TerminalEvent::Resize => (redrawn(v), None),
        TerminalEvent::Other => (v, None),
        TerminalEvent::Press(key) => match v.state {
            StateView::Help => (in_state(v, StateView::Normal), None),
            StateView::Focus => if key == Key::Esc || key == Key::Char('F') {
                (in_state(v, StateView::Normal), None)
            } else if key == Key::Char(' ') {
                (redrawn(v), Some(ActionView::PlayPause))
            } else {
                match key {
                    Key::Char(c) => {
                        let (next, action) = after_char(v, playing, c);
                        (redrawn(next), action)
                    },
                    _ => (redrawn(v), None),
                }
            },
            StateView::ConnectPopup { selected } => match device_after(
                key,
                selected,
                devices.len() as int,
            ) {
                Some(next) => (in_state(v, StateView::ConnectPopup { selected: next }), None),
                None => (
                    in_state(v, StateView::Normal),
                    if key == Key::Enter && selected < devices.len() {
                        Some(ActionView::SelectDevice { device: devices[selected as int] })
                    } else {
                        None
                    },
                ),
            },
            StateView::Popup { popups } => if popups.len() > 0 {
                (v, Some(ActionView::AskPopup))
            } else {
                match key {
                    Key::Char(c) => after_char(v, playing, c),
                    _ => (v, None),
                }
            },
            StateView::Normal => (v, Some(ActionView::AskScreen { tab: v.screen })),
        },
    }
}

impl<P> App<P> {
    /// What the keys change.
    pub open spec fn shown(&self) -> Shown<P> {
        Shown {
            screen: self.current_screen,
            exit: self.exit,
            draw: self.should_draw,
            clear: self.should_clear,
            state: self.app_state@,
            notes: notes(self.notifications.entries()),
        }
    }

    /// What the keys do not change.
    pub open spec fn same_contents(&self, other: &App<P>) -> bool {
        &&& self.now_playing == other.now_playing
        &&& self.favorites == other.favorites
        &&& self.favorite_ids == other.favorite_ids
    }

    fn notify(&mut self, notification: Notification, now: u128)
        ensures
            final(self).shown() == noted(old(self).shown(), notification@, now),
            final(self).same_contents(old(self)),
    {
        let ghost before = self.notifications.entries();
        self.notifications.push(notification, now);
        assert(notes(self.notifications.entries()) =~= notes(before).push((notification@, now)));
    }

    /// Puts a popup on top.
    pub fn push_popup(&mut self, popup: P)
        ensures
            final(self).shown() == in_state(old(self).shown(), over(old(self).shown().state, popup)),
            final(self).same_contents(old(self)),
    {
        let mut state = AppState::Normal;
        std::mem::swap(&mut state, &mut self.app_state);
        let mut popups: Vec<P> = match state {
            AppState::Popup(popups) => popups,
            _ => Vec::new(),
        };
        popups.push(popup);
        self.app_state = AppState::Popup(popups);
        self.should_draw = true;
        assert(self.app_state@->popups =~= over(old(self).shown().state, popup)->popups);
    }

    /// Takes the popup on top away and tells whether there are popups at all.
    fn pop_popup(&mut self) -> (r: bool)
        ensures
            r == (old(self).shown().state is Popup),
            final(self).shown() == (Shown {
                state: popped(old(self).shown().state),
                ..old(self).shown()
            }),
            final(self).same_contents(old(self)),
    {
        let mut state = AppState::Normal;
        std::mem::swap(&mut state, &mut self.app_state);
        match state {
            AppState::Popup(popups) => {
                let mut popups = popups;
                let _ = popups.pop();
                if popups.len() > 0 {
                    self.app_state = AppState::Popup(popups);
                }
                true
            },
            other => {
                self.app_state = other;
                false
            },
        }
    }

    /// What a key does that neither the page nor a popup used.
    fn handle_char(&mut self, c: char) -> (r: Option<AppAction>)
        ensures
            (final(self).shown(), action_view(r)) == after_char(
                old(self).shown(),
                old(self).now_playing.playing_track,
                c,
            ),
            final(self).same_contents(old(self)),
    {
        if c == 'c' {
            return Some(AppAction::AskConnect);
        }
        if c == 'I' {
            return match &self.now_playing.playing_track {
                Some(track) => match &track.album_id {
                    Some(id) => Some(AppAction::OpenAlbum(id.clone())),
                    None => None,
                },
                None => None,
            };
        }
        if c == 'G' {
            return match &self.now_playing.playing_track {
                Some(track) => match track.artist_id {
                    Some(id) => {
                        let name: String = match &track.artist_name {
                            Some(name) => name.clone(),
                            None => String::new(),
                        };
                        Some(AppAction::OpenArtist(Artist { id, name, image: None }))
                    },
                    None => None,
                },
                None => None,
            };
        }
        if c == 'i' {
            return match &self.now_playing.playing_track {
                Some(track) => Some(AppAction::OpenTrack(track.id)),
                None => None,
            };
        }
        let action: Option<AppAction> = if c == '?' {
            self.app_state = AppState::Help;
            None
        } else if c == 'X' {
            Some(AppAction::ClearQueue)
        } else if c == 'q' {
            self.exit = true;
            None
        } else if c == '1' {
            self.current_screen = Tab::Favorites;
            None
        } else if c == '2' {
            self.current_screen = Tab::Search;
            Some(AppAction::FocusSearch)
        } else if c == '3' {
            self.current_screen = Tab::Queue;
            None
        } else if c == '4' {
            self.current_screen = Tab::Discover;
            None
        } else if c == '5' {
            self.current_screen = Tab::Genres;
            None
        } else if c == '6' {
            self.current_screen = Tab::Preferences;
            None
        } else if c == ' ' {
            Some(AppAction::PlayPause)
        } else if c == 'n' {
            Some(AppAction::Next)
        } else if c == 'p' {
            Some(AppAction::Previous)
        } else if c == 'f' {
            Some(AppAction::JumpForward)
        } else if c == 'b' {
            Some(AppAction::JumpBackward)
        } else if c == 'F' {
            self.app_state = AppState::Focus;
            None
        } else {
            return None;
        };
        self.should_draw = true;
        action
    }

    /// Follows up on what became of a key.
    pub fn handle_output(&mut self, key: Key, output: Result<Output<P>, String>, now: u128) -> (r:
        Option<AppAction>)
        ensures
            (final(self).shown(), action_view(r)) == after_result(
                old(self).shown(),
                old(self).now_playing.playing_track,
                old(self).favorites.playlists.items(),
                key,
                output,
                now,
            ),
            final(self).same_contents(old(self)),
    {
        let output: Output<P> = match output {
            Ok(output) => output,
            Err(message) => {
                self.notify(Notification::Error(message), now);
                return None;
            },
        };
        match output {
            Output::Consumed => {
                self.should_draw = true;
                None
            },
            Output::UpdateFavorites => {
                self.should_draw = true;
                Some(AppAction::UpdateFavorites)
            },
            Output::NotConsumed => match key {
                Key::Char(c) => self.handle_char(c),
                _ => None,
            },
            Output::Popup(popup) => {
                self.push_popup(popup);
                None
            },
            Output::PopPopup => {
                if self.pop_popup() {
                    self.should_draw = true;
                }
                None
            },
            Output::PopPopupUpdateFavorites => {
                if self.pop_popup() {
                    self.should_draw = true;
                    Some(AppAction::UpdateFavorites)
                } else {
                    None
                }
            },
            Output::AddTrackToPlaylistPopup(track) => {
                let playlists = owned_playlists(self.favorites.playlists.all_items());
                self.should_draw = true;
                Some(AppAction::ChoosePlaylist(track, playlists))
            },
            Output::AddTrackToPlaylistAndPopPopup(ids) => {
                self.should_draw = true;
                Some(AppAction::AddTrack { playlist_id: ids.1, track_id: ids.0 })
            },
        }
    }

    /// Follows up on adding a track to a playlist.
    pub fn track_added(&mut self, result: Result<(), String>, now: u128) -> (r: Option<AppAction>)
        ensures
            final(self).same_contents(old(self)),
            match result {
                Ok(_) => {
                    &&& final(self).shown() == noted(
                        (Shown { state: popped(old(self).shown().state), draw: true, ..old(
                            self,
                        ).shown() }),
                        NotificationView::Info { text: "Added to playlist"@ },
                        now,
                    )
                    &&& action_view(r) == if old(self).shown().state is Popup {
                        Some(ActionView::UpdateFavorites)
                    } else {
                        None
                    }
                },
                Err(message) => {
                    &&& final(self).shown() == noted(
                        redrawn(old(self).shown()),
                        NotificationView::Error { text: message@ },
                        now,
                    )
                    &&& r is None
                },
            },
    {
        self.should_draw = true;
        match result {
            Ok(_) => {
                let had_popups = self.pop_popup();
                self.notify(Notification::Info(owned("Added to playlist")), now);
                if had_popups {
                    Some(AppAction::UpdateFavorites)
                } else {
                    None
                }
            },
            Err(message) => {
                self.notify(Notification::Error(message), now);
                None
            },
        }
    }

    /// Opens the list of devices where remote playback is switched on.
    pub fn connect_configured(&mut self, enabled: bool)
        ensures
            final(self).shown() == if enabled {
                in_state(old(self).shown(), StateView::ConnectPopup { selected: 0 })
            } else {
                old(self).shown()
            },
            final(self).same_contents(old(self)),
    {
        if enabled {
            self.app_state = AppState::ConnectPopup(0);
            self.should_draw = true;
        }
    }

    /// What a key does in the list of devices.
    fn handle_device_key(&mut self, key: Key, selected: usize, devices: &Vec<String>) -> (r: Option<
        AppAction,
    >)
        requires
            old(self).shown().state == (StateView::<P>::ConnectPopup { selected }),
            devices@.len() > 0 || !(key == Key::Right || key == Key::Down),
        ensures
            (final(self).shown(), action_view(r)) == after_event(
                old(self).shown(),
                old(self).now_playing.playing_track,
                TerminalEvent::Press(key),
                views(devices@),
            ),
            final(self).same_contents(old(self)),
    {
        self.should_draw = true;
        match key {
            Key::Enter => {
                let action: Option<AppAction> = if selected < devices.len() {
                    Some(AppAction::SelectDevice(devices[selected].clone()))
                } else {
                    None
                };
                self.app_state = AppState::Normal;
                action
            },
            Key::Left | Key::Up => {
                self.app_state = AppState::ConnectPopup(selected.saturating_sub(1));
                None
            },
            Key::Right | Key::Down => {
                if selected < devices.len() - 1 {
                    self.app_state = AppState::ConnectPopup(selected + 1);
                }
                None
            },
            _ => {
                self.app_state = AppState::Normal;
                None
            },
        }
    }

    /// What a key does while only the playing track is shown.
    fn handle_focus_event(&mut self, key: Key) -> (r: Option<AppAction>)
        requires
            old(self).shown().state is Focus,
        ensures
            (final(self).shown(), action_view(r)) == after_event(
                old(self).shown(),
                old(self).now_playing.playing_track,
                TerminalEvent::Press(key),
                Seq::empty(),
            ),
            final(self).same_contents(old(self)),
    {
        let action: Option<AppAction> = match key {
            Key::Esc => {
                self.app_state = AppState::Normal;
                None
            },
            Key::Char(c) => {
                if c == 'F' {
                    self.app_state = AppState::Normal;
                    None
                } else if c == ' ' {
                    Some(AppAction::PlayPause)
                } else {
                    self.handle_char(c)
                }
            },
            _ => None,
        };
        self.should_draw = true;
        action
    }

    /// What an event does. A page or a popup that is asked tells `handle_output` what became of
    /// the key.
    pub fn handle_event(&mut self, event: TerminalEvent, devices: &Vec<String>) -> (r: Option<
        AppAction,
    >)
        requires
            devices@.len() > 0 || !(old(self).shown().state is ConnectPopup) || !(event
                == TerminalEvent::Press(Key::Right) || event == TerminalEvent::Press(Key::Down)),
        ensures
            (final(self).shown(), action_view(r)) == after_event(
                old(self).shown(),
                old(self).now_playing.playing_track,
                event,
                views(devices@),
            ),
            final(self).same_contents(old(self)),
    {
        let key: Key = match event {
            TerminalEvent::Press(key) => key,
            TerminalEvent::Resize => {
                self.should_draw = true;
                return None;
            },
            TerminalEvent::Other => {
                return None;
            },
        };
        match &self.app_state {
            AppState::Help => {
                self.app_state = AppState::Normal;
                self.should_draw = true;
                None
            },
            AppState::Focus => self.handle_focus_event(key),
            AppState::ConnectPopup(selected) => {
                let selected: usize = *selected;
                self.handle_device_key(key, selected, devices)
            },
            AppState::Popup(popups) => {
                if popups.len() > 0 {
                    return Some(AppAction::AskPopup);
                }
                match key {
                    Key::Char(c) => self.handle_char(c),
                    _ => None,
                }
            },
            AppState::Normal => Some(AppAction::AskScreen(self.current_screen)),
        }
    }

    /// Takes over favourites that were loaded; without them nothing changes.
    pub fn update_favorites(&mut self, favorites: Option<FavoritesState>)
        ensures
            final(self).shown() == old(self).shown(),
            final(self).now_playing == old(self).now_playing,
            match favorites {
                Some(loaded) => final(self).favorites == loaded && ids_of(
                    loaded,
                    final(self).favorite_ids,
                ),
                None => final(self).same_contents(old(self)),
            },
    {
        if let Some(favorites) = favorites {
            self.favorite_ids = build_favorite_ids(&favorites);
            self.favorites = favorites;
        }
    }

    /// The position in the track changed to so many nanoseconds.
    pub fn position_changed(&mut self, position: u128)
        ensures
            final(self).shown() == redrawn(old(self).shown()),
            final(self).now_playing == (NowPlayingState {
                duration_ms: (position as int / 1_000_000 % 0x1_0000_0000) as u32,
                ..old(self).now_playing
            }),
            final(self).favorites == old(self).favorites,
            final(self).favorite_ids == old(self).favorite_ids,
    {
        let ms: u128 = position / 1_000_000 % 0x1_0000_0000;
        self.now_playing.duration_ms = ms as u32;
        self.should_draw = true;
    }

    /// The queue changed. Returns its tracks for the page of the queue.
    pub fn tracklist_changed(&mut self, tracklist: &Tracklist) -> (r: Vec<Track>)
        ensures
            final(self).shown() == redrawn(old(self).shown()),
            final(self).favorites == old(self).favorites,
            final(self).favorite_ids == old(self).favorite_ids,
            final(self).now_playing == (NowPlayingState {
                entity_title: queue_title(*tracklist),
                playing_track: track_playing(*tracklist),
                tracklist_length: final(self).now_playing.tracklist_length,
                tracklist_position: final(self).now_playing.tracklist_position,
                status: old(self).now_playing.status,
                duration_ms: 0,
            }),
            final(self).now_playing.tracklist_length == tracklist.items().len(),
            final(self).now_playing.tracklist_position == position_of_playing(tracklist.items()),
            r@.len() == tracklist.items().len(),
            forall|i: int| 0 <= i < r@.len() ==> #[trigger] r@[i] == tracklist.items()[i].track,
    {
        let queue = tracklist.queue();
        let mut tracks: Vec<Track> = Vec::new();
        for i in 0..queue.len()
            invariant
                queue@.len() == tracklist.items().len(),
                forall|j: int| 0 <= j < queue@.len() ==> *#[trigger] queue@[j] == tracklist.items()[j],
                tracks@.len() == i,
                forall|j: int|
                    0 <= j < i ==> #[trigger] tracks@[j] == tracklist.items()[j].track,
        {
            tracks.push(queue[i].track.clone());
        }
        let status: Status = self.now_playing.status;
        self.now_playing = create_now_playing_state(tracklist, status);
        self.should_draw = true;
        tracks
    }

    /// An image arrived.
    pub fn image_loaded(&mut self)
        ensures
            final(self).shown() == redrawn(old(self).shown()),
            final(self).same_contents(old(self)),
    {
        self.should_draw = true;
    }

    /// The player does something else now.
    pub fn status_changed(&mut self, status: Status)
        ensures
            final(self).shown() == redrawn(old(self).shown()),
            final(self).now_playing == (NowPlayingState { status, ..old(self).now_playing }),
            final(self).favorites == old(self).favorites,
            final(self).favorite_ids == old(self).favorite_ids,
    {
        self.now_playing.status = status;
        self.should_draw = true;
    }

    /// Drops old messages. Where there were any, the screen is cleared and drawn again.
    pub fn tick(&mut self, now: u128)
        ensures
            final(self).same_contents(old(self)),
            final(self).notifications.entries() == old(self).notifications.entries().filter(
                still_shown(now),
            ),
            ({
                let gone = final(self).notifications.entries().len()
                    != old(self).notifications.entries().len();
                final(self).shown() == (Shown {
                    notes: notes(final(self).notifications.entries()),
                    draw: old(self).should_draw || gone,
                    clear: old(self).should_clear || gone,
                    ..old(self).shown()
                })
            }),
    {
        if self.notifications.tick(now) {
            self.should_draw = true;
            self.should_clear = true;
        }
    }

    /// A message came from elsewhere.
    pub fn notified(&mut self, notification: Notification, now: u128)
        ensures
            final(self).shown() == redrawn(noted(old(self).shown(), notification@, now)),
            final(self).same_contents(old(self)),
    {
        self.notify(notification, now);
        self.should_draw = true;
    }

    /// Whether the screen is to be cleared, and whether it is to be drawn. Both are then settled.
    pub fn take_frame(&mut self) -> (r: (bool, bool))
        ensures
            r == (old(self).should_clear, old(self).should_draw),
            final(self).shown() == (Shown { draw: false, clear: false, ..old(self).shown() }),
            final(self).same_contents(old(self)),
    {
        let frame = (self.should_clear, self.should_draw);
        self.should_clear = false;
        self.should_draw = false;
        frame
    }
}

/// The message about a device that could not be chosen.
pub fn device_error(err: &str) -> (r: String)
    ensures
        r@ == "Unable to select device: "@ + err@,
{
    owned("Unable to select device: ").concat(err)
}

/// Closing a popup shows what was seen before it was opened, over a page and over other popups.
pub proof fn law_closing_a_popup_undoes_opening_it<P>(state: StateView<P>, popup: P)
    requires
        state is Normal || (state matches StateView::Popup { popups } && popups.len() > 0),
    ensures
        popped(over(state, popup)) == state,
{
    if let StateView::Popup { popups } = state {
        assert(popups.push(popup).drop_last() =~= popups);
    }
}

/// Of the keys that nobody else used, `q` alone ends the program, and none takes that back.
pub proof fn law_only_q_ends_the_program<P>(v: Shown<P>, playing: Option<Track>, c: char)
    ensures
        after_char(v, playing, c).0.exit == (v.exit || c == 'q'),
{
}

/// In the list of devices one of them stays chosen as long as the list is open.
pub proof fn law_a_device_stays_chosen(key: Key, selected: usize, count: int)
    requires
        selected < count,
    ensures
        device_after(key, selected, count) matches Some(next) ==> next < count,
{
}

} // verus!

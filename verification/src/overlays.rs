//! The popups of the terminal: what each shows and what a key does in it.

use vstd::prelude::*;
use crate::filtered_list::{clones, row_after, row_before, with_item_moved, with_row, without_item};
use crate::filtered_list::{FilteredListState, PlaylistList, RowState};
use crate::keys::Key;
use crate::models::{Artist, Playlist, PlaylistSimple, Track};
use crate::terminal_app::Output;
use crate::text::{decimal, decimal_text, owned, parts_between, split_by_text};
use crate::text::{trim_text, trimmed, views};

verus! {

/// A track and the playlists that it can be added to.
pub struct AddTrackOverlay {
    playlists: PlaylistList,
    track: Track,
}

/// What a key asks for in the list of playlists.
pub open spec fn playlist_choice(
    key: Key,
    row: RowState,
    playlists: Seq<PlaylistSimple>,
) -> Option<u32> {
    match row.selected {
        Some(index) => if key == Key::Enter && index < playlists.len() {
            Some(playlists[index as int].id)
        } else {
            None
        },
        None => None,
    }
}

/// The row that is chosen after a key.
pub open spec fn row_after_key(key: Key, row: RowState) -> RowState {
    if key == Key::Up || key == Key::Char('k') {
        with_row(row, Some(row_before(row.selected)))
    } else if key == Key::Down || key == Key::Char('j') {
        with_row(row, Some(row_after(row.selected)))
    } else {
        row
    }
}

impl AddTrackOverlay {
    /// The track.
    pub closed spec fn track(&self) -> Track {
        self.track
    }

    /// The playlists that can be chosen.
    pub closed spec fn playlists(&self) -> Seq<PlaylistSimple> {
        self.playlists.playlists()
    }

    /// The row that is chosen.
    pub closed spec fn row(&self) -> RowState {
        self.playlists.row()
    }

    pub fn new(track: Track, owned_playlists: Vec<PlaylistSimple>) -> (r: Self)
        ensures
            r.track() == track,
            r.playlists() == owned_playlists@,
            r.row() == (RowState {
                selected: if owned_playlists@.len() > 0 {
                    Some(0)
                } else {
                    None
                },
                offset: 0,
            }),
    {
        AddTrackOverlay { playlists: PlaylistList::new(owned_playlists), track }
    }

    pub fn track_title(&self) -> (r: &str)
        ensures
            r@ == self.track().title@,
    {
        self.track.title.as_str()
    }

    /// The heading of the popup.
    pub fn heading(&self) -> (r: String)
        ensures
            r@ == "Add "@ + self.track().title@ + " to playlist"@,
    {
        owned("Add ").concat(&self.track.title).concat(" to playlist")
    }

    pub fn handle_event<P>(&mut self, key: Key) -> (r: Output<P>)
        ensures
            final(self).track() == old(self).track(),
            final(self).playlists() == old(self).playlists(),
            final(self).row() == row_after_key(key, old(self).row()),
            r == match playlist_choice(key, old(self).row(), old(self).playlists()) {
                Some(playlist) => Output::<P>::AddTrackToPlaylistAndPopPopup(
                    (old(self).track().id, playlist),
                ),
                None => if key == Key::Esc {
                    Output::PopPopup
                } else {
                    Output::Consumed
                },
            },
    {
        match key {
            Key::Up => self.playlists.select_previous(),
            Key::Down => self.playlists.select_next(),
            Key::Char(c) => {
                if c == 'k' {
                    self.playlists.select_previous();
                } else if c == 'j' {
                    self.playlists.select_next();
                }
            },
            Key::Enter => {
                if let Some(index) = self.playlists.selected() {
                    if let Some(playlist) = self.playlists.get(index) {
                        return Output::AddTrackToPlaylistAndPopPopup((self.track.id, playlist.id));
                    }
                }
            },
            Key::Esc => {
                return Output::PopPopup;
            },
            _ => {},
        }
        Output::Consumed
    }
}

/// Whether a playlist is to be deleted.
pub struct DeletePlaylistOverlay {
    title: String,
    id: u32,
    confirm: bool,
}

/// What became of a key, and the playlist that is to be deleted first.
pub struct DeleteStep<P> {
    pub delete: Option<u32>,
    pub output: Output<P>,
}

impl DeletePlaylistOverlay {
    /// The title of the playlist.
    pub closed spec fn title(&self) -> Seq<char> {
        self.title@
    }

    /// The playlist.
    pub closed spec fn playlist(&self) -> u32 {
        self.id
    }

    /// Whether deleting is chosen.
    pub closed spec fn confirmed(&self) -> bool {
        self.confirm
    }

    /// Asks about a playlist; cancelling is chosen at first.
    pub fn new(playlist: PlaylistSimple) -> (r: Self)
        ensures
            r.title() == playlist.title@,
            r.playlist() == playlist.id,
            !r.confirmed(),
    {
        DeletePlaylistOverlay { title: playlist.title, id: playlist.id, confirm: false }
    }

    /// The heading of the popup.
    pub fn heading(&self) -> (r: String)
        ensures
            r@ == "Delete "@ + self.title() + "?"@,
    {
        owned("Delete ").concat(&self.title).concat("?")
    }

    /// The button that is chosen: to delete, or to cancel.
    pub fn selected(&self) -> (r: usize)
        ensures
            r == if self.confirmed() {
                0int
            } else {
                1
            },
    {
        if self.confirm {
            0
        } else {
            1
        }
    }

    /// What a key does. Where a playlist is named, it is deleted before anything else happens.
    pub fn handle_event<P>(&mut self, key: Key) -> (r: DeleteStep<P>)
        ensures
            final(self).title() == old(self).title(),
            final(self).playlist() == old(self).playlist(),
            final(self).confirmed() == if key == Key::Left || key == Key::Right || key
                == Key::Char('h') || key == Key::Char('l') {
                !old(self).confirmed()
            } else {
                old(self).confirmed()
            },
            r.delete == if key == Key::Enter && old(self).confirmed() {
                Some(old(self).playlist())
            } else {
                None
            },
            r.output == match key {
                Key::Enter => Output::<P>::PopPopupUpdateFavorites,
                Key::Esc => Output::PopPopup,
                _ => Output::Consumed,
            },
    {
        match key {
            Key::Enter => DeleteStep {
                delete: if self.confirm {
                    Some(self.id)
                } else {
                    None
                },
                output: Output::PopPopupUpdateFavorites,
            },
            Key::Left | Key::Right => {
                self.confirm = !self.confirm;
                DeleteStep { delete: None, output: Output::Consumed }
            },
            Key::Char(c) => {
                if c == 'h' || c == 'l' {
                    self.confirm = !self.confirm;
                }
                DeleteStep { delete: None, output: Output::Consumed }
            },
            Key::Esc => DeleteStep { delete: None, output: Output::PopPopup },
            _ => DeleteStep { delete: None, output: Output::Consumed },
        }
    }
}

/// What a key does where a name is typed.
pub enum NameStep {
    /// A playlist of that name is created, and the popup is closed.
    Create(String),
    /// The popup is closed.
    Close,
    /// The key belongs to the name.
    Type,
    /// Nothing happens.
    Nothing,
}

/// What a key does where a name is typed. A name of white space is no name.
pub open spec fn is_name_step(step: NameStep, key: Key, name: Seq<char>) -> bool {
    match step {
        NameStep::Create(text) => key == Key::Enter && trimmed(name).len() > 0 && text@ == trimmed(
            name,
        ),
        NameStep::Nothing => key == Key::Enter && trimmed(name).len() == 0,
        NameStep::Close => key == Key::Esc,
        NameStep::Type => key != Key::Enter && key != Key::Esc,
    }
}

/// What a key does where the name of a new playlist is typed.
pub fn new_playlist_step(key: Key, name: &str) -> (r: NameStep)
    ensures
        is_name_step(r, key, name@),
{
    match key {
        Key::Enter => {
            let text = trim_text(name);
            if text.as_str().unicode_len() == 0 {
                NameStep::Nothing
            } else {
                NameStep::Create(text)
            }
        },
        Key::Esc => NameStep::Close,
        _ => NameStep::Type,
    }
}

/// A playlist and its tracks.
pub struct PlaylistOverlay {
    shuffle: bool,
    tracks: FilteredListState<Track>,
    title: String,
    id: u32,
    is_owned: bool,
    image_url: Option<String>,
    owner: String,
    duration_seconds: u32,
}

/// What a key asks of a playlist.
#[derive(Clone, Copy, Debug, PartialEq, Eq, Structural)]
pub enum PlaylistStep {
    Consumed,
    /// The popup is closed.
    Close,
    /// The track at a place is deleted from the playlist.
    Delete { index: usize, playlist_track_id: u64 },
    /// The track at a place goes to another.
    Move { index: usize, new_index: usize, playlist_track_id: u64 },
    /// The key is for the list of tracks.
    List,
}

/// The track that a place names in a playlist.
pub open spec fn entry_at(tracks: Seq<Track>, index: int) -> Option<u64> {
    if 0 <= index < tracks.len() {
        tracks[index].playlist_track_id
    } else {
        None
    }
}

/// What a key asks of a playlist. Its tracks can be deleted and moved by their owner only, and not
/// past the ends.
pub open spec fn playlist_step(
    key: Key,
    is_owned: bool,
    selected: Option<usize>,
    tracks: Seq<Track>,
) -> PlaylistStep {
    match key {
        Key::Left | Key::Right => PlaylistStep::Consumed,
        Key::Esc => PlaylistStep::Close,
        Key::Char(c) => if c == 'h' || c == 'l' {
            PlaylistStep::Consumed
        } else if c == 'D' {
            match selected {
                Some(index) => match entry_at(tracks, index as int) {
                    Some(id) => if is_owned {
                        PlaylistStep::Delete { index, playlist_track_id: id }
                    } else {
                        PlaylistStep::Consumed
                    },
                    None => PlaylistStep::Consumed,
                },
                None => PlaylistStep::Consumed,
            }
        } else if c == 'u' || c == 'd' {
            match selected {
                Some(index) => {
                    let new_index = if c == 'u' {
                        index - 1
                    } else {
                        index + 1
                    };
                    match entry_at(tracks, index as int) {
                        Some(id) => if is_owned && 0 <= new_index < tracks.len() {
                            PlaylistStep::Move {
                                index,
                                new_index: new_index as usize,
                                playlist_track_id: id,
                            }
                        } else {
                            PlaylistStep::Consumed
                        },
                        None => PlaylistStep::Consumed,
                    }
                },
                None => PlaylistStep::Consumed,
            }
        } else {
            PlaylistStep::List
        },
        _ => PlaylistStep::List,
    }
}

impl PlaylistOverlay {
    /// Whether shuffling is chosen.
    pub closed spec fn shuffled(&self) -> bool {
        self.shuffle
    }

    /// The tracks that are shown.
    pub closed spec fn shown(&self) -> Seq<Track> {
        self.tracks.shown()
    }

    /// All tracks.
    pub closed spec fn all_tracks(&self) -> Seq<Track> {
        self.tracks.items()
    }

    /// The row that is chosen.
    pub closed spec fn row(&self) -> RowState {
        self.tracks.row()
    }

    /// The title.
    pub closed spec fn name(&self) -> Seq<char> {
        self.title@
    }

    /// The playlist.
    pub closed spec fn playlist(&self) -> u32 {
        self.id
    }

    /// Whether the playlist is the user's own.
    pub closed spec fn owned(&self) -> bool {
        self.is_owned
    }

    /// The name of the owner.
    pub closed spec fn owner_name(&self) -> Seq<char> {
        self.owner@
    }

    /// The playing time.
    pub closed spec fn seconds(&self) -> u32 {
        self.duration_seconds
    }

    /// The address of the cover.
    pub closed spec fn image(&self) -> Option<String> {
        self.image_url
    }

    /// What stays the same whatever keys are pressed.
    pub open spec fn same_playlist(&self, other: &PlaylistOverlay) -> bool {
        &&& self.name() == other.name()
        &&& self.playlist() == other.playlist()
        &&& self.owned() == other.owned()
        &&& self.image() == other.image()
        &&& self.owner_name() == other.owner_name()
        &&& self.seconds() == other.seconds()
    }

    pub fn new(playlist: Playlist) -> (r: Self)
        ensures
            !r.shuffled(),
            r.all_tracks() == playlist.tracks@,
            r.shown() == playlist.tracks@,
            r.row() == (RowState { selected: None, offset: 0 }),
            r.name() == playlist.title@,
            r.playlist() == playlist.id,
            r.owned() == playlist.is_owned,
            r.owner_name() == playlist.owner.name@,
            r.seconds() == playlist.duration_seconds,
            r.image() == playlist.image,
    {
        let ghost all = playlist.tracks@;
        let tracks = FilteredListState::new(playlist.tracks);
        assert(tracks.shown() =~= all);
        PlaylistOverlay {
            shuffle: false,
            tracks,
            title: playlist.title,
            id: playlist.id,
            is_owned: playlist.is_owned,
            image_url: playlist.image,
            owner: playlist.owner.name,
            duration_seconds: playlist.duration_seconds,
        }
    }

    pub fn id(&self) -> (r: u32)
        ensures
            r == self.playlist(),
    {
        self.id
    }

    pub fn title(&self) -> (r: &str)
        ensures
            r@ == self.name(),
    {
        self.title.as_str()
    }

    /// The lines beside the cover: the title, the owner, and how many tracks are shown. `length` is
    /// the playing time as it is written.
    pub fn header_lines(&self, length: &str) -> (r: Vec<String>)
        ensures
            views(r@) == seq![
                self.name(),
                self.owner_name(),
                Seq::empty(),
                decimal(self.shown().len()) + " tracks · "@ + length@,
            ],
    {
        let mut lines: Vec<String> = Vec::new();
        lines.push(self.title.clone());
        lines.push(self.owner.clone());
        lines.push(String::new());
        let count: usize = self.tracks.filter().len();
        lines.push(decimal_text(count as u128).concat(" tracks · ").concat(length));
        assert(views(lines@) =~= seq![
            self.name(),
            self.owner_name(),
            Seq::empty(),
            decimal(self.shown().len()) + " tracks · "@ + length@,
        ]);
        lines
    }

    pub fn duration_seconds(&self) -> (r: u32)
        ensures
            r == self.seconds(),
    {
        self.duration_seconds
    }

    pub fn image_url(&self) -> (r: &Option<String>)
        ensures
            *r == self.image(),
    {
        &self.image_url
    }

    /// The button that is chosen: to play, or to shuffle.
    pub fn selected_control(&self) -> (r: usize)
        ensures
            r == if self.shuffled() {
                1int
            } else {
                0
            },
    {
        if self.shuffle {
            1
        } else {
            0
        }
    }

    /// Chooses a track.
    pub fn select_index(&mut self, index: usize)
        ensures
            final(self).same_playlist(old(self)),
            final(self).shuffled() == old(self).shuffled(),
            final(self).shown() == old(self).shown(),
            final(self).all_tracks() == old(self).all_tracks(),
            final(self).row() == with_row(old(self).row(), Some(index)),
    {
        let mut state = self.tracks.state();
        state.select(Some(index));
        self.tracks.set_state(state);
    }

    /// What a key asks for.
    pub fn handle_event(&mut self, key: Key) -> (r: PlaylistStep)
        ensures
            r == playlist_step(
                key,
                old(self).owned(),
                old(self).row().selected,
                old(self).shown(),
            ),
            final(self).same_playlist(old(self)),
            final(self).shown() == old(self).shown(),
            final(self).all_tracks() == old(self).all_tracks(),
            final(self).row() == old(self).row(),
            final(self).shuffled() == if key == Key::Left || key == Key::Right || key
                == Key::Char('h') || key == Key::Char('l') {
                !old(self).shuffled()
            } else {
                old(self).shuffled()
            },
    {
        match key {
            Key::Left | Key::Right => {
                self.shuffle = !self.shuffle;
                PlaylistStep::Consumed
            },
            Key::Esc => PlaylistStep::Close,
            Key::Char(c) => {
                if c == 'h' || c == 'l' {
                    self.shuffle = !self.shuffle;
                    PlaylistStep::Consumed
                } else if c == 'D' {
                    self.delete_selected_track()
                } else if c == 'u' {
                    self.move_selected_track_up()
                } else if c == 'd' {
                    self.move_selected_track_down()
                } else {
                    PlaylistStep::List
                }
            },
            _ => PlaylistStep::List,
        }
    }

    fn entry(&self, index: usize) -> (r: Option<u64>)
        ensures
            r == entry_at(self.shown(), index as int),
    {
        let shown = self.tracks.filter();
        if index < shown.len() {
            shown[index].playlist_track_id
        } else {
            None
        }
    }

    fn delete_selected_track(&self) -> (r: PlaylistStep)
        ensures
            r == playlist_step(Key::Char('D'), self.owned(), self.row().selected, self.shown()),
    {
        if !self.is_owned {
            return PlaylistStep::Consumed;
        }
        match self.tracks.state().selected {
            Some(index) => match self.entry(index) {
                Some(playlist_track_id) => PlaylistStep::Delete { index, playlist_track_id },
                None => PlaylistStep::Consumed,
            },
            None => PlaylistStep::Consumed,
        }
    }

    fn move_selected_track_up(&self) -> (r: PlaylistStep)
        ensures
            r == playlist_step(Key::Char('u'), self.owned(), self.row().selected, self.shown()),
    {
        if !self.is_owned {
            return PlaylistStep::Consumed;
        }
        match self.tracks.state().selected {
            Some(index) => match index.checked_sub(1) {
                Some(new_index) => self.move_selected_track(index, new_index),
                None => PlaylistStep::Consumed,
            },
            None => PlaylistStep::Consumed,
        }
    }

    fn move_selected_track_down(&self) -> (r: PlaylistStep)
        ensures
            r == playlist_step(Key::Char('d'), self.owned(), self.row().selected, self.shown()),
    {
        if !self.is_owned {
            return PlaylistStep::Consumed;
        }
        let total: usize = self.tracks.filter().len();
        match self.tracks.state().selected {
            Some(index) => match index.checked_add(1) {
                Some(new_index) => if new_index >= total {
                    PlaylistStep::Consumed
                } else {
                    self.move_selected_track(index, new_index)
                },
                None => PlaylistStep::Consumed,
            },
            None => PlaylistStep::Consumed,
        }
    }

    fn move_selected_track(&self, index: usize, new_index: usize) -> (r: PlaylistStep)
        ensures
            r == match entry_at(self.shown(), index as int) {
                Some(playlist_track_id) => PlaylistStep::Move {
                    index,
                    new_index,
                    playlist_track_id,
                },
                None => PlaylistStep::Consumed,
            },
    {
        match self.entry(index) {
            Some(playlist_track_id) => PlaylistStep::Move { index, new_index, playlist_track_id },
            None => PlaylistStep::Consumed,
        }
    }

    /// A track was deleted from the playlist.
    pub fn track_deleted(&mut self, index: usize)
        ensures
            final(self).same_playlist(old(self)),
            final(self).shuffled() == old(self).shuffled(),
            final(self).row() == old(self).row(),
            final(self).all_tracks() == without_item(old(self).all_tracks(), index as int),
            final(self).shown() == if index < old(self).all_tracks().len() {
                final(self).all_tracks()
            } else {
                old(self).shown()
            },
    {
        self.tracks.remove_at_index(index);
        proof {
            if index < old(self).all_tracks().len() {
                lemma_clones_are_equal(self.tracks.items(), self.tracks.shown());
            }
        }
    }

    /// A track of the playlist was moved. It stays chosen.
    pub fn track_moved(&mut self, index: usize, new_index: usize)
        ensures
            final(self).same_playlist(old(self)),
            final(self).shuffled() == old(self).shuffled(),
            final(self).row() == with_row(old(self).row(), Some(new_index)),
            final(self).all_tracks() == with_item_moved(
                old(self).all_tracks(),
                index as int,
                new_index as int,
            ),
            final(self).shown() == if index < old(self).all_tracks().len() && new_index < old(
                self,
            ).all_tracks().len() {
                final(self).all_tracks()
            } else {
                old(self).shown()
            },
    {
        self.tracks.move_index_to_new_index(index, new_index);
        proof {
            if index < old(self).all_tracks().len() && new_index < old(self).all_tracks().len() {
                lemma_clones_are_equal(self.tracks.items(), self.tracks.shown());
            }
        }
        self.select_index(new_index);
    }
}

proof fn lemma_clones_are_equal(list: Seq<Track>, copy: Seq<Track>)
    requires
        clones(list, copy),
    ensures
        copy == list,
{
    assert forall|i: int| 0 <= i < list.len() implies copy[i] == list[i] by {
        assert(cloned(list[i], copy[i]));
    }
    assert(copy =~= list);
}

/// A track that is moved up, or down, stays chosen, and moving it the other way takes it back.
pub proof fn law_a_moved_track_stays_chosen(tracks: Seq<Track>, index: usize, up: bool)
    requires
        index < tracks.len() <= usize::MAX,
        up ==> index > 0,
        !up ==> index + 1 < tracks.len(),
        tracks[index as int].playlist_track_id is Some,
    ensures
        ({
            let key = if up {
                Key::Char('u')
            } else {
                Key::Char('d')
            };
            let back = if up {
                Key::Char('d')
            } else {
                Key::Char('u')
            };
            match playlist_step(key, true, Some(index), tracks) {
                PlaylistStep::Move { index: from, new_index, playlist_track_id } => {
                    let moved = with_item_moved(tracks, from as int, new_index as int);
                    &&& moved[new_index as int] == tracks[index as int]
                    &&& playlist_step(back, true, Some(new_index), moved) == (PlaylistStep::Move {
                        index: new_index,
                        new_index: from,
                        playlist_track_id,
                    })
                },
                _ => false,
            }
        }),
{
}

/// What is known of a track.
pub struct TrackInfoOverlay {
    track: Track,
    selected_sub_tab: usize,
}

/// The pages about a track.
#[derive(Clone, Copy, Debug, PartialEq, Eq, Structural)]
pub enum TrackTabKind {
    Info,
    GoToAlbum,
    GoToArtist,
}

/// What a key asks for in the pages about a track.
pub enum TrackInfoStep {
    Consumed,
    /// The popup is closed.
    Close,
    OpenAlbum(String),
    OpenArtist(Artist),
}

/// A line of text, bold where it is a heading.
pub struct InfoLine {
    pub text: String,
    pub bold: bool,
}

/// What a line says.
pub open spec fn line_views(lines: Seq<InfoLine>) -> Seq<(Seq<char>, bool)> {
    Seq::new(lines.len(), |i: int| (lines[i].text@, lines[i].bold))
}

/// The page at a place.
pub open spec fn tab_at(place: int) -> TrackTabKind {
    if place == 0 {
        TrackTabKind::Info
    } else if place == 1 {
        TrackTabKind::GoToAlbum
    } else {
        TrackTabKind::GoToArtist
    }
}

/// The parts that are not empty, without the white space at their ends.
pub open spec fn credits(parts: Seq<Seq<char>>) -> Seq<(Seq<char>, bool)>
    decreases parts.len(),
{
    if parts.len() == 0 {
        Seq::empty()
    } else {
        let before = credits(parts.drop_last());
        if trimmed(parts.last()).len() == 0 {
            before
        } else {
            before.push((trimmed(parts.last()), false))
        }
    }
}

/// Lines under a heading, with an empty line before them where they are not the first.
pub open spec fn section(
    before: Seq<(Seq<char>, bool)>,
    heading: Seq<char>,
    lines: Seq<(Seq<char>, bool)>,
) -> Seq<(Seq<char>, bool)> {
    let gap = if before.len() > 0 {
        seq![(Seq::<char>::empty(), false)]
    } else {
        Seq::empty()
    };
    before + gap + seq![(heading, true)] + lines
}

/// The lines about a track: when it was released, who plays on it and who owns it, as far as that
/// is known.
pub open spec fn information(track: Track) -> Seq<(Seq<char>, bool)> {
    let released = match track.release_date {
        Some(date) => seq![("Released: "@ + date@, false)],
        None => Seq::empty(),
    };
    let credited = match track.performers {
        Some(performers) => if performers@.len() > 0 {
            section(released, "Credits"@, credits(parts_between(performers@, " - "@, 0, 0)))
        } else {
            released
        },
        None => released,
    };
    match track.copyright {
        Some(copyright) => if copyright@.len() > 0 {
            section(credited, "Copyright"@, seq![(copyright@, false)])
        } else {
            credited
        },
        None => credited,
    }
}

/// The parts of the line about a recording.
pub open spec fn recording_parts(track: Track, length: Seq<char>, rate: Seq<char>) -> Seq<
    Seq<char>,
> {
    let quality = if track.hires_available {
        seq![" · "@, "󰐵"@] + (match (track.bit_depth, track.sampling_rate) {
            (Some(bit_depth), Some(_)) => seq![
                " "@ + decimal(bit_depth as nat) + " bit - "@ + rate + "kHz"@,
            ],
            _ => Seq::empty(),
        })
    } else {
        Seq::empty()
    };
    let explicit = if track.explicit {
        seq![" · "@, "󰬌"@]
    } else {
        Seq::empty()
    };
    seq![length] + quality + explicit
}

/// Adds a line.
fn push_line(lines: &mut Vec<InfoLine>, text: String, bold: bool)
    ensures
        line_views(final(lines)@) == line_views(old(lines)@).push((text@, bold)),
{
    let ghost before = lines@;
    lines.push(InfoLine { text, bold });
    assert(line_views(lines@) =~= line_views(before).push((text@, bold)));
}

impl TrackInfoOverlay {
    /// The track.
    pub closed spec fn track(&self) -> Track {
        self.track
    }

    /// The place of the page that is shown.
    pub closed spec fn place(&self) -> int {
        self.selected_sub_tab as int
    }

    /// One of the three pages is shown.
    pub open spec fn wf(&self) -> bool {
        0 <= self.place() < 3
    }

    pub fn new(track: Track) -> (r: Self)
        ensures
            r.wf(),
            r.track() == track,
            r.place() == 0,
    {
        TrackInfoOverlay { track, selected_sub_tab: 0 }
    }

    pub fn title(&self) -> (r: &str)
        ensures
            r@ == self.track().title@,
    {
        self.track.title.as_str()
    }

    pub fn selected_tab_kind(&self) -> (r: TrackTabKind)
        ensures
            r == tab_at(self.place()),
    {
        if self.selected_sub_tab == 0 {
            TrackTabKind::Info
        } else if self.selected_sub_tab == 1 {
            TrackTabKind::GoToAlbum
        } else {
            TrackTabKind::GoToArtist
        }
    }

    fn cycle_subtab(&mut self)
        requires
            old(self).wf(),
        ensures
            final(self).wf(),
            final(self).track() == old(self).track(),
            final(self).place() == (old(self).place() + 1) % 3,
    {
        self.selected_sub_tab = (self.selected_sub_tab + 1) % 3;
    }

    fn cycle_subtab_backwards(&mut self)
        requires
            old(self).wf(),
        ensures
            final(self).wf(),
            final(self).track() == old(self).track(),
            final(self).place() == (old(self).place() + 2) % 3,
    {
        self.selected_sub_tab = (self.selected_sub_tab + 3 - 1) % 3;
    }

    /// What a key does: it turns the pages, or opens what the page is about.
    pub fn handle_event(&mut self, key: Key) -> (r: TrackInfoStep)
        requires
            old(self).wf(),
        ensures
            final(self).wf(),
            final(self).track() == old(self).track(),
            final(self).place() == if key == Key::Up || key == Key::Char('k') {
                (old(self).place() + 2) % 3
            } else if key == Key::Down || key == Key::Char('j') {
                (old(self).place() + 1) % 3
            } else {
                old(self).place()
            },
            ({
                let opens = key == Key::Enter || key == Key::Right || key == Key::Char('l');
                let page = tab_at(old(self).place());
                match r {
                    TrackInfoStep::Close => key == Key::Esc,
                    TrackInfoStep::OpenAlbum(id) => opens && page == TrackTabKind::GoToAlbum
                        && old(self).track().album_id == Some(id),
                    TrackInfoStep::OpenArtist(artist) => opens && page == TrackTabKind::GoToArtist
                        && old(self).track().artist_id == Some(artist.id) && artist.image is None
                        && artist.name@ == match old(self).track().artist_name {
                        Some(name) => name@,
                        None => Seq::empty(),
                    },
                    TrackInfoStep::Consumed => key != Key::Esc && !(opens && page
                        == TrackTabKind::GoToAlbum && old(self).track().album_id is Some)
                        && !(opens && page == TrackTabKind::GoToArtist && old(
                        self,
                    ).track().artist_id is Some),
                }
            }),
    {
        match key {
            Key::Up => {
                self.cycle_subtab_backwards();
                TrackInfoStep::Consumed
            },
            Key::Down => {
                self.cycle_subtab();
                TrackInfoStep::Consumed
            },
            Key::Esc => TrackInfoStep::Close,
            Key::Enter | Key::Right => self.open_page(),
            Key::Char(c) => {
                if c == 'k' {
                    self.cycle_subtab_backwards();
                    TrackInfoStep::Consumed
                } else if c == 'j' {
                    self.cycle_subtab();
                    TrackInfoStep::Consumed
                } else if c == 'l' {
                    self.open_page()
                } else {
                    TrackInfoStep::Consumed
                }
            },
            _ => TrackInfoStep::Consumed,
        }
    }

    /// What the page leads to.
    fn open_page(&self) -> (r: TrackInfoStep)
        ensures
            match r {
                TrackInfoStep::Close => false,
                TrackInfoStep::OpenAlbum(id) => tab_at(self.place()) == TrackTabKind::GoToAlbum
                    && self.track().album_id == Some(id),
                TrackInfoStep::OpenArtist(artist) => tab_at(self.place())
                    == TrackTabKind::GoToArtist && self.track().artist_id == Some(artist.id)
                    && artist.image is None && artist.name@ == match self.track().artist_name {
                    Some(name) => name@,
                    None => Seq::empty(),
                },
                TrackInfoStep::Consumed => !(tab_at(self.place()) == TrackTabKind::GoToAlbum
                    && self.track().album_id is Some) && !(tab_at(self.place())
                    == TrackTabKind::GoToArtist && self.track().artist_id is Some),
            },
    {
        match self.selected_tab_kind() {
            TrackTabKind::Info => TrackInfoStep::Consumed,
            TrackTabKind::GoToAlbum => match &self.track.album_id {
                Some(id) => TrackInfoStep::OpenAlbum(id.clone()),
                None => TrackInfoStep::Consumed,
            },
            TrackTabKind::GoToArtist => match self.track.artist_id {
                Some(id) => {
                    let name: String = match &self.track.artist_name {
                        Some(name) => name.clone(),
                        None => String::new(),
                    };
                    TrackInfoStep::OpenArtist(Artist { id, name, image: None })
                },
                None => TrackInfoStep::Consumed,
            },
        }
    }

    /// The artist and the album at the top.
    pub fn header_names(&self) -> (r: (String, String))
        ensures
            r.0@ == match self.track().artist_name {
                Some(name) => name@,
                None => "Unknown artist"@,
            },
            r.1@ == match self.track().album_title {
                Some(title) => title@,
                None => "Unknown album"@,
            },
    {
        let artist: String = match &self.track.artist_name {
            Some(name) => name.clone(),
            None => owned("Unknown artist"),
        };
        let album: String = match &self.track.album_title {
            Some(title) => title.clone(),
            None => owned("Unknown album"),
        };
        (artist, album)
    }

    /// What a page that leads elsewhere says.
    pub fn page_message(&self) -> (r: &'static str)
        ensures
            r@ == match tab_at(self.place()) {
                TrackTabKind::Info => ""@,
                TrackTabKind::GoToAlbum => if self.track().album_id is Some {
                    "Press Enter to open album"@
                } else {
                    "Album information is unavailable"@
                },
                TrackTabKind::GoToArtist => if self.track().artist_id is Some {
                    "Press Enter to open artist"@
                } else {
                    "Artist information is unavailable"@
                },
            },
    {
        match self.selected_tab_kind() {
            TrackTabKind::Info => "",
            TrackTabKind::GoToAlbum => if self.track.album_id.is_some() {
                "Press Enter to open album"
            } else {
                "Album information is unavailable"
            },
            TrackTabKind::GoToArtist => if self.track.artist_id.is_some() {
                "Press Enter to open artist"
            } else {
                "Artist information is unavailable"
            },
        }
    }

    /// The parts of the line about the recording: its length, and marks for a better quality and
    /// for explicit words. `length` and `rate` are the length and the sampling rate as they are
    /// written.
    pub fn metadata_parts(&self, length: &str, rate: &str) -> (r: Vec<String>)
        ensures
            views(r@) == recording_parts(self.track(), length@, rate@),
    {
        let mut parts: Vec<String> = Vec::new();
        parts.push(owned(length));
        assert(views(parts@) =~= seq![length@]);
        if self.track.hires_available {
            parts.push(owned(" · "));
            parts.push(owned("󰐵"));
            if let (Some(bit_depth), Some(_)) = (self.track.bit_depth, self.track.sampling_rate) {
                parts.push(
                    owned(" ").concat(&decimal_text(bit_depth as u128)).concat(" bit - ").concat(
                        rate,
                    ).concat("kHz"),
                );
            }
        }
        if self.track.explicit {
            parts.push(owned(" · "));
            parts.push(owned("󰬌"));
        }
        assert(views(parts@) =~= recording_parts(self.track(), length@, rate@));
        parts
    }

    /// The lines about the track.
    pub fn information_lines(&self) -> (r: Vec<InfoLine>)
        ensures
            line_views(r@) == information(self.track()),
    {
        let mut lines: Vec<InfoLine> = Vec::new();
        assert(line_views(lines@) =~= Seq::empty());
        if let Some(date) = &self.track.release_date {
            push_line(&mut lines, owned("Released: ").concat(date), false);
            assert(line_views(lines@) =~= seq![("Released: "@ + date@, false)]);
        }
        if let Some(performers) = &self.track.performers {
            if performers.as_str().unicode_len() > 0 {
                proof {
                    reveal_strlit(" - ");
                }
                let parts = split_by_text(performers, " - ");
                let ghost all = views(parts@);
                let ghost before = line_views(lines@);
                if lines.len() > 0 {
                    push_line(&mut lines, String::new(), false);
                }
                push_line(&mut lines, owned("Credits"), true);
                let ghost head = line_views(lines@);
                assert(head + credits(all.take(0)) =~= head);
                for i in 0..parts.len()
                    invariant
                        all == views(parts@),
                        line_views(lines@) == head + credits(all.take(i as int)),
                {
                    assert(all.take(i + 1).drop_last() =~= all.take(i as int));
                    assert(all[i as int] == parts@[i as int]@);
                    let ghost so_far = credits(all.take(i as int));
                    let part = trim_text(&parts[i]);
                    if part.as_str().unicode_len() > 0 {
                        push_line(&mut lines, part, false);
                        assert((head + so_far).push((part@, false)) =~= head + so_far.push(
                            (part@, false),
                        ));
                    }
                }
                assert(all.take(all.len() as int) =~= all);
                assert(line_views(lines@) =~= section(before, "Credits"@, credits(all)));
            }
        }
        if let Some(copyright) = &self.track.copyright {
            if copyright.as_str().unicode_len() > 0 {
                let ghost before = line_views(lines@);
                if lines.len() > 0 {
                    push_line(&mut lines, String::new(), false);
                }
                push_line(&mut lines, owned("Copyright"), true);
                push_line(&mut lines, copyright.clone(), false);
                assert(line_views(lines@) =~= section(
                    before,
                    "Copyright"@,
                    seq![(copyright@, false)],
                ));
            }
        }
        lines
    }
}

/// The messages about a favourite that was added.
pub fn added_to_favorites(title: &str) -> (r: String)
    ensures
        r@ == title@ + " added to favorites"@,
{
    owned(title).concat(" added to favorites")
}

/// The message about a favourite that was removed.
pub fn removed_from_favorites(title: &str) -> (r: String)
    ensures
        r@ == title@ + " removed from favorites"@,
{
    owned(title).concat(" removed from favorites")
}

} // verus!

//! What the popups of the terminal can be relied on to do.

use vstd::prelude::*;
use crate::filtered_list::RowState;
use crate::keys::Key;
use crate::models::{Artist, Playlist, PlaylistSimple, Track};
use crate::new_playlist::NewPlaylistOverlay;
use crate::overlays::{
    added_to_favorites, credits, information, line_views, new_playlist_step, recording_parts,
    removed_from_favorites, AddTrackOverlay, DeletePlaylistOverlay, DeleteStep, InfoLine, NameStep,
    PlaylistOverlay, PlaylistStep, TrackInfoOverlay, TrackInfoStep, TrackTabKind,
};
use crate::terminal_app::Output;
use crate::text::{parts_between, split_by_text, trim_text, trimmed, views};

verus! {

/// Enter adds the track to the playlist that is chosen, and closes the popup.
pub proof fn law_enter_adds_the_track<P>(
    overlay: &mut AddTrackOverlay,
    r: Output<P>,
    at: usize,
)
    requires
        call_ensures(AddTrackOverlay::handle_event::<P>, (overlay, Key::Enter), r),
    ensures
        old(overlay).row().selected == Some(at) && at < old(overlay).playlists().len() ==> r
            == Output::<P>::AddTrackToPlaylistAndPopPopup(
            (old(overlay).track().id, old(overlay).playlists()[at as int].id),
        ),
        old(overlay).row().selected == Some(at) && at >= old(overlay).playlists().len() ==> r
            == Output::<P>::Consumed,
        old(overlay).row().selected is None ==> r == Output::<P>::Consumed,
        final(overlay).row() == old(overlay).row(),
{
}

/// The arrows and their letters go up and down the playlists, escape closes the popup, and no other
/// key adds the track.
pub proof fn law_playlists_are_gone_through<P>(
    overlay: &mut AddTrackOverlay,
    key: Key,
    r: Output<P>,
    at: usize,
)
    requires
        call_ensures(AddTrackOverlay::handle_event::<P>, (overlay, key), r),
        key != Key::Enter,
        old(overlay).row().selected == Some(at),
        at < usize::MAX,
    ensures
        key == Key::Esc ==> r == Output::<P>::PopPopup,
        key != Key::Esc ==> r == Output::<P>::Consumed,
        key == Key::Down || key == Key::Char('j') ==> (final(overlay).row().selected matches Some(to)
            && to == at + 1),
        (key == Key::Up || key == Key::Char('k')) && at > 0 ==> (
        final(overlay).row().selected matches Some(to) && to == at - 1),
        key != Key::Down && key != Key::Up && key != Key::Char('j') && key != Key::Char('k')
            ==> final(overlay).row() == old(overlay).row(),
        final(overlay).track() == old(overlay).track(),
        final(overlay).playlists() == old(overlay).playlists(),
{
}

/// A track is offered to the playlists that are given, of which the first is chosen.
pub proof fn law_a_track_is_offered(
    track: Track,
    playlists: Vec<PlaylistSimple>,
    r: AddTrackOverlay,
    heading: String,
)
    requires
        call_ensures(AddTrackOverlay::new, (track, playlists), r),
        call_ensures(AddTrackOverlay::heading, (&r,), heading),
    ensures
        r.track() == track,
        r.playlists() == playlists@,
        playlists@.len() > 0 ==> r.row().selected == Some(0usize),
        playlists@.len() == 0 ==> r.row().selected is None,
        heading@ == "Add "@ + track.title@ + " to playlist"@,
{
}

/// A playlist is deleted only where that was chosen and enter is pressed: at first it is not chosen,
/// and each of the keys that go left or right changes that.
pub proof fn law_a_playlist_is_deleted_on_purpose<P>(
    playlist: PlaylistSimple,
    fresh: DeletePlaylistOverlay,
    at_first: usize,
    overlay: &mut DeletePlaylistOverlay,
    key: Key,
    r: DeleteStep<P>,
)
    requires
        call_ensures(DeletePlaylistOverlay::new, (playlist,), fresh),
        call_ensures(DeletePlaylistOverlay::selected, (&fresh,), at_first),
        call_ensures(DeletePlaylistOverlay::handle_event::<P>, (overlay, key), r),
    ensures
        !fresh.confirmed(),
        at_first == 1,
        fresh.playlist() == playlist.id,
        r.delete is Some <==> key == Key::Enter && old(overlay).confirmed(),
        r.delete matches Some(id) ==> id == old(overlay).playlist(),
        key == Key::Left || key == Key::Right || key == Key::Char('h') || key == Key::Char('l')
            ==> final(overlay).confirmed() == !old(overlay).confirmed() && r.output
            == Output::<P>::Consumed,
        !(key == Key::Left || key == Key::Right || key == Key::Char('h') || key == Key::Char('l'))
            ==> final(overlay).confirmed() == old(overlay).confirmed(),
        key == Key::Enter ==> r.output == Output::<P>::PopPopupUpdateFavorites,
        key == Key::Esc ==> r.output == Output::<P>::PopPopup,
        final(overlay).playlist() == old(overlay).playlist(),
        final(overlay).title() == old(overlay).title(),
{
}

/// The name of a new playlist is what was typed, without the white space at its ends, where anything
/// is left.
pub proof fn law_a_playlist_gets_its_name(key: Key, name: &str, r: NameStep, trimmed_name: String)
    requires
        call_ensures(new_playlist_step, (key, name), r),
        call_ensures(trim_text, (name,), trimmed_name),
    ensures
        key == Key::Enter && trimmed_name@.len() > 0 ==> (r matches NameStep::Create(text) && text@
            == trimmed_name@),
        key == Key::Enter && trimmed_name@.len() == 0 ==> r is Nothing,
        key == Key::Esc ==> r is Close,
        key != Key::Enter && key != Key::Esc ==> r is Type,
{
}

/// A character that is typed stands where the caret was, with the rest of the name around it, and
/// the caret stands behind it; enter and escape change nothing of the name.
pub proof fn law_a_typed_character_stands_at_the_caret(
    overlay: &mut NewPlaylistOverlay,
    c: char,
    modifiers: u8,
    r: NameStep,
    at: int,
)
    requires
        old(overlay).wf(),
        call_ensures(NewPlaylistOverlay::handle_event, (overlay, Key::Char(c), modifiers), r),
        modifiers == 0 || modifiers == 1,
        at == old(overlay).line().at,
    ensures
        r is Type,
        final(overlay).line().text.len() == old(overlay).line().text.len() + 1,
        final(overlay).line().text[at] == c,
        final(overlay).line().text.take(at) == old(overlay).line().text.take(at),
        final(overlay).line().text.skip(at + 1) == old(overlay).line().text.skip(at),
        final(overlay).line().at == at + 1,
{
    let before = old(overlay).line();
    let after = final(overlay).line();
    assert(after.text.take(at) =~= before.text.take(at));
    assert(after.text.skip(at + 1) =~= before.text.skip(at));
}

/// Enter makes a playlist of the name as it is typed, escape closes the popup, and neither changes
/// the name.
pub proof fn law_a_typed_name_is_made(
    overlay: &mut NewPlaylistOverlay,
    before: &NewPlaylistOverlay,
    key: Key,
    modifiers: u8,
    r: NameStep,
    name: String,
    trimmed_name: String,
    text: &str,
)
    requires
        old(overlay).wf(),
        *before == *old(overlay),
        call_ensures(NewPlaylistOverlay::handle_event, (overlay, key, modifiers), r),
        call_ensures(NewPlaylistOverlay::name, (before,), name),
        text@ == name@,
        call_ensures(trim_text, (text,), trimmed_name),
        key == Key::Enter || key == Key::Esc,
    ensures
        *final(overlay) == *old(overlay),
        key == Key::Esc ==> r is Close,
        key == Key::Enter && trimmed_name@.len() > 0 ==> (r matches NameStep::Create(made) && made@
            == trimmed_name@),
        key == Key::Enter && trimmed_name@.len() == 0 ==> r is Nothing,
{
}

/// Home and end go to the ends of the name, and the keys that cut and put back move what is behind
/// the caret out and in again.
pub proof fn law_the_caret_goes_to_the_ends(
    home: &mut NewPlaylistOverlay,
    end: &mut NewPlaylistOverlay,
    cut: &mut NewPlaylistOverlay,
    r1: NameStep,
    r2: NameStep,
    r3: NameStep,
)
    requires
        old(home).wf(),
        old(end).wf(),
        old(cut).wf(),
        call_ensures(NewPlaylistOverlay::handle_event, (home, Key::Home, 0), r1),
        call_ensures(NewPlaylistOverlay::handle_event, (end, Key::End, 0), r2),
        call_ensures(NewPlaylistOverlay::handle_event, (cut, Key::Char('k'), 2), r3),
    ensures
        final(home).line().at == 0,
        final(home).line().text == old(home).line().text,
        final(end).line().at == old(end).line().text.len(),
        final(end).line().text == old(end).line().text,
        final(cut).line().text == old(cut).line().text.take(old(cut).line().at as int),
        final(cut).line().at == old(cut).line().at,
{
}

/// Backspace removes what stands right before the caret, up to the start of that character, and
/// leaves the rest.
pub proof fn law_backspace_removes_before_the_caret(
    overlay: &mut NewPlaylistOverlay,
    r: NameStep,
    at: int,
)
    requires
        old(overlay).wf(),
        call_ensures(NewPlaylistOverlay::handle_event, (overlay, Key::Backspace, 0), r),
        at == old(overlay).line().at,
    ensures
        at == 0 ==> final(overlay).line() == old(overlay).line(),
        at > 0 ==> {
            let to = final(overlay).line().at as int;
            &&& to < at
            &&& final(overlay).line().text == old(overlay).line().text.take(to)
                + old(overlay).line().text.skip(at)
        },
{
}

/// A playlist opens with its tracks, none of them chosen and shuffling off.
pub proof fn law_a_playlist_opens_with_its_tracks(
    playlist: Playlist,
    r: PlaylistOverlay,
    control: usize,
)
    requires
        call_ensures(PlaylistOverlay::new, (playlist,), r),
        call_ensures(PlaylistOverlay::selected_control, (&r,), control),
    ensures
        r.shown() == playlist.tracks@,
        r.all_tracks() == playlist.tracks@,
        r.row().selected is None,
        !r.shuffled(),
        control == 0,
        r.name() == playlist.title@,
        r.playlist() == playlist.id,
        r.owned() == playlist.is_owned,
        r.owner_name() == playlist.owner.name@,
        r.seconds() == playlist.duration_seconds,
        r.image() == playlist.image,
{
}

/// The owner of a playlist can delete the track that is chosen and move it up and down, as far as
/// there is room; nobody else can.
pub proof fn law_the_owner_edits_a_playlist(
    overlay: &mut PlaylistOverlay,
    key: Key,
    r: PlaylistStep,
    at: usize,
    id: u64,
)
    requires
        call_ensures(PlaylistOverlay::handle_event, (overlay, key), r),
        old(overlay).row().selected == Some(at),
        at < old(overlay).shown().len() <= usize::MAX,
        old(overlay).shown()[at as int].playlist_track_id == Some(id),
        key == Key::Char('D') || key == Key::Char('u') || key == Key::Char('d'),
    ensures
        !old(overlay).owned() ==> r == PlaylistStep::Consumed,
        old(overlay).owned() && key == Key::Char('D') ==> r == (PlaylistStep::Delete {
            index: at,
            playlist_track_id: id,
        }),
        old(overlay).owned() && key == Key::Char('u') && at > 0 ==> (
        r matches PlaylistStep::Move { index, new_index, playlist_track_id } && index == at
            && new_index == at - 1 && playlist_track_id == id),
        old(overlay).owned() && key == Key::Char('u') && at == 0 ==> r == PlaylistStep::Consumed,
        old(overlay).owned() && key == Key::Char('d') && at + 1 < old(overlay).shown().len() ==> (
        r matches PlaylistStep::Move { index, new_index, playlist_track_id } && index == at
            && new_index == at + 1 && playlist_track_id == id),
        old(overlay).owned() && key == Key::Char('d') && at + 1 == old(overlay).shown().len() ==> r
            == PlaylistStep::Consumed,
        final(overlay).shown() == old(overlay).shown(),
{
}

/// Escape closes a playlist, the keys that go left and right change between playing and shuffling,
/// and all other keys are for its list of tracks.
pub proof fn law_keys_of_a_playlist(overlay: &mut PlaylistOverlay, key: Key, r: PlaylistStep)
    requires
        call_ensures(PlaylistOverlay::handle_event, (overlay, key), r),
    ensures
        key == Key::Esc ==> r == PlaylistStep::Close,
        key == Key::Left || key == Key::Right || key == Key::Char('h') || key == Key::Char('l') ==> r
            == PlaylistStep::Consumed && final(overlay).shuffled() == !old(overlay).shuffled(),
        !(key == Key::Left || key == Key::Right || key == Key::Char('h') || key == Key::Char('l'))
            ==> final(overlay).shuffled() == old(overlay).shuffled(),
        key == Key::Enter || key == Key::Up || key == Key::Down || key == Key::Char('j') || key
            == Key::Char('k') ==> r == PlaylistStep::List,
        final(overlay).same_playlist(old(overlay)),
        final(overlay).row() == old(overlay).row(),
{
}

/// A track that was deleted is gone, and one that was moved stands at its new place and is chosen;
/// all others keep their order.
pub proof fn law_a_playlist_shows_its_edits(
    deleted: &mut PlaylistOverlay,
    moved: &mut PlaylistOverlay,
    index: usize,
    new_index: usize,
)
    requires
        call_ensures(PlaylistOverlay::track_deleted, (deleted, index), ()),
        call_ensures(PlaylistOverlay::track_moved, (moved, index, new_index), ()),
        index < old(deleted).all_tracks().len(),
        index < old(moved).all_tracks().len(),
        new_index < old(moved).all_tracks().len(),
    ensures
        final(deleted).all_tracks() == old(deleted).all_tracks().remove(index as int),
        final(deleted).shown() == final(deleted).all_tracks(),
        final(moved).all_tracks().len() == old(moved).all_tracks().len(),
        final(moved).all_tracks()[new_index as int] == old(moved).all_tracks()[index as int],
        final(moved).all_tracks().remove(new_index as int) == old(moved).all_tracks().remove(
            index as int,
        ),
        final(moved).shown() == final(moved).all_tracks(),
        final(moved).row().selected == Some(new_index),
{
    assert(final(moved).all_tracks().remove(new_index as int) =~= old(moved).all_tracks().remove(
        index as int,
    ));
}

/// The lines beside the cover of a playlist: its title, its owner, and how much there is of it.
pub proof fn law_a_playlist_is_told_in_lines(overlay: &PlaylistOverlay, length: &str, r: Vec<String>)
    requires
        call_ensures(PlaylistOverlay::header_lines, (overlay, length), r),
    ensures
        r@.len() == 4,
        r@[0]@ == overlay.name(),
        r@[1]@ == overlay.owner_name(),
        r@[2]@.len() == 0,
        r@[3]@ == crate::text::decimal(overlay.shown().len()) + " tracks · "@ + length@,
{
    let v = views(r@);
    assert(v.len() == r@.len());
    assert(v[0] == r@[0]@ && v[1] == r@[1]@ && v[2] == r@[2]@ && v[3] == r@[3]@);
}

/// The pages about a track are turned round and round: what is known of it, its album and its
/// artist.
pub proof fn law_the_pages_about_a_track(
    overlay: &mut TrackInfoOverlay,
    before: &TrackInfoOverlay,
    after: &TrackInfoOverlay,
    key: Key,
    r: TrackInfoStep,
    page: TrackTabKind,
    next: TrackTabKind,
)
    requires
        old(overlay).wf(),
        *before == *old(overlay),
        *after == *final(overlay),
        call_ensures(TrackInfoOverlay::handle_event, (overlay, key), r),
        call_ensures(TrackInfoOverlay::selected_tab_kind, (before,), page),
        call_ensures(TrackInfoOverlay::selected_tab_kind, (after,), next),
    ensures
        key == Key::Down || key == Key::Char('j') ==> {
            &&& r is Consumed
            &&& page == TrackTabKind::Info ==> next == TrackTabKind::GoToAlbum
            &&& page == TrackTabKind::GoToAlbum ==> next == TrackTabKind::GoToArtist
            &&& page == TrackTabKind::GoToArtist ==> next == TrackTabKind::Info
        },
        key == Key::Up || key == Key::Char('k') ==> {
            &&& r is Consumed
            &&& page == TrackTabKind::Info ==> next == TrackTabKind::GoToArtist
            &&& page == TrackTabKind::GoToAlbum ==> next == TrackTabKind::Info
            &&& page == TrackTabKind::GoToArtist ==> next == TrackTabKind::GoToAlbum
        },
        key == Key::Enter || key == Key::Esc || key == Key::Right || key == Key::Char('l') ==> next
            == page,
        key == Key::Esc ==> r is Close,
        r is Close ==> key == Key::Esc,
{
}

/// A page about a track opens what it is about, where that is known.
pub proof fn law_a_page_opens_what_it_is_about(
    overlay: &mut TrackInfoOverlay,
    before: &TrackInfoOverlay,
    key: Key,
    r: TrackInfoStep,
    page: TrackTabKind,
    message: &'static str,
)
    requires
        old(overlay).wf(),
        *before == *old(overlay),
        call_ensures(TrackInfoOverlay::handle_event, (overlay, key), r),
        call_ensures(TrackInfoOverlay::selected_tab_kind, (before,), page),
        call_ensures(TrackInfoOverlay::page_message, (before,), message),
        key == Key::Enter || key == Key::Right || key == Key::Char('l'),
    ensures
        ({
            let track = before.track();
            &&& page == TrackTabKind::Info ==> r is Consumed
            &&& page == TrackTabKind::GoToAlbum && track.album_id is Some ==> r
                == TrackInfoStep::OpenAlbum(track.album_id->0) && message@
                == "Press Enter to open album"@
            &&& page == TrackTabKind::GoToAlbum && track.album_id is None ==> r is Consumed
                && message@ == "Album information is unavailable"@
            &&& page == TrackTabKind::GoToArtist && track.artist_id is Some ==> (
            r matches TrackInfoStep::OpenArtist(artist) && artist.id == track.artist_id->0
                && artist.image is None && (track.artist_name matches Some(name) ==> artist.name@
                == name@)) && message@ == "Press Enter to open artist"@
            &&& page == TrackTabKind::GoToArtist && track.artist_id is None ==> r is Consumed
                && message@ == "Artist information is unavailable"@
        }),
{
}

/// A track is shown with its artist and its album, or that they are unknown.
pub proof fn law_a_track_is_shown_with_its_names(overlay: &TrackInfoOverlay, r: (String, String))
    requires
        call_ensures(TrackInfoOverlay::header_names, (overlay,), r),
    ensures
        overlay.track().artist_name matches Some(name) ==> r.0@ == name@,
        overlay.track().artist_name is None ==> r.0@ == "Unknown artist"@,
        overlay.track().album_title matches Some(title) ==> r.1@ == title@,
        overlay.track().album_title is None ==> r.1@ == "Unknown album"@,
{
}

/// The line about a recording starts with its length, and has marks only for what it is.
pub proof fn law_a_recording_is_marked_for_what_it_is(
    overlay: &TrackInfoOverlay,
    length: &str,
    rate: &str,
    r: Vec<String>,
)
    requires
        call_ensures(TrackInfoOverlay::metadata_parts, (overlay, length, rate), r),
    ensures
        ({
            let track = overlay.track();
            let depth = track.hires_available && track.bit_depth is Some
                && track.sampling_rate is Some;
            let better = if track.hires_available {
                if depth {
                    3int
                } else {
                    2
                }
            } else {
                0
            };
            let explicit = if track.explicit {
                2int
            } else {
                0
            };
            &&& r@.len() == 1 + better + explicit
            &&& r@[0]@ == length@
            &&& track.hires_available ==> r@[1]@ == " · "@ && r@[2]@ == "󰐵"@
            &&& depth ==> r@[3]@ == " "@ + crate::text::decimal(track.bit_depth->0 as nat)
                + " bit - "@ + rate@ + "kHz"@
            &&& track.explicit ==> r@[1 + better]@ == " · "@ && r@[2 + better]@ == "󰬌"@
        }),
{
    let v = views(r@);
    assert(v.len() == r@.len());
    assert forall|i: int| 0 <= i < r@.len() implies (#[trigger] r@[i])@ == v[i] by {}
}

/// The lines about a track tell first when it was released, where that is known.
pub proof fn law_a_release_is_told_first(overlay: &TrackInfoOverlay, r: Vec<InfoLine>)
    requires
        call_ensures(TrackInfoOverlay::information_lines, (overlay,), r),
    ensures
        overlay.track().release_date matches Some(date) ==> r@.len() > 0 && r@[0].text@
            == "Released: "@ + date@ && !r@[0].bold,
        overlay.track().release_date is None && overlay.track().performers is None
            && overlay.track().copyright is None ==> r@.len() == 0,
        overlay.track().copyright matches Some(copyright) ==> (copyright@.len() > 0 ==> r@.len() >= 2
            && r@.last().text@ == copyright@ && !r@.last().bold && r@[r@.len() - 2].text@
            == "Copyright"@ && r@[r@.len() - 2].bold),
{
    let v = line_views(r@);
    assert(v.len() == r@.len());
    assert forall|i: int| 0 <= i < r@.len() implies (#[trigger] r@[i]).text@ == v[i].0 && r@[i].bold
        == v[i].1 by {}
    let track = overlay.track();
    assert(v == information(track));
    if r@.len() > 0 {
        assert(r@[0].text@ == v[0].0);
        assert(r@[r@.len() - 1].text@ == v[v.len() - 1].0);
        if r@.len() > 1 {
            assert(r@[r@.len() - 2].text@ == v[v.len() - 2].0);
        }
    }
}

/// Who plays on a track is told under a heading, in the order in which they are named, and nothing
/// else where the rest is not known.
pub proof fn law_who_plays_is_told_under_a_heading(overlay: &TrackInfoOverlay, r: Vec<InfoLine>)
    requires
        call_ensures(TrackInfoOverlay::information_lines, (overlay,), r),
        overlay.track().release_date is None,
        overlay.track().copyright is None,
        overlay.track().performers matches Some(performers) && performers@.len() > 0,
    ensures
        r@.len() > 0 && r@[0].text@ == "Credits"@ && r@[0].bold,
        forall|i: int| 1 <= i < r@.len() ==> !(#[trigger] r@[i]).bold && r@[i].text@.len() > 0,
{
    let v = line_views(r@);
    assert(v.len() == r@.len());
    assert forall|i: int| 0 <= i < r@.len() implies (#[trigger] r@[i]).text@ == v[i].0 && r@[i].bold
        == v[i].1 by {}
    let track = overlay.track();
    assert(v == information(track));
    let parts = parts_between(track.performers->0@, " - "@, 0, 0);
    lemma_credits_are_plain(parts);
    assert(v =~= seq![("Credits"@, true)] + credits(parts));
}

proof fn lemma_credits_are_plain(parts: Seq<Seq<char>>)
    ensures
        forall|i: int|
            0 <= i < credits(parts).len() ==> !(#[trigger] credits(parts)[i]).1 && credits(
                parts,
            )[i].0.len() > 0,
    decreases parts.len(),
{
    if parts.len() > 0 {
        let rest = parts.drop_last();
        lemma_credits_are_plain(rest);
        assert forall|i: int| 0 <= i < credits(parts).len() implies !(
        #[trigger] credits(parts)[i]).1 && credits(parts)[i].0.len() > 0 by {
            if i < credits(rest).len() {
                assert(!credits(rest)[i].1 && credits(rest)[i].0.len() > 0);
            }
        }
    }
}

/// Where no name is blank, each is told, in order, without the white space around it.
pub proof fn law_every_name_is_told(
    overlay: &TrackInfoOverlay,
    r: Vec<InfoLine>,
    performers: &str,
    pattern: &str,
    parts: Vec<String>,
)
    requires
        call_ensures(TrackInfoOverlay::information_lines, (overlay,), r),
        overlay.track().release_date is None,
        overlay.track().copyright is None,
        overlay.track().performers matches Some(named) && named@ == performers@,
        performers@.len() > 0,
        pattern@ == " - "@,
        call_ensures(split_by_text, (performers, pattern), parts),
        forall|i: int| 0 <= i < parts@.len() ==> trimmed(#[trigger] parts@[i]@).len() > 0,
    ensures
        r@.len() == parts@.len() + 1,
        forall|i: int| 0 <= i < parts@.len() ==> r@[i + 1].text@ == trimmed(#[trigger] parts@[i]@),
{
    let v = line_views(r@);
    assert(v.len() == r@.len());
    let p = views(parts@);
    assert(p == parts_between(performers@, " - "@, 0, 0));
    assert forall|i: int| 0 <= i < p.len() implies trimmed(#[trigger] p[i]).len() > 0 by {
        assert(p[i] == parts@[i]@);
    }
    lemma_no_blank_is_left_out(p);
    assert(v == information(overlay.track()));
    assert(v =~= seq![("Credits"@, true)] + credits(p));
    assert forall|i: int| 0 <= i < parts@.len() implies r@[i + 1].text@ == trimmed(
        #[trigger] parts@[i]@,
    ) by {
        assert(p[i] == parts@[i]@);
        assert(v[i + 1].0 == r@[i + 1].text@);
        assert(credits(p)[i].0 == trimmed(p[i]));
    }
}

proof fn lemma_no_blank_is_left_out(parts: Seq<Seq<char>>)
    requires
        forall|i: int| 0 <= i < parts.len() ==> trimmed(#[trigger] parts[i]).len() > 0,
    ensures
        credits(parts).len() == parts.len(),
        forall|i: int|
            0 <= i < parts.len() ==> (#[trigger] credits(parts)[i]).0 == trimmed(parts[i]),
    decreases parts.len(),
{
    if parts.len() > 0 {
        let rest = parts.drop_last();
        assert forall|i: int| 0 <= i < rest.len() implies trimmed(#[trigger] rest[i]).len() > 0 by {
            assert(rest[i] == parts[i]);
        }
        lemma_no_blank_is_left_out(rest);
        assert(trimmed(parts[parts.len() - 1]).len() > 0);
        assert forall|i: int| 0 <= i < parts.len() implies (#[trigger] credits(parts)[i]).0
            == trimmed(parts[i]) by {
            if i < rest.len() {
                assert(credits(rest)[i].0 == trimmed(rest[i]));
            }
        }
    }
}

/// What became a favourite, or is none any more, is told by its title.
pub proof fn law_a_favorite_is_told(title: &str, added: String, removed: String)
    requires
        call_ensures(added_to_favorites, (title,), added),
        call_ensures(removed_from_favorites, (title,), removed),
    ensures
        added@ == title@ + " added to favorites"@,
        removed@ == title@ + " removed from favorites"@,
{
}

} // verus!

//! What holds of the texts and lists of the pages, and of what is shown of the track that plays.

use vstd::prelude::*;
use crate::connect_laws::{current_at, none_plays};
use crate::filtered_list::{FilteredListState, PlaylistList, RowState};
use crate::grid_page::{is_found, lower_case, normalized, occurs, passes, GridPage, Named};
use crate::html::{
    breaks_line, divides, entities_decoded, is_word_char, non_empty, sanitize_html, scanned,
    strip_tags, tag_name,
    where_any,
};
use crate::models::{PlaylistSimple, Status, Track};
use crate::now_playing::{
    can_render_cover, can_render_header_cover, create_now_playing_state, gauge_text, get_status,
    info_lines, played_ms, NowPlayingState,
};
use crate::now_playing_center::{
    build_now_playing, needs_artwork, playback_state, NowPlaying, NowPlayingCenter, PlaybackState,
};
use crate::sequences::{
    first_match, lemma_first_match, lemma_first_match_is_first, lemma_match_exists, lemma_no_match,
};
use crate::text::{
    ascii_lower, equal_ignoring_case, is_white_space, text_at, text_view, trim_text, trimmed, views,
};
use crate::text_laws::{
    all_digits, lemma_decimal, lemma_end_trimmed, lemma_start_trimmed, value_of,
};
use crate::tracklist::{playing, PlayingEntity, QueueItem, Tracklist, TracklistType};
use crate::web::{
    action_message, added_message, content_url, has_track_id, index_if_playlist, is_farthest, is_in_place,
    is_owned, law_a_move_is_found_again, moved_index, moved_order, mseconds_to_mm_ss,
    now_playing_context, owned_playlists, play_favorite_track, playlist_content, playlist_url,
    put_before, reorder_plan, FavoritePlan, MovedIndexOutput, NowPlayingContext, PlaylistAction,
    PlaylistContent, ReorderPlan,
};

verus! {

/// A text has no angle brackets.
pub open spec fn has_no_brackets(s: Seq<char>) -> bool {
    forall|i: int| 0 <= i < s.len() ==> #[trigger] s[i] != '<' && s[i] != '>'
}

proof fn lemma_scan_text(before: Seq<char>, b: Seq<char>)
    requires
        !scanned(before).inside,
        has_no_brackets(b),
    ensures
        scanned(before + b).data == scanned(before).data + b,
        !scanned(before + b).inside,
    decreases b.len(),
{
    if b.len() == 0 {
        assert(before + b =~= before);
        assert(scanned(before).data + b =~= scanned(before).data);
    } else {
        let front = b.drop_last();
        assert(has_no_brackets(front));
        lemma_scan_text(before, front);
        let all = before + b;
        assert(all.drop_last() =~= before + front);
        assert(all.last() == b[b.len() - 1]);
        assert(scanned(all).data =~= scanned(before).data + b);
    }
}

proof fn lemma_scan_tag(before: Seq<char>, tag: Seq<char>)
    requires
        has_no_brackets(tag),
    ensures
        scanned(before + seq!['<'] + tag).data == scanned(before).data,
        scanned(before + seq!['<'] + tag).tag == tag,
        scanned(before + seq!['<'] + tag).inside,
    decreases tag.len(),
{
    let all = before + seq!['<'] + tag;
    if tag.len() == 0 {
        assert(all.drop_last() =~= before);
        assert(all.last() == '<');
        assert(scanned(all).tag =~= tag);
    } else {
        let front = tag.drop_last();
        assert(has_no_brackets(front));
        lemma_scan_tag(before, front);
        assert(all.drop_last() =~= before + seq!['<'] + front);
        assert(all.last() == tag[tag.len() - 1]);
        assert(scanned(all).tag =~= tag);
    }
}

proof fn lemma_scan_around(a: Seq<char>, tag: Seq<char>, b: Seq<char>)
    requires
        has_no_brackets(a),
        has_no_brackets(tag),
        has_no_brackets(b),
    ensures
        ({
            let all = a + seq!['<'] + tag + seq!['>'] + b;
            &&& !breaks_line(tag) ==> scanned(all).data == a + b
            &&& breaks_line(tag) && !(a.len() >= 2 && a.last() == '\n' && a[a.len() - 2] == '\n')
                ==> scanned(all).data == a + seq!['\n'] + b
        }),
{
    let none = Seq::<char>::empty();
    lemma_scan_text(none, a);
    assert(none + a =~= a);
    assert(scanned(none).data + a =~= a);
    lemma_scan_tag(a, tag);
    let open = a + seq!['<'] + tag;
    let closed = open + seq!['>'];
    assert(closed.drop_last() =~= open);
    assert(closed.last() == '>');
    lemma_scan_text(closed, b);
    if breaks_line(tag) && !(a.len() >= 2 && a.last() == '\n' && a[a.len() - 2] == '\n') {
        assert(scanned(closed).data =~= a + seq!['\n']);
    }
}

/// A text without tags is only trimmed.
pub proof fn law_plain_text_is_only_trimmed(text: &str, r: String, trimmed_text: String)
    requires
        call_ensures(strip_tags, (text,), r),
        call_ensures(trim_text, (text,), trimmed_text),
        has_no_brackets(text@),
    ensures
        r@ == trimmed_text@,
{
    let none = Seq::<char>::empty();
    lemma_scan_text(none, text@);
    assert(none + text@ =~= text@);
    assert(scanned(none).data + text@ =~= text@);
}

/// A tag is left out, and what stands around it is kept: the tag of no break, which has a name that
/// starts with neither of the letters of a break, leaves nothing.
pub proof fn law_a_tag_leaves_nothing(
    text: &str,
    a: Seq<char>,
    tag: Seq<char>,
    b: Seq<char>,
    around: &str,
    r: String,
    kept: String,
)
    requires
        call_ensures(strip_tags, (text,), r),
        text@ == a + seq!['<'] + tag + seq!['>'] + b,
        has_no_brackets(a),
        has_no_brackets(tag),
        has_no_brackets(b),
        tag.len() > 0,
        !is_white_space(tag[0]),
        tag[0] != '/' && tag[0] != 'b' && tag[0] != 'B' && tag[0] != 'p' && tag[0] != 'P',
        around@ == a + b,
        call_ensures(trim_text, (around,), kept),
    ensures
        r@ == kept@,
{
    lemma_scan_around(a, tag, b);
    lemma_first_match(tag, is_word_char(), 0);
    let name = tag_name(tag);
    let tail = tag.skip(0);
    assert(tail =~= tag);
    lemma_first_match_is_first(tail, divides());
    if let Some(n) = first_match(tail, divides()) {
        if n == 0 {
            assert(divides()(tail[0]));
        }
    }
    assert(name.len() > 0 && name[0] == tag[0]);
    assert(!breaks_line(tag)) by {
        if equal_ignoring_case(name, seq!['b', 'r']) {
            assert(ascii_lower(name[0]) == ascii_lower(seq!['b', 'r'][0]));
        }
        if equal_ignoring_case(name, seq!['p']) {
            assert(ascii_lower(name[0]) == ascii_lower(seq!['p'][0]));
        }
    }
}

/// A tag that breaks the line, in upper or lower case, leaves a line break between what stands
/// around it, unless an empty line stands there already.
pub proof fn law_a_break_leaves_a_line_break(
    text: &str,
    a: Seq<char>,
    tag: Seq<char>,
    b: Seq<char>,
    around: &str,
    r: String,
    kept: String,
)
    requires
        call_ensures(strip_tags, (text,), r),
        text@ == a + seq!['<'] + tag + seq!['>'] + b,
        has_no_brackets(a),
        has_no_brackets(b),
        tag == seq!['b', 'r'] || tag == seq!['B', 'R'] || tag == seq!['b', 'r', '/'] || tag
            == seq!['p'] || tag == seq!['P'] || tag == seq!['/', 'p'],
        !is_white_space('b') && !is_white_space('B') && !is_white_space('r') && !is_white_space('R')
            && !is_white_space('p') && !is_white_space('P'),
        !(a.len() >= 2 && a.last() == '\n' && a[a.len() - 2] == '\n'),
        around@ == a + seq!['\n'] + b,
        call_ensures(trim_text, (around,), kept),
    ensures
        r@ == kept@,
{
    assert(has_no_brackets(tag));
    lemma_scan_around(a, tag, b);
    let start = if tag[0] == '/' {
        1int
    } else {
        0
    };
    lemma_first_match(tag, is_word_char(), start);
    let tail = tag.skip(start);
    let n = if tag == seq!['b', 'r', '/'] {
        2int
    } else {
        tail.len() as int
    };
    if n < tail.len() {
        lemma_first_match(tail, divides(), n);
    } else {
        lemma_no_match(tail, divides());
    }
    let name = tag_name(tag);
    assert(name =~= tail.take(n));
    if tag.contains('p') || tag.contains('P') {
        assert(ascii_lower('P') == ascii_lower('p'));
    }
    if name.len() == 1 {
        assert(name[0] == tail[0]);
        assert(tail[0] == 'p' || tail[0] == 'P');
        assert(equal_ignoring_case(name, seq!['p']));
    } else {
        assert(name[0] == tag[0] && name[1] == tag[1]);
        assert(ascii_lower('B') == ascii_lower('b') && ascii_lower('R') == ascii_lower('r'));
        assert(equal_ignoring_case(name, seq!['b', 'r']));
    }
    assert(breaks_line(tag));
}

/// No angle bracket is left in a text, and no white space at its ends.
pub proof fn law_a_stripped_text_is_clean(text: &str, r: String)
    requires
        call_ensures(strip_tags, (text,), r),
    ensures
        has_no_brackets(r@),
        r@.len() > 0 ==> !is_white_space(r@[0]) && !is_white_space(r@.last()),
{
    let data = scanned(text@).data;
    crate::html::law_no_tag_is_left(text@);
    let t = crate::text::start_trimmed(data);
    lemma_start_trimmed(data);
    lemma_end_trimmed(t);
    assert forall|i: int| 0 <= i < r@.len() implies #[trigger] r@[i] != '<' && r@[i] != '>' by {
        assert(r@[i] == data[data.len() - t.len() + i]);
    }
    if r@.len() > 0 {
        assert(r@[0] == t[0]);
    }
}

/// A description without character references is what is left of it without its tags, and none
/// where nothing is left.
pub proof fn law_a_description_is_its_stripped_text(
    source: Option<String>,
    text: &str,
    stripped: String,
    r: Option<String>,
)
    requires
        call_ensures(sanitize_html, (source,), r),
        call_ensures(strip_tags, (text,), stripped),
        source matches Some(given) ==> given@ == text@ && !given@.contains('&'),
    ensures
        source is None ==> r is None,
        source is Some && stripped@.len() > 0 && (exists|i: int|
            0 <= i < text@.len() && !is_white_space(#[trigger] text@[i])) ==> (r matches Some(
            shown,
        ) && shown@ == stripped@),
        source is Some && stripped@.len() == 0 ==> r is None,
        source is Some && (forall|i: int| 0 <= i < text@.len() ==> is_white_space(
            #[trigger] text@[i],
        )) ==> r is None,
{
    if source is Some {
        let s = text@;
        let t = crate::text::start_trimmed(s);
        lemma_start_trimmed(s);
        lemma_end_trimmed(t);
        if exists|i: int| 0 <= i < s.len() && !is_white_space(#[trigger] s[i]) {
            let i = choose|i: int| 0 <= i < s.len() && !is_white_space(#[trigger] s[i]);
            let lead = s.take(s.len() - t.len());
            if i < lead.len() {
                assert(is_white_space(lead[i]));
            }
            let e = crate::text::end_trimmed(t);
            if e.len() == 0 {
                assert(is_white_space(t.skip(0)[i - lead.len()]));
            }
        }
        if forall|i: int| 0 <= i < s.len() ==> is_white_space(#[trigger] s[i]) {
            if t.len() > 0 {
                assert(t[0] == s[s.len() - t.len()]);
            }
            assert(t.len() == 0);
        }
    }
}

/// A text is kept where it is not empty.
pub proof fn law_an_empty_text_is_none(text: String, r: Option<String>)
    requires
        call_ensures(non_empty, (text,), r),
    ensures
        text@.len() > 0 ==> (r matches Some(kept) && kept@ == text@),
        text@.len() == 0 ==> r is None,
{
}

/// A track that was moved within a playlist is found again: putting it before the place that is
/// told gives the order that was asked for.
pub proof fn law_the_moved_track_is_found(
    perm: &[usize],
    n: int,
    from: int,
    to: int,
    r: Option<MovedIndexOutput>,
)
    requires
        call_ensures(moved_index, (perm,), r),
        0 <= from < n <= usize::MAX,
        0 <= to < n,
        perm@ == moved_order(n, from, to),
    ensures
        from == to ==> r is None,
        from != to ==> (r matches Some(output) && put_before(
            n,
            output.moved_index as int,
            output.insert_before as int,
        ) == perm@),
{
    if from == to {
        if r is Some {
            let p = choose|p: int| #[trigger] is_farthest(perm@, p);
            assert(perm@[p] == p);
        }
    } else {
        assert(perm@.len() == n);
        assert(perm@[to] == from);
        if let Some(output) = r {
            let p = choose|p: int| #[trigger]
                is_farthest(perm@, p) && output.moved_index == perm@[p] && output.insert_before
                    == if p + 1 < perm@.len() {
                    perm@[p + 1] as int
                } else {
                    perm@.len() as int
                };
            assert(perm@.len() == n);
            assert(is_farthest(moved_order(n, from, to), p));
            law_a_move_is_found_again(n, from, to, p);
            assert(put_before(n, output.moved_index as int, output.insert_before as int) == perm@);
        }
        if r is None {
            assert(is_in_place(perm@));
            assert(perm@[to] == to);
        }
    }
}

/// An order that moves nothing asks nothing, and one that moves a track of the playlist moves that
/// one, before the place that is found.
pub proof fn law_a_new_order_moves_its_track(
    tracks: &Vec<Track>,
    new_order: &[usize],
    n: int,
    from: int,
    to: int,
    r: ReorderPlan,
)
    requires
        call_ensures(reorder_plan, (tracks, new_order), r),
        0 <= from < n <= usize::MAX,
        0 <= to < n,
        n == tracks@.len(),
        new_order@ == moved_order(n, from, to),
        forall|i: int| 0 <= i < n ==> (#[trigger] tracks@[i]).playlist_track_id is Some,
    ensures
        from == to ==> r == ReorderPlan::Nothing,
        from != to ==> (r matches ReorderPlan::Move { insert_before, playlist_track_id } && exists|
            k: int,
        |
            0 <= k < n && (#[trigger] tracks@[k]).playlist_track_id == Some(playlist_track_id)
                && put_before(n, k, insert_before as int) == new_order@),
{
    let perm = new_order@;
    if from != to {
        assert(perm[to] == from);
        let p = choose|p: int| #[trigger]
            is_farthest(perm, p) && r == (if perm[p] < tracks@.len()
                && tracks@[perm[p] as int].playlist_track_id is Some {
                ReorderPlan::Move {
                    insert_before: if p + 1 < perm.len() {
                        perm[p + 1]
                    } else {
                        perm.len() as usize
                    },
                    playlist_track_id: tracks@[perm[p] as int].playlist_track_id->0,
                }
            } else {
                ReorderPlan::Failed
            });
        law_a_move_is_found_again(n, from, to, p);
        assert(perm[p] < n);
        assert(tracks@[perm[p] as int].playlist_track_id is Some);
    }
}

/// The place in a playlist is shown where that playlist plays.
pub proof fn law_a_place_is_shown_in_its_playlist(
    entity: Option<&PlayingEntity>,
    playlist_id: u32,
    r: Option<usize>,
)
    requires
        call_ensures(index_if_playlist, (entity, playlist_id), r),
    ensures
        r matches Some(index) ==> (entity matches Some(e) && (*e matches PlayingEntity::Playlist(
            list,
        ) && list.playlist_id == playlist_id && list.index == index)),
        entity matches Some(e) ==> (*e matches PlayingEntity::Playlist(list) ==> (list.playlist_id
            == playlist_id ==> r == Some(list.index))),
{
}

/// A time is shown as minutes and seconds, two digits or more for the minutes and two for the
/// seconds, which stay below sixty.
pub proof fn law_a_time_is_shown_in_minutes(ms: u128, r: String)
    requires
        call_ensures(mseconds_to_mm_ss, (ms,), r),
    ensures
        r@.len() >= 5,
        r@[r@.len() - 3] == ':',
        ({
            let minutes = r@.take(r@.len() - 3);
            let seconds = r@.skip(r@.len() - 2);
            &&& all_digits(minutes)
            &&& all_digits(seconds)
            &&& 0 <= value_of(seconds) < 60
            &&& value_of(minutes) * 60 + value_of(seconds) == ms as int / 1000
        }),
{
    reveal_strlit(":");
    let m = ms as nat / 1000 / 60;
    let s = ms as nat / 1000 % 60;
    lemma_two_digits(m);
    lemma_two_digits(s);
    let mm = crate::text::two_digits(m);
    let ss = crate::text::two_digits(s);
    assert(r@ =~= mm + ":"@ + ss);
    assert(r@.take(r@.len() - 3) =~= mm);
    assert(r@.skip(r@.len() - 2) =~= ss);
}

proof fn lemma_two_digits(n: nat)
    ensures
        value_of(crate::text::two_digits(n)) == n,
        all_digits(crate::text::two_digits(n)),
        crate::text::two_digits(n).len() >= 2,
        n < 100 ==> crate::text::two_digits(n).len() == 2,
{
    lemma_decimal(n);
    if n < 10 {
        let d = crate::text::decimal(n);
        let t = crate::text::two_digits(n);
        reveal_with_fuel(value_of, 3);
        assert(t.drop_last() =~= seq!['0']);
        assert(t.drop_last().drop_last() =~= Seq::<char>::empty());
        assert(d.drop_last() =~= Seq::<char>::empty());
        assert(t.last() == d.last());
    }
}

/// The page of the track that plays shows its position and its length as times.
pub proof fn law_the_page_shows_position_and_length(
    tracklist: &Tracklist,
    position: u128,
    r: NowPlayingContext,
    at: int,
    shown_position: String,
    length_ms: u128,
    shown_length: String,
)
    requires
        call_ensures(now_playing_context, (tracklist, position), r),
        current_at(tracklist.items(), at),
        call_ensures(mseconds_to_mm_ss, ((position / 1_000_000) as u128,), shown_position),
        length_ms == tracklist.items()[at].track.duration_seconds * 1000,
        length_ms <= u32::MAX,
        call_ensures(mseconds_to_mm_ss, (length_ms,), shown_length),
    ensures
        r.position_string@ == shown_position@,
        r.duration_string@ == shown_length@,
{
    lemma_first_match(tracklist.items(), playing(), at);
}

/// A track can be added to the playlists of the user, and to no other.
pub proof fn law_tracks_go_to_own_playlists(
    playlists: &[PlaylistSimple],
    r: Vec<PlaylistSimple>,
    playlist: PlaylistSimple,
)
    requires
        call_ensures(owned_playlists, (playlists,), r),
    ensures
        r@.contains(playlist) <==> playlists@.contains(playlist) && playlist.is_owned,
        r@.len() <= playlists@.len(),
        (forall|i: int| 0 <= i < playlists@.len() ==> (#[trigger] playlists@[i]).is_owned) ==> r@
            == playlists@,
{
    let p = is_owned();
    playlists@.lemma_filter_len(p);
    if r@.contains(playlist) {
        playlists@.lemma_filter_contains_rev(p, playlist);
        let k = choose|k: int| 0 <= k < r@.len() && r@[k] == playlist;
        playlists@.lemma_filter_pred(p, k);
    }
    if playlists@.contains(playlist) && playlist.is_owned {
        let k = choose|k: int| 0 <= k < playlists@.len() && playlists@[k] == playlist;
        playlists@.lemma_filter_contains(p, k);
    }
    if forall|i: int| 0 <= i < playlists@.len() ==> (#[trigger] playlists@[i]).is_owned {
        lemma_all_pass(playlists@, p);
    }
}

proof fn lemma_all_pass<T>(s: Seq<T>, p: spec_fn(T) -> bool)
    requires
        forall|k: int| 0 <= k < s.len() ==> p(#[trigger] s[k]),
    ensures
        s.filter(p) == s,
    decreases s.len(),
{
    reveal(Seq::filter);
    if s.len() > 0 {
        let rest = s.drop_last();
        assert forall|k: int| 0 <= k < rest.len() implies p(#[trigger] rest[k]) by {
            assert(rest[k] == s[k]);
        }
        lemma_all_pass(rest, p);
        assert(p(s[s.len() - 1]));
    }
    assert(s.filter(p) =~= s);
}

/// The page of a playlist shows its length in whole minutes, whether it is a favourite, where it is
/// played from, and the place of the track that plays.
pub proof fn law_a_playlist_page_shows_its_playlist(
    playlist_id: u32,
    seconds: u32,
    favorites: &Vec<PlaylistSimple>,
    entity: Option<&PlayingEntity>,
    r: PlaylistContent,
    place: Option<usize>,
    content: String,
    page: String,
)
    requires
        call_ensures(playlist_content, (playlist_id, seconds, favorites, entity), r),
        call_ensures(index_if_playlist, (entity, playlist_id), place),
        call_ensures(content_url, (playlist_id,), content),
        call_ensures(playlist_url, (playlist_id,), page),
    ensures
        r.duration_minutes * 60 <= seconds < (r.duration_minutes + 1) * 60,
        r.is_favorite <==> exists|i: int|
            0 <= i < favorites@.len() && (#[trigger] favorites@[i]).id == playlist_id,
        r.playing_index == place,
        r.click@ == page@ + "/play/"@,
        content@ == page@ + "/content"@,
        page@.take(10) == "/playlist/"@,
        value_of(page@.skip(10)) == playlist_id,
{
    reveal_strlit("/playlist/");
    lemma_decimal(playlist_id as nat);
    let d = crate::text::decimal(playlist_id as nat);
    assert(page@.take(10) =~= "/playlist/"@);
    assert(page@.skip(10) =~= d);
}

/// What was done is told with its title.
pub proof fn law_what_was_done_is_told(
    title: &str,
    queued: String,
    next: String,
    added: String,
)
    requires
        call_ensures(action_message, (PlaylistAction::AddToQueue, title), queued),
        call_ensures(action_message, (PlaylistAction::PlayNext, title), next),
        call_ensures(added_message, (title,), added),
    ensures
        queued@ == title@ + " added to queue"@,
        next@ == "Playing "@ + title@ + " next"@,
        added@ == "Added to "@ + title@,
{
}

/// A favourite track plays, with up to three favourites queued before it and all behind it; another
/// track plays alone.
pub proof fn law_a_favorite_plays_among_favorites(
    tracks: &Vec<Track>,
    track_id: u32,
    at: int,
    r: FavoritePlan,
)
    requires
        call_ensures(play_favorite_track, (tracks, track_id), r),
    ensures
        0 <= at < tracks@.len() && tracks@[at].id == track_id && (forall|k: int|
            0 <= k < at ==> (#[trigger] tracks@[k]).id != track_id) ==> (
        r matches FavoritePlan::PlayTracks { track_ids, start_index } && {
            &&& start_index == if at < 3 {
                at
            } else {
                3
            }
            &&& track_ids@.len() == tracks@.len() - (at - start_index)
            &&& forall|i: int|
                0 <= i < track_ids@.len() ==> #[trigger] track_ids@[i] == tracks@[at - start_index
                    + i].id
            &&& track_ids@[start_index as int] == track_id
        }),
        (forall|k: int| 0 <= k < tracks@.len() ==> (#[trigger] tracks@[k]).id != track_id) ==> r
            == FavoritePlan::PlayTrack(track_id),
{
    let p = has_track_id(track_id);
    if 0 <= at < tracks@.len() && tracks@[at].id == track_id && (forall|k: int|
        0 <= k < at ==> (#[trigger] tracks@[k]).id != track_id) {
        lemma_first_match(tracks@, p, at);
    }
    if forall|k: int| 0 <= k < tracks@.len() ==> (#[trigger] tracks@[k]).id != track_id {
        lemma_no_match(tracks@, p);
    }
}

/// Going to the next row goes one down and to the previous one up, as far as there are rows to count;
/// from no row the next is the first. Without a row, drawing starts at the top.
pub proof fn law_rows_are_gone_through(
    down: &mut RowState,
    up: &mut RowState,
    chosen: &mut RowState,
    row: Option<usize>,
)
    requires
        call_ensures(RowState::select_next, (down,), ()),
        call_ensures(RowState::select_previous, (up,), ()),
        call_ensures(RowState::select, (chosen, row), ()),
    ensures
        old(down).selected is None ==> final(down).selected == Some(0usize),
        old(down).selected matches Some(i) ==> (i < usize::MAX ==> (
        final(down).selected matches Some(j) && j == i + 1)),
        final(down).offset == old(down).offset,
        old(up).selected matches Some(i) ==> (i > 0 ==> (final(up).selected matches Some(j) && j == i
            - 1)),
        old(up).selected == Some(0usize) ==> final(up).selected == Some(0usize),
        final(up).offset == old(up).offset,
        final(chosen).selected == row,
        row is None ==> final(chosen).offset == 0,
        row is Some ==> final(chosen).offset == old(chosen).offset,
{
}

/// An item that is moved stands at its new place, and all others keep their order; the chosen row
/// stays.
pub proof fn law_a_moved_item_stands_at_its_place<T: Clone>(
    list: &mut FilteredListState<T>,
    index: usize,
    new_index: usize,
)
    requires
        call_ensures(FilteredListState::<T>::move_index_to_new_index, (list, index, new_index), ()),
    ensures
        index < old(list).items().len() && new_index < old(list).items().len() ==> {
            &&& final(list).items().len() == old(list).items().len()
            &&& final(list).items()[new_index as int] == old(list).items()[index as int]
            &&& final(list).items().remove(new_index as int) == old(list).items().remove(
                index as int,
            )
        },
        index >= old(list).items().len() || new_index >= old(list).items().len() ==> final(list).items() == old(list).items() && final(list).shown() == old(list).shown(),
        final(list).row() == old(list).row(),
{
    if index < old(list).items().len() && new_index < old(list).items().len() {
        assert(final(list).items().remove(new_index as int) =~= old(list).items().remove(
            index as int,
        ));
    }
}

/// An item that is removed is gone, and all others stay in their order.
pub proof fn law_a_removed_item_is_gone<T: Clone>(list: &mut FilteredListState<T>, index: usize, i: int)
    requires
        call_ensures(FilteredListState::<T>::remove_at_index, (list, index), ()),
        0 <= i < old(list).items().len(),
    ensures
        index < old(list).items().len() ==> final(list).items().len() == old(list).items().len() - 1,
        index < old(list).items().len() && i < index ==> final(list).items()[i]
            == old(list).items()[i],
        index < old(list).items().len() && i > index ==> final(list).items()[i - 1]
            == old(list).items()[i],
        index >= old(list).items().len() ==> final(list).items() == old(list).items(),
        final(list).row() == old(list).row(),
{
}

/// A filter changes what is shown, not what is there; new items are all shown.
pub proof fn law_a_filter_changes_what_is_shown<T: Clone>(
    list: &mut FilteredListState<T>,
    part: Vec<T>,
    other: &mut FilteredListState<T>,
    all: Vec<T>,
    fresh: FilteredListState<T>,
)
    requires
        call_ensures(FilteredListState::<T>::set_filter, (list, part), ()),
        call_ensures(FilteredListState::<T>::set_all_items, (other, all), ()),
        call_ensures(FilteredListState::<T>::new, (all,), fresh),
    ensures
        final(list).shown() == part@,
        final(list).items() == old(list).items(),
        final(list).row() == old(list).row(),
        final(other).shown() == all@,
        final(other).items().len() == all@.len(),
        final(other).row() == old(other).row(),
        fresh.items() == all@,
        fresh.shown().len() == all@.len(),
        fresh.row().selected is None,
{
}

/// Of the playlists that are offered the first is chosen, and each is to be had at its place.
pub proof fn law_the_first_playlist_is_chosen(
    playlists: Vec<PlaylistSimple>,
    r: PlaylistList,
    row: Option<usize>,
    index: usize,
    got: Option<&PlaylistSimple>,
)
    requires
        call_ensures(PlaylistList::new, (playlists,), r),
        call_ensures(PlaylistList::selected, (&r,), row),
        call_ensures(PlaylistList::get, (&r, index), got),
    ensures
        playlists@.len() > 0 ==> row == Some(0usize),
        playlists@.len() == 0 ==> row is None,
        index < playlists@.len() ==> (got matches Some(playlist) && *playlist
            == playlists@[index as int]),
        index >= playlists@.len() ==> got is None,
{
}

/// A text occurs in another where its characters stand there one behind the other.
pub proof fn law_a_text_occurs_where_its_characters_stand(pattern: &str, s: &str, r: bool)
    requires
        call_ensures(occurs, (pattern, s), r),
    ensures
        r <==> exists|at: int|
            0 <= at && at + pattern@.len() <= s@.len() && #[trigger] s@.subrange(
                at,
                at + pattern@.len(),
            ) == pattern@,
{
    if r {
        let at = choose|at: int| 0 <= at <= s@.len() && #[trigger] text_at(s@, at, pattern@);
        assert(s@.subrange(at, at + pattern@.len()) == pattern@);
    }
    if exists|at: int|
        0 <= at && at + pattern@.len() <= s@.len() && #[trigger] s@.subrange(
            at,
            at + pattern@.len(),
        ) == pattern@ {
        let at = choose|at: int|
            0 <= at && at + pattern@.len() <= s@.len() && #[trigger] s@.subrange(
                at,
                at + pattern@.len(),
            ) == pattern@;
        assert(text_at(s@, at, pattern@));
    }
}

/// A name is found by a query that occurs in it, and by an empty one.
pub proof fn law_a_name_is_found_by_what_occurs_in_it(
    name: &str,
    query: &str,
    r: bool,
    part: bool,
)
    requires
        call_ensures(is_found, (name, query), r),
        call_ensures(occurs, (query, name), part),
    ensures
        query@.len() == 0 ==> r,
        query@.len() > 0 ==> r == part,
{
}

/// A page shows the items whose names are found by its query, whatever the case and the white space
/// at its ends, and each is opened by its tile.
pub proof fn law_a_page_shows_what_its_query_finds<T: Named>(
    page: &mut GridPage<T>,
    query: &str,
    after: &GridPage<T>,
    r: Vec<&T>,
    item: T,
    lower_name: &str,
    lower_query: &str,
    finds: bool,
    position: u32,
    opened: Option<&T>,
)
    requires
        call_ensures(GridPage::<T>::filter, (page, query), ()),
        *after == *final(page),
        call_ensures(GridPage::<T>::visible, (after,), r),
        lower_name@ == lower_case(item.spec_name()),
        lower_query@ == normalized(trimmed(query@)),
        call_ensures(is_found, (lower_name, lower_query), finds),
        call_ensures(GridPage::<T>::activated, (after, position), opened),
    ensures
        (exists|k: int| 0 <= k < r@.len() && *(#[trigger] r@[k]) == item) <==> old(page).all().contains(item) && finds,
        position < r@.len() ==> (opened matches Some(tile) && *tile == *r@[position as int]),
        position >= r@.len() ==> opened is None,
{
    let p = passes::<T>(after.wanted());
    let all = after.all();
    let shown = all.filter(p);
    assert(r@.len() == shown.len());
    assert forall|k: int| 0 <= k < r@.len() implies *(#[trigger] r@[k]) == shown[k] by {}
    assert(p(item) <==> finds);
    if exists|k: int| 0 <= k < r@.len() && *(#[trigger] r@[k]) == item {
        let k = choose|k: int| 0 <= k < r@.len() && *(#[trigger] r@[k]) == item;
        all.lemma_filter_pred(p, k);
        assert(shown.contains(item));
        all.lemma_filter_contains_rev(p, item);
    }
    if all.contains(item) && finds {
        let k = choose|k: int| 0 <= k < all.len() && all[k] == item;
        all.lemma_filter_contains(p, k);
        let j = choose|j: int| 0 <= j < shown.len() && shown[j] == item;
        assert(*r@[j] == item);
    }
}

/// A page without a query shows all of its items, in their order.
pub proof fn law_a_page_without_query_shows_all<T: Named>(
    page: &mut GridPage<T>,
    items: Vec<T>,
    after: &GridPage<T>,
    r: Vec<&T>,
    cleared: &mut GridPage<T>,
)
    requires
        call_ensures(GridPage::<T>::load, (page, items), ()),
        *after == *final(page),
        call_ensures(GridPage::<T>::visible, (after,), r),
        call_ensures(GridPage::<T>::clear, (cleared,), ()),
        lower_case(Seq::<char>::empty()) == Seq::<char>::empty(),
    ensures
        r@.len() == items@.len(),
        forall|i: int| 0 <= i < items@.len() ==> *(#[trigger] r@[i]) == items@[i],
        final(cleared).all().len() == 0,
{
    let p = passes::<T>(after.wanted());
    assert(after.wanted() =~= Seq::<char>::empty());
    lemma_start_trimmed(after.wanted());
    lemma_end_trimmed(crate::text::start_trimmed(after.wanted()));
    assert(trimmed(after.wanted()) =~= Seq::<char>::empty());
    lemma_all_pass(items@, p);
}

/// What is shown of the track that plays: it and its place, and how many there are.
pub proof fn law_the_playing_track_is_shown(
    tracklist: &Tracklist,
    status: Status,
    r: NowPlayingState,
    at: int,
)
    requires
        call_ensures(create_now_playing_state, (tracklist, status), r),
        current_at(tracklist.items(), at),
    ensures
        r.playing_track == Some(tracklist.items()[at].track),
        r.tracklist_position == at,
        r.tracklist_length == tracklist.items().len(),
        r.status == status,
        r.duration_ms == 0,
        tracklist.source() matches TracklistType::Album(list) ==> r.entity_title == Some(list.title),
        tracklist.source() matches TracklistType::Playlist(list) ==> r.entity_title == Some(
            list.title,
        ),
        tracklist.source() matches TracklistType::TopTracks(list) ==> r.entity_title == Some(
            list.artist_name,
        ),
        tracklist.source() == TracklistType::Tracks ==> r.entity_title
            == tracklist.items()[at].track.album_title,
{
    lemma_first_match(tracklist.items(), playing(), at);
}

/// A status is shown by its name.
pub proof fn law_a_status_is_shown(
    playing_text: &'static str,
    paused_text: &'static str,
    buffering_text: &'static str,
)
    requires
        call_ensures(get_status, (Status::Playing,), playing_text),
        call_ensures(get_status, (Status::Paused,), paused_text),
        call_ensures(get_status, (Status::Buffering,), buffering_text),
    ensures
        playing_text@ == "Playing ⏵"@,
        paused_text@ == "Paused ⏸"@,
        buffering_text@ == "Buffering"@,
{
}

/// A cover is drawn where it is wanted, there is one, and there is room for it: with a column beside
/// it in the bar of the player, and with the gap beside a list of tracks.
pub proof fn law_a_cover_needs_its_room(
    disabled: bool,
    has_image: bool,
    width: u16,
    height: u16,
    cover_width: u16,
    cover_height: u16,
    gap: u16,
    bar: bool,
    header: bool,
)
    requires
        call_ensures(
            can_render_cover,
            (disabled, has_image, width, height, cover_width, cover_height, gap),
            bar,
        ),
        call_ensures(
            can_render_header_cover,
            (has_image, width, height, cover_width, cover_height, gap),
            header,
        ),
        cover_width + gap < u16::MAX,
    ensures
        bar <==> !disabled && has_image && height >= cover_height && width > cover_width + gap,
        header <==> has_image && height >= cover_height && width >= cover_width + gap,
{
}

/// The lines about a track start with its title and end with its place in the queue, counted from
/// one; between them stand its artist and what it belongs to, as far as they are known.
pub proof fn law_a_track_is_told_in_lines(
    state: &NowPlayingState,
    track: &Track,
    r: Vec<String>,
    place: Seq<char>,
    total: Seq<char>,
)
    requires
        call_ensures(info_lines, (state, track), r),
        state.tracklist_position < usize::MAX,
    ensures
        ({
            let named = if track.artist_name is Some {
                1int
            } else {
                0
            };
            let belongs = if state.entity_title is Some {
                1int
            } else {
                0
            };
            &&& r@.len() == 2 + named + belongs
            &&& r@[0]@ == track.title@
            &&& track.artist_name matches Some(artist) ==> r@[1]@ == artist@
            &&& state.entity_title matches Some(title) ==> r@[1 + named]@ == title@
            &&& r@.last()@ == crate::text::decimal((state.tracklist_position + 1) as nat)
                + " of "@ + crate::text::decimal(state.tracklist_length as nat)
        }),
{
    let a = Some(track.title@);
    let b = text_view(track.artist_name);
    let c = text_view(state.entity_title);
    let d = Some(
        crate::text::decimal((state.tracklist_position + 1) as nat) + " of "@
            + crate::text::decimal(state.tracklist_length as nat),
    );
    assert(seq![a, b, c, d].drop_last() =~= seq![a, b, c]);
    assert(seq![a, b, c].drop_last() =~= seq![a, b]);
    assert(seq![a, b].drop_last() =~= seq![a]);
    assert(seq![a].drop_last() =~= Seq::empty());
    reveal_with_fuel(crate::now_playing::lines_of, 5);
    let v = views(r@);
    assert(v.len() == r@.len());
    assert forall|i: int| 0 <= i < r@.len() implies (#[trigger] r@[i])@ == v[i] by {}
}

/// A track is not shown as played beyond its length.
pub proof fn law_a_track_is_played_up_to_its_length(duration_ms: u32, track: &Track, r: u32)
    requires
        call_ensures(played_ms, (duration_ms, track), r),
        track.duration_seconds * 1000 <= u32::MAX,
    ensures
        duration_ms <= track.duration_seconds * 1000 ==> r == duration_ms,
        duration_ms > track.duration_seconds * 1000 ==> r == track.duration_seconds * 1000,
{
}

/// A bar is as wide as it is asked to be: full columns first, and empty ones at its end.
pub proof fn law_a_bar_fills_from_the_left(full: usize, eighths: usize, width: usize, r: String)
    requires
        call_ensures(gauge_text, (full, eighths, width), r),
        full <= width < usize::MAX,
        eighths <= 8,
    ensures
        r@.len() == width,
        forall|i: int| 0 <= i < full ==> #[trigger] r@[i] == '█',
        forall|i: int| full < i < width ==> #[trigger] r@[i] == ' ',
        full < width && eighths == 0 ==> r@[full as int] == ' ',
        full < width && eighths == 4 ==> r@[full as int] == '▌',
        full < width && eighths == 8 ==> r@[full as int] == '█',
{
}

/// The desktop is told of the track that plays, with its place, and of nothing where none does.
pub proof fn law_the_desktop_is_told_of_the_track(
    tracklist: &Tracklist,
    elapsed: u128,
    status: Status,
    r: Option<NowPlaying>,
    at: int,
)
    requires
        call_ensures(build_now_playing, (tracklist, elapsed, status), r),
        tracklist.items().len() <= u64::MAX,
    ensures
        current_at(tracklist.items(), at) ==> {
            let track = tracklist.items()[at].track;
            &&& r matches Some(shown) && shown.title == track.title && shown.artist
                == track.artist_name && shown.album == track.album_title && shown.duration_seconds
                == track.duration_seconds && shown.elapsed == elapsed && shown.status == status
                && shown.artwork_url == track.image && shown.queue_index == at && shown.queue_count
                == tracklist.items().len()
        },
        none_plays(tracklist.items()) ==> r is None,
{
    if current_at(tracklist.items(), at) {
        lemma_first_match(tracklist.items(), playing(), at);
    }
    if none_plays(tracklist.items()) {
        lemma_no_match(tracklist.items(), playing());
    }
}

/// The desktop shows a track as playing unless it is paused, counts its time only while it plays,
/// and shows a stop where there is none.
pub proof fn law_the_desktop_shows_the_state(
    shown: &NowPlaying,
    state: PlaybackState,
    nothing: PlaybackState,
    running: bool,
)
    requires
        call_ensures(playback_state, (Some(shown),), state),
        call_ensures(playback_state, (None,), nothing),
        call_ensures(NowPlaying::is_running, (shown,), running),
    ensures
        state == PlaybackState::Paused <==> shown.status == Status::Paused,
        state == PlaybackState::Playing <==> shown.status != Status::Paused,
        nothing == PlaybackState::Stopped,
        running <==> shown.status == Status::Playing,
{
}

/// The desktop counts on by itself: it is told of a position only where that is more than three
/// seconds away from the last one.
pub proof fn law_the_desktop_is_told_of_jumps(
    center: &mut NowPlayingCenter,
    position: u128,
    r: bool,
)
    requires
        call_ensures(NowPlayingCenter::position_changed, (center, position), r),
    ensures
        r <==> old(center).current is Some && (position > old(center).last_position + 3_000_000_000
            || position + 3_000_000_000 < old(center).last_position),
        final(center).last_position == position,
        r ==> (final(center).current matches Some(shown) && shown == (NowPlaying {
            elapsed: position,
            ..old(center).current->0
        })),
        !r ==> final(center).current == old(center).current,
{
}

/// The desktop is told of a change of status, with the position at that time.
pub proof fn law_the_desktop_is_told_of_the_status(
    center: &mut NowPlayingCenter,
    status: Status,
    position: u128,
    r: bool,
)
    requires
        call_ensures(NowPlayingCenter::status_changed, (center, status, position), r),
    ensures
        r <==> old(center).current is Some,
        old(center).current matches Some(known) ==> final(center).current == Some(
            NowPlaying { status, elapsed: position, ..known },
        ),
        old(center).current is None ==> final(center).current is None,
        final(center).last_position == old(center).last_position,
{
}

/// A change of the queue makes what is shown anew, as it is at the start.
pub proof fn law_the_desktop_follows_the_queue(
    center: &mut NowPlayingCenter,
    tracklist: &Tracklist,
    position: u128,
    status: Status,
    fresh: NowPlayingCenter,
    built: Option<NowPlaying>,
)
    requires
        call_ensures(NowPlayingCenter::tracklist_changed, (center, tracklist, position, status), ()),
        call_ensures(NowPlayingCenter::new, (tracklist, position, status), fresh),
        call_ensures(build_now_playing, (tracklist, position, status), built),
    ensures
        final(center).current == built,
        fresh.current == built,
        fresh.last_position == position,
        final(center).last_position == old(center).last_position,
{
}

/// Artwork is fetched unless it is the one that is kept.
pub proof fn law_artwork_is_fetched_once(kept: &Option<String>, url: &str, r: bool)
    requires
        call_ensures(needs_artwork, (kept, url), r),
    ensures
        r <==> kept is None || kept->0@ != url@,
{
}

/// A description with character references is what is left of it without its tags, with the
/// references written out, and none where nothing is left.
pub proof fn law_references_of_a_description_are_written_out(
    source: String,
    text: &str,
    stripped: String,
    trimmed_text: String,
    r: Option<String>,
)
    requires
        call_ensures(sanitize_html, (Some(source),), r),
        source@ == text@,
        call_ensures(strip_tags, (text,), stripped),
        call_ensures(trim_text, (text,), trimmed_text),
    ensures
        trimmed_text@.len() > 0 && entities_decoded(stripped@).len() > 0 ==> (r matches Some(shown)
            && shown@ == entities_decoded(stripped@)),
        trimmed_text@.len() == 0 || entities_decoded(stripped@).len() == 0 ==> r is None,
{
}

} // verus!

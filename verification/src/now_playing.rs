//! What the terminal shows of the track that is playing.

use vstd::prelude::*;
use crate::models::{Status, Track};
use crate::sequences::first_match;
use crate::text::{decimal, decimal_text, text_view, views};
use crate::tracklist::{playing, position_of_playing, Tracklist, TracklistType};

verus! {

/// The track that is playing, and where it stands in the queue.
pub struct NowPlayingState {
    pub entity_title: Option<String>,
    pub playing_track: Option<Track>,
    pub tracklist_length: usize,
    pub tracklist_position: usize,
    pub status: Status,
    pub duration_ms: u32,
}

impl Default for NowPlayingState {
    fn default() -> (r: NowPlayingState)
        ensures
            r.entity_title is None,
            r.playing_track is None,
            r.tracklist_length == 0,
            r.tracklist_position == 0,
            r.status == Status::Paused,
            r.duration_ms == 0,
    {
        NowPlayingState {
            entity_title: None,
            playing_track: None,
            tracklist_length: 0,
            tracklist_position: 0,
            status: Status::default(),
            duration_ms: 0,
        }
    }
}

/// The track of a queue that is playing.
pub open spec fn track_playing(tracklist: Tracklist) -> Option<Track> {
    match first_match(tracklist.items(), playing()) {
        Some(i) => Some(tracklist.items()[i].track),
        None => None,
    }
}

/// What the tracks of a queue belong to: an album, a playlist or an artist; for loose tracks the
/// album of the one that is playing.
pub open spec fn queue_title(tracklist: Tracklist) -> Option<String> {
    match tracklist.source() {
        TracklistType::Album(list) => Some(list.title),
        TracklistType::Playlist(list) => Some(list.title),
        TracklistType::TopTracks(list) => Some(list.artist_name),
        TracklistType::Tracks => match track_playing(tracklist) {
            Some(track) => track.album_title,
            None => None,
        },
    }
}

/// What is shown of a queue, at the start of the track.
pub fn create_now_playing_state(tracklist: &Tracklist, status: Status) -> (r: NowPlayingState)
    ensures
        r.entity_title == queue_title(*tracklist),
        r.playing_track == track_playing(*tracklist),
        r.tracklist_length == tracklist.items().len(),
        r.tracklist_position == position_of_playing(tracklist.items()),
        r.status == status,
        r.duration_ms == 0,
{
    let track: Option<Track> = match tracklist.current_track() {
        Some(track) => Some(track.clone()),
        None => None,
    };
    let title: Option<String> = match tracklist.list_type() {
        TracklistType::Album(list) => Some(list.title.clone()),
        TracklistType::Playlist(list) => Some(list.title.clone()),
        TracklistType::TopTracks(list) => Some(list.artist_name.clone()),
        TracklistType::Tracks => match &track {
            Some(track) => match &track.album_title {
                Some(title) => Some(title.clone()),
                None => None,
            },
            None => None,
        },
    };
    NowPlayingState {
        entity_title: title,
        playing_track: track,
        tracklist_length: tracklist.total(),
        tracklist_position: tracklist.current_position(),
        status,
        duration_ms: 0,
    }
}

/// The name of a status.
pub open spec fn status_text(status: Status) -> Seq<char> {
    match status {
        Status::Playing => "Playing ⏵"@,
        Status::Paused => "Paused ⏸"@,
        Status::Buffering => "Buffering"@,
    }
}

pub fn get_status(state: Status) -> (r: &'static str)
    ensures
        r@ == status_text(state),
{
    match state {
        Status::Playing => "Playing ⏵",
        Status::Paused => "Paused ⏸",
        Status::Buffering => "Buffering",
    }
}

/// Whether the cover is drawn: unless it is switched off, where there is an image and room for it
/// with a column beside.
pub fn can_render_cover(
    disabled: bool,
    has_image: bool,
    width: u16,
    height: u16,
    cover_width: u16,
    cover_height: u16,
    gap: u16,
) -> (r: bool)
    ensures
        r <==> !disabled && has_image && height >= cover_height && (width >= cover_width + gap + 1
            || width == u16::MAX),
{
    !disabled && has_image && height >= cover_height && width >= cover_width.saturating_add(
        gap,
    ).saturating_add(1)
}

/// Whether the cover is drawn beside a list of tracks: where there is an image and room for it.
pub fn can_render_header_cover(
    has_image: bool,
    width: u16,
    height: u16,
    cover_width: u16,
    cover_height: u16,
    gap: u16,
) -> (r: bool)
    ensures
        r <==> has_image && (width >= cover_width + gap || width == u16::MAX) && height
            >= cover_height,
{
    has_image && width >= cover_width.saturating_add(gap) && height >= cover_height
}

/// A line for each of the texts that there are.
pub open spec fn lines_of(texts: Seq<Option<Seq<char>>>) -> Seq<Seq<char>>
    decreases texts.len(),
{
    if texts.len() == 0 {
        Seq::empty()
    } else {
        match texts.last() {
            Some(text) => lines_of(texts.drop_last()).push(text),
            None => lines_of(texts.drop_last()),
        }
    }
}

/// The lines about the track that is playing: its title, its artist and what it belongs to as far
/// as they are known, and its place in the queue.
pub fn info_lines(state: &NowPlayingState, track: &Track) -> (r: Vec<String>)
    requires
        state.tracklist_position < usize::MAX,
    ensures
        views(r@) == lines_of(
            seq![
                Some(track.title@),
                text_view(track.artist_name),
                text_view(state.entity_title),
                Some(
                    decimal((state.tracklist_position + 1) as nat) + " of "@ + decimal(
                        state.tracklist_length as nat,
                    ),
                ),
            ],
        ),
{
    let mut lines: Vec<String> = Vec::new();
    lines.push(track.title.clone());
    if let Some(artist) = &track.artist_name {
        lines.push(artist.clone());
    }
    if let Some(entity) = &state.entity_title {
        lines.push(entity.clone());
    }
    let place = decimal_text((state.tracklist_position + 1) as u128).concat(" of ").concat(
        &decimal_text(state.tracklist_length as u128),
    );
    lines.push(place);
    proof {
        let a = Some(track.title@);
        let b = text_view(track.artist_name);
        let c = text_view(state.entity_title);
        let d = Some(place@);
        assert(seq![a, b, c, d].drop_last() =~= seq![a, b, c]);
        assert(seq![a, b, c].drop_last() =~= seq![a, b]);
        assert(seq![a, b].drop_last() =~= seq![a]);
        assert(seq![a].drop_last() =~= Seq::empty());
        reveal_with_fuel(lines_of, 5);
        assert(views(lines@) =~= lines_of(seq![a, b, c, d]));
    }
    lines
}

/// The milliseconds that are played of a track, as far as it goes.
pub fn played_ms(duration_ms: u32, track: &Track) -> (r: u32)
    ensures
        ({
            let total = if track.duration_seconds * 1000 < u32::MAX {
                track.duration_seconds * 1000
            } else {
                u32::MAX as int
            };
            r == if duration_ms < total {
                duration_ms as int
            } else {
                total
            }
        }),
{
    let total: u32 = match track.duration_seconds.checked_mul(1000) {
        Some(total) => total,
        None => u32::MAX,
    };
    if duration_ms < total {
        duration_ms
    } else {
        total
    }
}

/// The block that fills a number of eighths.
pub open spec fn block(eighths: int) -> char {
    if eighths == 0 {
        ' '
    } else if eighths == 1 {
        '▏'
    } else if eighths == 2 {
        '▎'
    } else if eighths == 3 {
        '▍'
    } else if eighths == 4 {
        '▌'
    } else if eighths == 5 {
        '▋'
    } else if eighths == 6 {
        '▊'
    } else if eighths == 7 {
        '▉'
    } else {
        '█'
    }
}

/// A bar of `width` columns, of which `full` and some eighths of the next are filled.
pub open spec fn gauge(full: nat, eighths: int, width: nat) -> Seq<char> {
    if full < width {
        Seq::new(full, |i: int| '█') + seq![block(eighths)] + Seq::new(
            (width - full - 1) as nat,
            |i: int| ' ',
        )
    } else {
        Seq::new(full, |i: int| '█')
    }
}

/// Draws a bar. `full` is the number of columns that are filled, and `eighths` how far the next is.
pub fn gauge_text(full: usize, eighths: usize, width: usize) -> (r: String)
    requires
        full < width ==> eighths <= 8,
        full < usize::MAX,
    ensures
        r@ == gauge(full as nat, eighths as int, width as nat),
{
    let mut s = String::new();
    for i in 0..full
        invariant
            s@ == Seq::new(i as nat, |k: int| '█'),
    {
        s.push('█');
        assert(s@ =~= Seq::new((i + 1) as nat, |k: int| '█'));
    }
    if full < width {
        let c: char = if eighths == 0 {
            ' '
        } else if eighths == 1 {
            '▏'
        } else if eighths == 2 {
            '▎'
        } else if eighths == 3 {
            '▍'
        } else if eighths == 4 {
            '▌'
        } else if eighths == 5 {
            '▋'
        } else if eighths == 6 {
            '▊'
        } else if eighths == 7 {
            '▉'
        } else {
            '█'
        };
        s.push(c);
    }
    let ghost head = s@;
    let left: usize = width.saturating_sub(full + 1);
    assert(head =~= head + Seq::new(0, |k: int| ' '));
    for i in 0..left
        invariant
            s@ == head + Seq::new(i as nat, |k: int| ' '),
    {
        s.push(' ');
        assert(s@ =~= head + Seq::new((i + 1) as nat, |k: int| ' '));
    }
    assert(s@ =~= gauge(full as nat, eighths as int, width as nat));
    s
}

/// A bar that is not overfull is as wide as it is asked to be.
pub proof fn law_a_gauge_fills_its_width(full: nat, eighths: int, width: nat)
    requires
        full <= width,
    ensures
        gauge(full, eighths, width).len() == width,
{
}

} // verus!

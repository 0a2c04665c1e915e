use qobine::models::Track;
use qobine::tracklist::{PlayingEntity, PlayingPlaylist, Tracklist};
use qobine::web::{
    action_message, added_message, content_url, index_if_playlist, moved_index, mseconds_to_mm_ss,
    now_playing_context, owned_playlists, play_favorite_track, playlist_content, playlist_url,
    reorder_plan, FavoritePlan, PlaylistAction, ReorderPlan,
};
use qobine::models::{Owner, PlaylistSimple};

#[test]
fn test_1() {
    let perm = &[0, 1, 2, 3, 4, 5];
    let output = moved_index(perm);

    assert_eq!(output, None);
}

#[test]
fn test_2() {
    let perm = &[1, 2, 3, 4, 5, 0];
    let output = moved_index(perm).unwrap();

    assert_eq!(output.moved_index, 0);
    assert_eq!(output.insert_before, 6);
}

#[test]
fn test_3() {
    let perm = &[2, 0, 1, 3, 4, 5];
    let output = moved_index(perm).unwrap();

    assert_eq!(output.moved_index, 2);
    assert_eq!(output.insert_before, 0);
}

#[test]
fn test_4() {
    let perm = &[0, 1, 2, 4, 3, 5];
    let output = moved_index(perm).unwrap();

    assert_eq!(output.moved_index, 3);
    assert_eq!(output.insert_before, 5);
}

/// Puts the item at `moved` before the one at `before`.
fn put_before(n: usize, moved: usize, before: usize) -> Vec<usize> {
    let mut order: Vec<usize> = (0..n).filter(|&i| i != moved).collect();
    let at = order.iter().position(|&i| i == before).unwrap_or(order.len());
    order.insert(at, moved);
    order
}

#[test]
fn every_single_move_is_found_again() {
    for n in 2..7 {
        for from in 0..n {
            for to in 0..n {
                let mut perm: Vec<usize> = (0..n).collect();
                let item = perm.remove(from);
                perm.insert(to, item);
                match moved_index(&perm) {
                    Some(output) => assert_eq!(
                        put_before(n, output.moved_index, output.insert_before),
                        perm
                    ),
                    None => assert_eq!(from, to),
                }
            }
        }
    }
}

#[test]
fn times_are_minutes_and_seconds() {
    assert_eq!(mseconds_to_mm_ss(0), "00:00");
    assert_eq!(mseconds_to_mm_ss(61_999), "01:01");
    assert_eq!(mseconds_to_mm_ss(6_000_000), "100:00");
}

fn track(id: u32) -> Track {
    Track {
        id,
        duration_seconds: 125,
        playlist_track_id: Some(u64::from(id) + 100),
        ..Track::default()
    }
}

#[test]
fn the_page_shows_position_and_duration() {
    let mut tracklist = Tracklist::default();
    let context = now_playing_context(&tracklist, 61_000_000_000);
    assert_eq!(context.position_string, "01:01");
    assert_eq!(context.duration_string, "00:00");
    tracklist.push_track(track(1));
    tracklist.skip_to_track(0);
    assert_eq!(now_playing_context(&tracklist, 0).duration_string, "02:05");
}

#[test]
fn the_index_is_that_of_the_playing_playlist() {
    let entity = PlayingEntity::Playlist(PlayingPlaylist {
        track_id: 1,
        queue_id: 2,
        index: 3,
        playlist_id: 4,
    });
    assert_eq!(index_if_playlist(Some(&entity), 4), Some(3));
    assert_eq!(index_if_playlist(Some(&entity), 5), None);
    assert_eq!(index_if_playlist(Some(&PlayingEntity::Track(track(1))), 4), None);
    assert_eq!(index_if_playlist(None, 4), None);
}

#[test]
fn a_reordering_moves_one_track() {
    let tracks = vec![track(1), track(2), track(3)];
    assert_eq!(reorder_plan(&tracks, &[0, 1, 2]), ReorderPlan::Nothing);
    assert_eq!(
        reorder_plan(&tracks, &[1, 2, 0]),
        ReorderPlan::Move {
            insert_before: 3,
            playlist_track_id: 101
        }
    );
    assert_eq!(reorder_plan(&Vec::new(), &[1, 0]), ReorderPlan::Failed);
}

fn playlist(id: u32, is_owned: bool) -> PlaylistSimple {
    PlaylistSimple {
        id,
        is_owned,
        title: "list".to_string(),
        duration_seconds: 60,
        tracks_count: 1,
        image: None,
        owner: Owner {
            id: 1,
            name: "me".to_string(),
        },
    }
}

#[test]
fn only_own_playlists_take_tracks() {
    let lists = vec![playlist(1, true), playlist(2, false), playlist(3, true)];
    let ids: Vec<u32> = owned_playlists(&lists).iter().map(|p| p.id).collect();
    assert_eq!(ids, vec![1, 3]);
}

#[test]
fn the_page_of_a_playlist() {
    let content = playlist_content(2, 150, &vec![playlist(1, true), playlist(2, false)], None);
    assert_eq!(content.duration_minutes, 2);
    assert!(content.is_favorite);
    assert_eq!(content.click, "/playlist/2/play/");
    assert_eq!(content.playing_index, None);
    assert_eq!(content_url(17), "/playlist/17/content");
    assert_eq!(playlist_url(17), "/playlist/17");
}

#[test]
fn messages_name_the_playlist() {
    assert_eq!(action_message(PlaylistAction::AddToQueue, "Mix"), "Mix added to queue");
    assert_eq!(action_message(PlaylistAction::PlayNext, "Mix"), "Playing Mix next");
    assert_eq!(added_message("Mix"), "Added to Mix");
}

#[test]
fn favourites_start_shortly_before_the_chosen_one() {
    let tracks: Vec<Track> = (1..=6).map(track).collect();
    assert_eq!(
        play_favorite_track(&tracks, 5),
        FavoritePlan::PlayTracks {
            track_ids: vec![2, 3, 4, 5, 6],
            start_index: 3
        }
    );
    assert_eq!(
        play_favorite_track(&tracks, 1),
        FavoritePlan::PlayTracks {
            track_ids: vec![1, 2, 3, 4, 5, 6],
            start_index: 0
        }
    );
    assert_eq!(play_favorite_track(&tracks, 9), FavoritePlan::PlayTrack(9));
}

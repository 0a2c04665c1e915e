use qobine::models::{Track, TrackStatus};
use qobine::tracklist::{
    AlbumTracklist, PlayingEntity, PlaylistTracklist, QueueItem, TopTracklist, Tracklist,
    TracklistType,
};

fn tracklist(len: usize) -> Tracklist {
    Tracklist::new(TracklistType::Tracks, vec![QueueItem::default(); len])
}

#[test]
fn a_new_source_is_empty() {
    assert!(matches!(TracklistType::default(), TracklistType::Tracks));
    let album = AlbumTracklist::default();
    assert!(album.title.is_empty() && album.id.is_empty() && album.image.is_none());
    let playlist = PlaylistTracklist::default();
    assert!(playlist.title.is_empty() && playlist.id == 0 && playlist.image.is_none());
    let top = TopTracklist::default();
    assert!(top.artist_name.is_empty() && top.id == 0 && top.image.is_none());
}

#[test]
fn remove_track_ignores_out_of_range_index() {
    let mut tracklist = tracklist(7);
    tracklist.remove_track(7);
    assert_eq!(tracklist.total(), 7);
}

#[test]
fn insert_track_beyond_end_appends() {
    let mut tracklist = tracklist(0);
    tracklist.insert_track(1, Track::default());
    assert_eq!(tracklist.total(), 1);
}

#[test]
fn reorder_queue_ignores_order_of_wrong_length() {
    let mut tracklist = tracklist(3);
    tracklist.reorder_queue(&[1, 0]);
    assert_eq!(tracklist.total(), 3);
}

fn queue_with_ids(ids: &[u64]) -> Tracklist {
    let items = ids
        .iter()
        .map(|&queue_id| QueueItem {
            queue_id,
            ..QueueItem::default()
        })
        .collect();
    Tracklist::new(TracklistType::Tracks, items)
}

fn queue_id_at(tracklist: &Tracklist, index: usize) -> Option<u64> {
    tracklist.queue().get(index).map(|item| item.queue_id)
}

#[test]
fn queue_ids_are_never_reused() {
    let mut tracklist = queue_with_ids(&[0, 1, 2, 3, 4, 5, 6, 7]);
    tracklist.insert_track(1, Track::default());
    assert_eq!(queue_id_at(&tracklist, 1), Some(8));
    tracklist.remove_track(1);
    tracklist.insert_track(1, Track::default());
    assert_eq!(queue_id_at(&tracklist, 1), Some(9));
    tracklist.push_track(Track::default());
    assert_eq!(queue_id_at(&tracklist, 9), Some(10));
}

#[test]
fn queue_ids_continue_after_the_highest_id_of_a_received_queue() {
    let mut tracklist = queue_with_ids(&[0, 5, 1, 2, 3, 4]);
    tracklist.push_track(Track::default());
    assert_eq!(queue_id_at(&tracklist, 6), Some(6));
}

fn connect_queue(ids: &[(u64, i32)]) -> Tracklist {
    let items = ids
        .iter()
        .map(|&(queue_id, connect_id)| QueueItem {
            queue_id,
            connect_id: Some(connect_id),
            ..QueueItem::default()
        })
        .collect();
    Tracklist::new(TracklistType::Tracks, items)
}

fn ids(tracklist: &Tracklist) -> Vec<u64> {
    tracklist.queue().iter().map(|item| item.queue_id).collect()
}

#[test]
fn replace_keeps_the_current_track_and_the_items_the_session_does_not_know() {
    let mut tracklist = connect_queue(&[(0, 10), (1, 11), (2, 12)]);
    tracklist.skip_to_track(1);
    tracklist.insert_track(2, Track::default());
    assert_eq!(ids(&tracklist), vec![0, 1, 3, 2]);

    let from_session = connect_queue(&[(1, 11), (2, 12), (4, 13)]);
    assert!(tracklist.replace(from_session.queue().into_iter().cloned().collect()));
    assert_eq!(ids(&tracklist), vec![1, 3, 2, 4]);
    assert_eq!(tracklist.current_position(), 0);
    assert_eq!(tracklist.current_connect_id(), Some(11));
    assert_eq!(tracklist.next_connect_id(), None);
}

#[test]
fn replace_reports_a_current_track_that_the_session_dropped() {
    let mut tracklist = connect_queue(&[(0, 10), (1, 11)]);
    tracklist.skip_to_track(0);
    let from_session = connect_queue(&[(1, 11)]);
    assert!(!tracklist.replace(from_session.queue().into_iter().cloned().collect()));
    assert_eq!(tracklist.current_position(), 0);
    assert_eq!(tracklist.current_connect_id(), Some(11));
}

#[test]
fn connect_ids_are_set_by_queue_id() {
    let mut tracklist = queue_with_ids(&[0, 1, 2]);
    tracklist.set_connect_ids(&[(1, 7), (2, 8)]);
    assert_eq!(tracklist.position_of_connect_id(8), Some(2));
    assert_eq!(tracklist.position_of_connect_id(7), Some(1));
    assert_eq!(tracklist.position_of_connect_id(9), None);
}

fn track(id: u32) -> Track {
    Track {
        id,
        ..Track::default()
    }
}

fn queue_of(track_ids: &[u32]) -> Tracklist {
    let mut tracklist = Tracklist::default();
    for &id in track_ids {
        tracklist.push_track(track(id));
    }
    tracklist
}

fn track_ids(tracklist: &Tracklist) -> Vec<u32> {
    tracklist.queue().iter().map(|item| item.track.id).collect()
}

#[test]
fn skipping_leaves_one_track_playing() {
    let mut tracklist = queue_of(&[5, 6, 7, 8]);
    assert_eq!(tracklist.skip_to_track(2).map(|t| t.id), Some(7));
    let statuses: Vec<TrackStatus> = tracklist.queue().iter().map(|i| i.track.status).collect();
    assert_eq!(
        statuses,
        vec![
            TrackStatus::Played,
            TrackStatus::Played,
            TrackStatus::Playing,
            TrackStatus::Unplayed
        ]
    );
    assert_eq!(tracklist.current_position(), 2);
    assert_eq!(tracklist.currently_playing(), Some(7));
    assert_eq!(tracklist.next_track_id(), Some(8));
    assert_eq!(tracklist.next_track_queue_id(), Some(3));
    assert_eq!(tracklist.current_queue_id(), Some(2));
    assert!(tracklist.skip_to_track(4).is_none());
    assert_eq!(tracklist.currently_playing(), None);
}

#[test]
fn resetting_starts_over() {
    let mut tracklist = queue_of(&[5, 6, 7]);
    tracklist.skip_to_track(2);
    tracklist.reset();
    assert_eq!(tracklist.currently_playing(), Some(5));
    assert_eq!(tracklist.next_track().map(|t| t.id), Some(6));
    assert_eq!(tracklist.current_track().map(|t| t.id), Some(5));
}

#[test]
fn clearing_keeps_what_was_started() {
    let mut tracklist = queue_of(&[5, 6, 7]);
    tracklist.skip_to_track(1);
    tracklist.clear_queue();
    assert_eq!(track_ids(&tracklist), vec![5, 6]);
}

#[test]
fn reordering_keeps_every_item() {
    let mut tracklist = queue_of(&[5, 6, 7]);
    tracklist.reorder_queue(&[2, 0, 1]);
    assert_eq!(track_ids(&tracklist), vec![7, 5, 6]);
    tracklist.reorder_queue(&[0, 1, 2]);
    assert_eq!(track_ids(&tracklist), vec![7, 5, 6]);
    tracklist.reorder_queue(&[0, 9, 2]);
    assert_eq!(track_ids(&tracklist), vec![7, 6]);
}

#[test]
fn the_playing_entity_names_the_playlist() {
    let mut tracklist = queue_of(&[5, 6]);
    assert_eq!(tracklist.current_playing_entity(), None);
    tracklist.skip_to_track(1);
    let current = tracklist.current_track().cloned().unwrap();
    assert_eq!(
        tracklist.current_playing_entity(),
        Some(PlayingEntity::Track(current))
    );
    tracklist.set_list_type(TracklistType::Playlist(PlaylistTracklist {
        title: "mix".to_string(),
        id: 9,
        image: None,
    }));
    match tracklist.current_playing_entity() {
        Some(PlayingEntity::Playlist(playing)) => {
            assert_eq!(playing.track_id, 6);
            assert_eq!(playing.queue_id, 1);
            assert_eq!(playing.index, 2);
            assert_eq!(playing.playlist_id, 9);
        }
        other => panic!("{other:?}"),
    }
}

#[test]
fn a_tracklist_remembers_its_source() {
    let source = TracklistType::Album(AlbumTracklist {
        title: "a".to_string(),
        id: "b".to_string(),
        image: Some("c".to_string()),
    });
    let tracklist = Tracklist::new_with_id(source.clone(), Vec::new());
    assert_eq!(tracklist.list_type(), &source);
    assert_eq!(tracklist.clone(), tracklist);
    assert_eq!(tracklist.next_connect_id(), None);
}

#[test]
fn a_stored_tracklist_goes_on_counting() {
    let mut tracklist = Tracklist::restored(TracklistType::Tracks, Vec::new(), 7);
    assert_eq!(tracklist.next_queue_id(), 7);
    tracklist.push_track(Track::default());
    assert_eq!(tracklist.queue()[0].queue_id, 7);
    assert_eq!(tracklist.next_queue_id(), 8);
}

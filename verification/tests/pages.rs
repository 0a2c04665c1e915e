use qobine::grid_page::{is_found, new_artists_page, new_playlists_page, occurs};
use qobine::models::{Artist, Owner, PlaylistSimple, Track, TrackStatus};
use qobine::queue_page::{move_index, DropOutcome, QueuePage, RowAction};
use qobine::sink::{
    decode_failure, find_device, missing_device, read_failure, QueueStep, Sink, StreamChoice,
    DURATION_MAX,
};
use qobine::tracklist::{QueueItem, Tracklist, TracklistType};

fn queue(ids: &[(u64, u32)], playing: usize) -> Tracklist {
    let items = ids
        .iter()
        .enumerate()
        .map(|(i, (queue_id, track))| QueueItem {
            track: Track {
                id: *track,
                status: if i < playing {
                    TrackStatus::Played
                } else if i == playing {
                    TrackStatus::Playing
                } else {
                    TrackStatus::Unplayed
                },
                ..Track::default()
            },
            queue_id: *queue_id,
            index: i,
            connect_id: None,
        })
        .collect();
    Tracklist::new(TracklistType::Tracks, items)
}

/// The rows of a page after the actions.
fn perform(page: &mut Vec<u64>, ids: &[u64], actions: &[RowAction]) {
    for action in actions {
        match *action {
            RowAction::Remove { row } => page.retain(|id| *id != row),
            RowAction::Insert { row, place } => {
                let place = (place as usize).min(page.len());
                page.insert(place, row);
            }
            RowAction::Move { row, place } => {
                page.retain(|id| *id != row);
                let place = (place as usize).min(page.len());
                page.insert(place, row);
            }
            RowAction::Build { index } => assert!(index < ids.len()),
            _ => {}
        }
    }
}

#[test]
fn the_page_follows_the_queue() {
    let mut page = QueuePage::new();
    let mut shown: Vec<u64> = Vec::new();
    for ids in [
        vec![(1u64, 10u32), (2, 20), (3, 30)],
        vec![(3, 30), (1, 10), (4, 40)],
        vec![(4, 41), (3, 30), (5, 50), (1, 10)],
        vec![],
        vec![(9, 90)],
    ] {
        let plain: Vec<u64> = ids.iter().map(|pair| pair.0).collect();
        let actions = page.load(&queue(&ids, 0));
        perform(&mut shown, &plain, &actions);
        assert_eq!(shown, plain);
    }
}

#[test]
fn no_row_is_twice_on_the_page() {
    let mut page = QueuePage::new();
    let mut shown: Vec<u64> = Vec::new();
    let actions = page.load(&queue(&[(1, 10), (2, 20), (1, 10)], 0));
    perform(&mut shown, &[1, 2, 1], &actions);
    shown.sort_unstable();
    assert_eq!(shown, [1, 2]);
    let again = page.sync_existing_queue_list();
    assert_eq!(again.iter().filter(|action| matches!(action, RowAction::Remove { .. })).count(), 2);
    let mut after: Vec<u64> = Vec::new();
    perform(&mut after, &[1, 2, 1], &again);
    after.sort_unstable();
    assert_eq!(after, [1, 2]);
    let plain = page.load(&queue(&[(2, 20), (1, 10)], 0));
    assert_eq!(plain.iter().filter(|action| matches!(action, RowAction::Build { .. })).count(), 0);
}

#[test]
fn rows_are_built_for_new_and_changed_items() {
    let mut page = QueuePage::new();
    page.load(&queue(&[(1, 10), (2, 20)], 1));
    let actions = page.load(&queue(&[(1, 10), (2, 21), (3, 30)], 1));
    assert_eq!(
        actions,
        [
            RowAction::Remove { row: 2 },
            RowAction::Build { index: 1 },
            RowAction::Build { index: 2 },
            RowAction::Dim { row: 1, dimmed: true },
            RowAction::Dim { row: 2, dimmed: false },
            RowAction::Dim { row: 3, dimmed: false },
            RowAction::Insert { row: 2, place: 1 },
            RowAction::Insert { row: 3, place: 2 },
            RowAction::Select { row: 2 },
        ]
    );
    let again = page.sync_existing_queue_list();
    assert_eq!(again[..3], [1, 2, 3].map(|row| RowAction::Remove { row }));
    assert!(again.contains(&RowAction::Build { index: 0 }));
    let stopped = page.load(&queue(&[(1, 10)], 7));
    assert_eq!(stopped.last(), Some(&RowAction::Unselect));
}

#[test]
fn a_dropped_row_moves_both_queues() {
    let mut page = QueuePage::new();
    let mut list = queue(&[(1, 10), (2, 20), (3, 30), (4, 40)], 0);
    page.load(&list);
    assert!(matches!(page.dropped(-1, 2), DropOutcome::Refused));
    assert!(matches!(page.dropped(0, -1), DropOutcome::Refused));
    assert!(matches!(page.dropped(4, 0), DropOutcome::Refused));
    assert!(matches!(page.dropped(1, 1), DropOutcome::Unmoved));
    assert!(matches!(page.dropped(1, 2), DropOutcome::Unmoved));
    match page.dropped(0, 3) {
        DropOutcome::Reordered { order, actions } => {
            assert_eq!(order, [1, 2, 0, 3]);
            list.reorder_queue(&order);
            let ids: Vec<u64> = list.queue().iter().map(|item| item.queue_id).collect();
            assert_eq!(ids, [2, 3, 1, 4]);
            let mut shown = vec![1, 2, 3, 4];
            perform(&mut shown, &ids, &actions);
            assert_eq!(shown, ids);
        }
        _ => panic!("expected a new order"),
    }
    match page.dropped(3, 0) {
        DropOutcome::Reordered { order, .. } => assert_eq!(order, [3, 0, 1, 2]),
        _ => panic!("expected a new order"),
    }
}

#[test]
fn rows_name_places() {
    let mut page = QueuePage::new();
    page.load(&queue(&[(1, 10)], 0));
    assert_eq!(page.activated(0), Some(0));
    assert_eq!(page.activated(-1), None);
    assert_eq!(page.drag_prepare(2), Some(2));
    assert_eq!(page.drag_prepare(-1), None);
    assert_eq!(page.remove_clicked(0).map(|step| step.0), Some(0));
    assert!(page.remove_clicked(1).is_none());
    assert!(page.remove_clicked(-1).is_none());
    let mut order = vec![0, 1, 2];
    move_index(&mut order, 0, 9);
    assert_eq!(order, [1, 2, 0]);
    move_index(&mut order, 5, 0);
    assert_eq!(order, [1, 2, 0]);
}

fn artist(id: u32, name: &str) -> Artist {
    Artist { id, name: name.to_string(), image: None }
}

#[test]
fn a_query_narrows_a_page_down() {
    let mut page = new_artists_page();
    page.load(vec![artist(1, "Björk"), artist(2, "BJ Thomas"), artist(3, "Air")]);
    assert_eq!(page.visible().len(), 3);
    page.filter("  BJ ");
    assert_eq!(page.visible().iter().map(|a| a.id).collect::<Vec<_>>(), [1, 2]);
    page.filter("BJÖ");
    assert_eq!(page.visible().iter().map(|a| a.id).collect::<Vec<_>>(), [1]);
    assert_eq!(page.activated(0).map(|a| a.id), Some(1));
    assert!(page.activated(1).is_none());
    page.load(vec![artist(4, "x")]);
    assert_eq!(page.visible().len(), 1);
    page.clear();
    assert!(page.visible().is_empty());
    let mut playlists = new_playlists_page();
    playlists.load(vec![PlaylistSimple {
        id: 1,
        is_owned: true,
        title: "Mix".to_string(),
        duration_seconds: 0,
        tracks_count: 0,
        image: None,
        owner: Owner { id: 1, name: "me".to_string() },
    }]);
    playlists.filter("mix");
    assert_eq!(playlists.visible().len(), 1);
    playlists.filter("none");
    assert!(playlists.visible().is_empty());
}

#[test]
fn names_are_found_by_their_parts() {
    assert!(occurs("", ""));
    assert!(occurs("bc", "abcd"));
    assert!(!occurs("bd", "abcd"));
    assert!(is_found("anything", ""));
    assert!(!is_found("air", "x"));
}

#[test]
fn a_stream_is_kept_for_one_sample_rate() {
    let mut sink = Sink::new(None);
    assert!(sink.is_empty());
    assert!(matches!(sink.queue_decoder(44_100), QueueStep::Queue(StreamChoice::OpenDefault)));
    sink.stream_opened(44_100);
    assert!(!sink.is_empty());
    assert!(matches!(sink.queue_decoder(44_100), QueueStep::Queue(StreamChoice::Keep)));
    assert!(matches!(sink.queue_decoder(96_000), QueueStep::Recreate));
    assert!(sink.clear());
    assert!(matches!(sink.queue_decoder(96_000), QueueStep::Queue(StreamChoice::OpenDefault)));
    let preferred = Sink::new(Some("DAC".to_string()));
    assert!(matches!(
        preferred.queue_decoder(96_000),
        QueueStep::Queue(StreamChoice::OpenPreferred(name)) if name == "DAC"
    ));
}

#[test]
fn the_position_counts_from_the_start_of_the_track() {
    let mut sink = Sink::new(None);
    assert_eq!(sink.position(50), 0);
    sink.stream_opened(44_100);
    sink.track_ended(30);
    assert_eq!(sink.position(50), 20);
    assert_eq!(sink.position(10), 0);
    sink.seek(false);
    assert_eq!(sink.position(50), 20);
    sink.seek(true);
    assert_eq!(sink.position(50), 50);
    sink.track_ended(DURATION_MAX);
    sink.track_ended(5);
    assert_eq!(sink.position(DURATION_MAX), 0);
    assert!(sink.clear_queue());
    assert_eq!(sink.position(50), 50);
}

#[test]
fn a_device_is_found_by_its_description() {
    let devices =
        vec![None, Some("DAC".to_string()), Some("Speaker".to_string()), Some("DAC".to_string())];
    assert_eq!(find_device(&devices, "DAC"), Some(1));
    assert_eq!(find_device(&devices, "Other"), None);
    assert_eq!(
        missing_device(&devices),
        "Unable to find device. Available devices: DAC, Speaker, DAC"
    );
    assert_eq!(missing_device(&vec![]), "Unable to find device. Available devices: ");
    assert_eq!(read_failure("a", "b"), "Failed to read file: a: b");
    assert_eq!(decode_failure("x"), "Failed to decode streaming FLAC: x");
}

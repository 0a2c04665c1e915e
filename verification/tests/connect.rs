use qobine::connect::{
    activate, ask_remote_state, audio_quality, connect_quality, device, items, set_active, update,
    BufferState, Connect, ConnectAction, ConnectDevice, ConnectQuality, Device, DeviceKind, NewQueueItem,
    PlayerView, PlayingState, QueueEvent, QueueTrackRef, RendererCommand, RendererEvent,
    RendererReport, SessionEvent, SessionView,
};
use qobine::connect_queue::{delta, ControllerCommand};
use qobine::models::{AudioQuality, Status, Track, TrackStatus, Volume};
use qobine::tracklist::{QueueItem, Tracklist, TracklistType};

#[test]
fn a_queue_in_sync_needs_nothing() {
    let session = [(10, 1), (11, 2)];
    let local = [(0, Some(10), 1), (1, Some(11), 2)];
    assert!(delta(&session, &local, 0).is_none());
}

#[test]
fn a_fresh_queue_is_loaded_from_the_current_track() {
    let local = [(0, None, 1), (1, None, 2)];
    assert!(matches!(
        delta(&[], &local, 1),
        Some(ControllerCommand::LoadTracks { track_ids, position: 1, .. })
            if track_ids == vec![1, 2]
    ));
}

#[test]
fn tracks_added_at_the_end_are_added() {
    let session = [(10, 1)];
    let local = [(0, Some(10), 1), (1, None, 2), (2, None, 3)];
    assert!(matches!(
        delta(&session, &local, 0),
        Some(ControllerCommand::AddTracks { track_ids, .. }) if track_ids == vec![2, 3]
    ));
}

#[test]
fn tracks_inserted_in_the_middle_follow_their_predecessor() {
    let session = [(10, 1), (11, 2)];
    let local = [(0, Some(10), 1), (2, None, 3), (1, Some(11), 2)];
    assert!(matches!(
        delta(&session, &local, 0),
        Some(ControllerCommand::InsertTracks { track_ids, after: Some(10), .. })
            if track_ids == vec![3]
    ));
}

#[test]
fn tracks_inserted_at_the_front_have_no_predecessor() {
    let session = [(10, 1)];
    let local = [(2, None, 3), (0, Some(10), 1)];
    assert!(matches!(
        delta(&session, &local, 0),
        Some(ControllerCommand::InsertTracks { after: None, .. })
    ));
}

#[test]
fn missing_tracks_are_removed() {
    let session = [(10, 1), (11, 2), (12, 3)];
    let local = [(0, Some(10), 1), (2, Some(12), 3)];
    assert!(matches!(
        delta(&session, &local, 0),
        Some(ControllerCommand::RemoveTracks { queue_item_ids, .. }) if queue_item_ids == vec![11]
    ));
}

#[test]
fn a_single_moved_track_is_reordered() {
    let session = [(10, 1), (11, 2), (12, 3)];
    let local = [(0, Some(10), 1), (2, Some(12), 3), (1, Some(11), 2)];
    assert!(matches!(
        delta(&session, &local, 0),
        Some(ControllerCommand::ReorderTracks { queue_item_ids, after: Some(10), .. })
            if queue_item_ids == vec![12]
    ));
}

#[test]
fn an_addition_and_a_removal_together_reload_the_queue() {
    let session = [(10, 1), (11, 2)];
    let local = [(0, Some(10), 1), (2, None, 3)];
    assert!(matches!(
        delta(&session, &local, 1),
        Some(ControllerCommand::LoadTracks { position: 1, .. })
    ));
}

#[test]
fn a_queue_behind_an_adoption_waits() {
    let session = [(10, 1)];
    let local = [(0, Some(10), 1), (1, Some(11), 2), (2, None, 3)];
    assert!(delta(&session, &local, 0).is_none());
}

#[test]
fn an_emptied_queue_is_cleared() {
    assert!(matches!(
        delta(&[(10, 1)], &[], 0),
        Some(ControllerCommand::ClearQueue)
    ));
}

fn test_device(name: &str) -> Device {
    device("host", name.to_owned(), AudioQuality::CD, "1.0".to_owned())
}

#[test]
fn this_device_is_a_computer() {
    assert_eq!(test_device("phone").kind, DeviceKind::Computer);
}

#[test]
fn renderers_follow_the_session() {
    let mut renderers = Vec::new();
    let phone = test_device("phone");
    let web = test_device("web");
    let added = RendererEvent::Added {
        id: 4,
        device: phone.clone(),
    };
    assert!(update(&mut renderers, added));
    assert!(update(
        &mut renderers,
        RendererEvent::Added { id: 6, device: web }
    ));
    assert!(update(
        &mut renderers,
        RendererEvent::ActiveChanged { id: Some(6) }
    ));
    assert!(!update(
        &mut renderers,
        RendererEvent::Volume { id: 6, volume: 3 }
    ));
    let renamed = RendererEvent::Updated {
        id: 4,
        device: Device {
            name: "my phone".to_owned(),
            ..phone
        },
    };
    assert!(update(&mut renderers, renamed));
    assert_eq!(
        renderers.iter().filter(|renderer| renderer.active).count(),
        1
    );
    assert!(update(&mut renderers, RendererEvent::Removed { id: 6 }));
    let expected = ConnectDevice {
        id: 4,
        name: "my phone".to_owned(),
        active: false,
    };
    assert_eq!(renderers, vec![expected]);
}

#[test]
fn a_device_is_named_by_its_host_and_name() {
    let phone = test_device("phone");
    let uuid: [u8; 16] = [
        0xb7, 0x99, 0x43, 0x52, 0xaf, 0x78, 0x5d, 0x49, 0x97, 0x07, 0x4b, 0xf5, 0x30, 0x39, 0x06,
        0x44,
    ];
    assert_eq!(phone.uuid, uuid);
    assert_eq!(phone.brand, "qobine");
    assert_eq!(phone.model, "qobine");
    assert_eq!(phone.max_audio_quality, ConnectQuality::Cd);
    assert!(phone.volume_remote_control);
}

#[test]
fn qualities_correspond() {
    for quality in [
        AudioQuality::Mp3,
        AudioQuality::CD,
        AudioQuality::HIFI96,
        AudioQuality::HIFI192,
    ] {
        assert_eq!(audio_quality(connect_quality(quality)), Some(quality));
    }
    assert_eq!(audio_quality(ConnectQuality::Unknown), None);
    assert_eq!(audio_quality(ConnectQuality::HiresLevel3), Some(AudioQuality::HIFI192));
}

#[test]
fn one_renderer_is_active() {
    let mut renderers = vec![
        ConnectDevice { id: 1, name: "a".to_owned(), active: true },
        ConnectDevice { id: 2, name: "b".to_owned(), active: false },
    ];
    set_active(&mut renderers, Some(2));
    assert_eq!(renderers.iter().map(|r| r.active).collect::<Vec<_>>(), [false, true]);
    set_active(&mut renderers, None);
    assert_eq!(renderers.iter().map(|r| r.active).collect::<Vec<_>>(), [false, false]);
}

#[test]
fn session_items_become_queue_items() {
    let tracks = [
        QueueTrackRef { queue_item_id: 7, track_id: 70 },
        QueueTrackRef { queue_item_id: 8, track_id: 80 },
    ];
    assert_eq!(
        items(&tracks),
        [
            NewQueueItem { track_id: 70, connect_id: 7 },
            NewQueueItem { track_id: 80, connect_id: 8 },
        ]
    );
}

fn queue(connect_ids: &[Option<i32>], playing: usize) -> Tracklist {
    let items = connect_ids
        .iter()
        .enumerate()
        .map(|(i, connect_id)| QueueItem {
            track: Track {
                id: i as u32 + 1,
                duration_seconds: 100,
                status: if i == playing { TrackStatus::Playing } else { TrackStatus::Unplayed },
                ..Track::default()
            },
            queue_id: i as u64,
            index: i,
            connect_id: *connect_id,
        })
        .collect();
    Tracklist::new(TracklistType::Tracks, items)
}

fn view(tracklist: &Tracklist) -> PlayerView<'_> {
    PlayerView {
        tracklist,
        status: Status::Playing,
        position: 5_000_000_000,
        volume: Volume { bits: 0x3f00_0000 },
        volume_percent: 50,
    }
}

fn connection() -> Connect {
    Connect::new(AudioQuality::CD, Volume { bits: 0x3f80_0000 }, 0)
}

const ACTIVE: SessionView = SessionView { active: true, renderer_id: Some(3) };

#[test]
fn a_new_connection_knows_nothing() {
    let connect = connection();
    assert_eq!(connect.max_audio_quality, ConnectQuality::Cd);
    assert!(connect.connected && !connect.muted && !connect.refused && !connect.taking_over);
    assert!(connect.session_queue.is_none() && connect.pending.is_none());
    assert!(connect.renderers.is_empty() && connect.deferred.is_none());
}

#[test]
fn unmuting_restores_the_volume() {
    let tracklist = queue(&[Some(10)], 0);
    let mut connect = connection();
    let muted = connect.handle_command(&ACTIVE, &view(&tracklist), RendererCommand::Mute(true), 0);
    assert!(connect.muted);
    assert!(muted.iter().any(|a| matches!(a, ConnectAction::SetVolume(Volume { bits: 0 }))));
    let again = connect.handle_command(&ACTIVE, &view(&tracklist), RendererCommand::Mute(false), 0);
    assert!(!connect.muted);
    assert!(again
        .iter()
        .any(|a| matches!(a, ConnectAction::SetVolume(Volume { bits: 0x3f00_0000 }))));
}

#[test]
fn an_item_that_is_not_there_yet_is_awaited() {
    let tracklist = queue(&[Some(10)], 0);
    let mut connect = connection();
    let current = QueueTrackRef { queue_item_id: 11, track_id: 2 };
    let jump = RendererCommand::SetState {
        playing: Some(PlayingState::Playing),
        position: None,
        current: Some(current),
    };
    let actions = connect.handle_command(&ACTIVE, &view(&tracklist), jump, 0);
    assert!(!actions.iter().any(|a| matches!(a, ConnectAction::SkipToPosition { .. })));
    assert_eq!(connect.deferred.map(|d| d.current), Some(current));

    assert!(connect.apply_deferred(&tracklist).is_empty());
    let longer = queue(&[Some(10), Some(11)], 0);
    let late = connect.apply_deferred(&longer);
    assert!(connect.deferred.is_none());
    assert!(late.iter().any(|a| matches!(a, ConnectAction::SkipToPosition { index: 1, .. })));
}

#[test]
fn a_session_queue_is_adopted() {
    let mut connect = connection();
    let tracks = vec![QueueTrackRef { queue_item_id: 10, track_id: 1 }];
    let actions = connect.handle_queue(&ACTIVE, QueueEvent::State { tracks, action: None });
    assert_eq!(connect.session_queue, Some(vec![(10, 1)]));
    assert!(actions.iter().any(|a| matches!(
        a,
        ConnectAction::ReplaceQueue { items, .. }
            if *items == vec![NewQueueItem { track_id: 1, connect_id: 10 }]
    )));
    let _ = connect.handle_queue(&ACTIVE, QueueEvent::Cleared { action: None });
    assert_eq!(connect.session_queue, Some(vec![]));
}

#[test]
fn one_queue_change_is_sent_at_a_time() {
    let mut connect = connection();
    connect.session_queue = Some(vec![(10, 1)]);
    let tracklist = queue(&[Some(10), None], 0);
    let first = connect.mirror(&ACTIVE, &tracklist, 0);
    assert!(first.iter().any(|a| matches!(
        a,
        ConnectAction::ControlQueue(ControllerCommand::AddTracks { track_ids, .. })
            if *track_ids == vec![2]
    )));
    connect.control_sent(Some(vec![1, 2, 3]), 0);
    assert!(connect.pending.is_some());
    assert!(connect.mirror(&ACTIVE, &tracklist, 1).is_empty());
}

#[test]
fn the_state_of_the_player_is_told() {
    let tracklist = queue(&[Some(10), Some(11)], 0);
    let connect = connection();
    let state = connect.player_state(&view(&tracklist)).expect("a state");
    assert_eq!(state.playing, PlayingState::Playing);
    assert_eq!(state.buffer, BufferState::Ready);
    assert_eq!(state.position, 5_000_000_000);
    assert_eq!(state.duration, 100_000_000_000);
    assert_eq!(state.current_queue_item_id, Some(10));
    assert_eq!(state.next_queue_item_id, Some(11));
}

#[test]
fn a_volume_is_reported_once() {
    let tracklist = queue(&[Some(10)], 0);
    let mut connect = connection();
    let first = connect.report_volume(&ACTIVE, &view(&tracklist));
    assert!(matches!(first.as_slice(), [ConnectAction::Report(RendererReport::Volume(50))]));
    assert!(connect.report_volume(&ACTIVE, &view(&tracklist)).is_empty());
    let idle = SessionView { active: false, renderer_id: Some(3) };
    let mut other = connection();
    assert!(other.report_volume(&idle, &view(&tracklist)).is_empty());
}

#[test]
fn other_renderers_are_asked_and_activated() {
    let asked = ask_remote_state(&ACTIVE, Some(4));
    assert!(matches!(asked.as_slice(), [ConnectAction::AskRendererState(4)]));
    assert!(ask_remote_state(&ACTIVE, Some(3)).is_empty());
    assert!(ask_remote_state(&ACTIVE, None).is_empty());
    assert!(matches!(activate(&ACTIVE, 3).as_slice(), [ConnectAction::Activate]));
    assert!(matches!(
        activate(&ACTIVE, 4).as_slice(),
        [ConnectAction::Control(ControllerCommand::SetActiveRenderer(4))]
    ));
}

#[test]
fn a_lost_connection_is_noticed() {
    let tracklist = queue(&[Some(10)], 0);
    let mut connect = connection();
    let _ = connect.handle_event(&ACTIVE, &view(&tracklist), SessionEvent::Disconnected, 0);
    assert!(!connect.connected);
    let _ = connect.handle_event(&ACTIVE, &view(&tracklist), SessionEvent::Reconnected, 1);
    assert!(connect.connected);
}

#[test]
fn every_renderer_is_listed_once() {
    let named = |name: &str| device("host", name.to_string(), AudioQuality::CD, String::new());
    let mut renderers = Vec::new();
    for (id, name) in [(1, "a"), (2, "b"), (1, "c")] {
        assert!(update(&mut renderers, RendererEvent::Added { id, device: named(name) }));
    }
    let listed: Vec<(i32, &str)> =
        renderers.iter().map(|renderer| (renderer.id, renderer.name.as_str())).collect();
    assert_eq!(listed, [(1, "c"), (2, "b")]);
    assert!(update(&mut renderers, RendererEvent::Removed { id: 1 }));
    assert_eq!(renderers.len(), 1);
    assert!(!update(&mut renderers, RendererEvent::Other));
}

use qobine::connect::{BufferState, PlayingState};
use qobine::disconnect_client::{hex_text, secret, ClientEvent, ClientRequest, DisconnectClient};
use qobine::disconnect_server::{
    rate_limit_key, sanitize_auth_query, sanitize_device_id, sanitize_device_request, sanitize_id,
    sanitize_secret, sanitize_stream_query, validate_non_empty, AuthQuery, DeviceRequest, Groups,
    RateLimits, Refusal, ServerEvent, StreamQuery, StreamType,
};
use qobine::models::{AudioQuality, Status, Track, TrackStatus, Volume};
use qobine::player_connect::{
    convert_audio_quality, current_state, get_queue_index, is_tellable, ConnectState, PlaybackView,
    PlayerAction, PlayerEvent, PlayerStatus, SessionTrack,
};
use qobine::player_server::{PlayerGroups, PlayerServerEvent};
use qobine::tracklist::{QueueItem, Tracklist, TracklistType};

type Event = ServerEvent<u8>;

fn auth(secret: &str) -> AuthQuery {
    AuthQuery { secret: secret.to_string() }
}

fn named(device_id: &str) -> DeviceRequest {
    DeviceRequest { device_id: device_id.to_string() }
}

fn join(groups: &mut Groups, secret: &str, id: &str, stream_type: StreamType) -> Vec<Event> {
    let query = StreamQuery {
        secret: secret.to_string(),
        device_id: id.to_string(),
        stream_type,
    };
    match groups.stream_handler::<u8>(&query) {
        Ok(joined) => {
            assert_eq!(joined.secret, secret);
            assert_eq!(joined.client_id, id);
            joined.events
        }
        Err(refusal) => panic!("refused with {}", refusal.code()),
    }
}

fn announces(events: &[Event], device: &str) -> bool {
    events.iter().any(|event| matches!(event, ServerEvent::ActiveDevice(name) if name == device))
}

#[test]
fn devices_can_change_disconnect_and_rejoin_while_listener_survives() {
    let mut groups = Groups::new();
    let secret = "happy-path-group";

    let first = join(&mut groups, secret, "device-1", StreamType::Device);
    assert!(announces(&first, "device-1"));
    join(&mut groups, secret, "device-2", StreamType::Device);
    join(&mut groups, secret, "listener-1", StreamType::Listener);

    let state = groups.get_state(&auth(secret)).ok().expect("a state");
    assert_eq!(state.active_device, "device-1");
    assert_eq!(state.available_devices.len(), 2);
    assert!(state.available_devices.contains(&"device-1".to_string()));
    assert!(state.available_devices.contains(&"device-2".to_string()));

    let changed = groups
        .set_active_device::<u8>(&auth(secret), &named("device-2"))
        .ok()
        .expect("a change")
        .expect("an event");
    assert!(matches!(&changed, ServerEvent::ActiveDevice(name) if name == "device-2"));
    assert!(groups.should_send(secret, "device-1", StreamType::Device, &changed));
    assert!(groups.should_send(secret, "device-2", StreamType::Device, &changed));
    assert!(groups.should_send(secret, "listener-1", StreamType::Listener, &changed));

    groups.leave::<u8>(secret, "device-1", StreamType::Device);
    groups.leave::<u8>(secret, "device-2", StreamType::Device);
    assert!(groups.contains(secret));
    let state = groups.get_state(&auth(secret)).ok().expect("a state");
    assert!(state.available_devices.is_empty());

    let third = join(&mut groups, secret, "device-3", StreamType::Device);
    assert!(announces(&third, "device-3"));
    for event in third.iter().filter(|event| announces(std::slice::from_ref(*event), "device-3")) {
        assert!(groups.should_send(secret, "device-3", StreamType::Device, event));
        assert!(groups.should_send(secret, "listener-1", StreamType::Listener, event));
    }
    let state = groups.get_state(&auth(secret)).ok().expect("a state");
    assert_eq!(state.active_device, "device-3");
    assert_eq!(state.available_devices, vec!["device-3".to_string()]);

    groups.leave::<u8>(secret, "device-3", StreamType::Device);
    groups.leave::<u8>(secret, "listener-1", StreamType::Listener);
    assert!(!groups.contains(secret));
    let gone = groups.get_state(&auth(secret)).err().expect("a refusal");
    assert_eq!(gone.code(), 404);
}

#[test]
fn listener_control_command_is_delivered_only_to_active_device() {
    let mut groups = Groups::new();
    let secret = "control-group";
    join(&mut groups, secret, "device-1", StreamType::Device);
    join(&mut groups, secret, "device-2", StreamType::Device);
    join(&mut groups, secret, "listener-1", StreamType::Listener);

    let event = groups
        .control(&auth(secret), &named("listener-1"), 7u8)
        .ok()
        .expect("a command");
    assert!(matches!(event, ServerEvent::Control(7)));
    assert!(groups.should_send(secret, "device-1", StreamType::Device, &event));
    assert!(!groups.should_send(secret, "device-2", StreamType::Device, &event));
    assert!(!groups.should_send(secret, "listener-1", StreamType::Listener, &event));

    groups.leave::<u8>(secret, "device-1", StreamType::Device);
    groups.leave::<u8>(secret, "device-2", StreamType::Device);
    groups.leave::<u8>(secret, "listener-1", StreamType::Listener);
    assert!(!groups.contains(secret));
}

#[test]
fn groups_that_end_make_room_for_others() {
    let mut groups = Groups::new();
    for i in 0..1_000 {
        join(&mut groups, &format!("group-{i}"), "a", StreamType::Device);
    }
    let query = StreamQuery {
        secret: "one-more".to_string(),
        device_id: "a".to_string(),
        stream_type: StreamType::Device,
    };
    assert!(matches!(groups.stream_handler::<u8>(&query), Err(Refusal::TooManyRequests)));
    join(&mut groups, "group-7", "b", StreamType::Device);
    groups.leave::<u8>("group-7", "a", StreamType::Device);
    assert!(matches!(groups.stream_handler::<u8>(&query), Err(Refusal::TooManyRequests)));
    groups.leave::<u8>("group-7", "b", StreamType::Device);
    assert!(groups.stream_handler::<u8>(&query).is_ok());
}

#[test]
fn the_next_device_takes_over() {
    let mut groups = Groups::new();
    join(&mut groups, "s", "a", StreamType::Device);
    join(&mut groups, "s", "b", StreamType::Device);
    let events = groups.leave::<u8>("s", "a", StreamType::Device);
    assert!(announces(&events, "b"));
    assert!(groups.is_active_device("s", "b"));
    assert!(!groups.is_active_device("s", "a"));
}

#[test]
fn only_the_active_device_tells_what_plays() {
    let mut groups = Groups::new();
    join(&mut groups, "s", "a", StreamType::Device);
    join(&mut groups, "s", "b", StreamType::Device);
    let told = groups.set_status::<u8>(&auth("s"), &named("a"), Status::Playing).ok();
    assert!(matches!(told, Some(ServerEvent::Status(Status::Playing))));
    let refused = groups.set_status::<u8>(&auth("s"), &named("b"), Status::Paused).err();
    assert_eq!(refused.map(|r| r.code()), Some(403));
    assert!(groups.set_position::<u8>(&auth("s"), &named("a"), 5).is_ok());
    assert!(groups.set_volume::<u8>(&auth("s"), &named("a"), Volume { bits: 0 }).is_ok());
    assert!(groups.set_auto_play::<u8>(&auth("s"), &named("a"), true).is_ok());
    assert!(groups
        .set_tracklist::<u8>(&auth("s"), &named("a"), Tracklist::default())
        .is_ok());
    let state = groups.get_state(&auth("s")).ok().expect("a state");
    assert_eq!(state.playback_status, Status::Playing);
    assert_eq!(state.position, 5);
    assert_eq!(state.volume, Volume { bits: 0 });
    assert!(state.auto_play);
    let event = groups.set_position::<u8>(&auth("s"), &named("a"), 6).ok().expect("an event");
    assert!(!groups.should_send("s", "a", StreamType::Device, &event));
    assert!(groups.should_send("s", "b", StreamType::Device, &event));
}

#[test]
fn requests_are_refused_with_their_codes() {
    let mut groups = Groups::new();
    assert_eq!(groups.get_state(&auth("")).err().map(|r| r.code()), Some(400));
    assert_eq!(groups.get_state(&auth("s")).err().map(|r| r.code()), Some(404));
    join(&mut groups, "s", "a", StreamType::Device);
    let again = StreamQuery {
        secret: "s".to_string(),
        device_id: "a".to_string(),
        stream_type: StreamType::Listener,
    };
    assert_eq!(groups.stream_handler::<u8>(&again).err().map(|r| r.code()), Some(409));
    for i in 1..1000 {
        join(&mut groups, &format!("group-{i}"), "a", StreamType::Device);
    }
    let one_more = StreamQuery {
        secret: "one-more".to_string(),
        device_id: "a".to_string(),
        stream_type: StreamType::Device,
    };
    assert_eq!(groups.stream_handler::<u8>(&one_more).err().map(|r| r.code()), Some(429));
    assert_eq!(Refusal::Forbidden.code(), 403);
}

#[test]
fn ids_are_sanitized() {
    assert_eq!(sanitize_id("plain"), "plain");
    assert_eq!(sanitize_id("smörgås"), "smrgs");
    assert_eq!(sanitize_id("0123456789012345678901234"), "01234567890123456789");
    let once = sanitize_id("é0123456789012345678901234");
    assert_eq!(sanitize_id(&once), once);
    assert_eq!(sanitize_secret("s"), "s");
    assert_eq!(sanitize_device_id("d"), "d");
    assert!(validate_non_empty("x").is_ok());
    assert_eq!(validate_non_empty("").err().map(|r| r.code()), Some(400));
    assert_eq!(sanitize_auth_query(&auth("abc")).ok(), Some("abc".to_string()));
    assert!(sanitize_auth_query(&auth("é")).is_err());
    assert_eq!(sanitize_device_request(&named("abc")).ok(), Some("abc".to_string()));
    let query = StreamQuery {
        secret: "s".to_string(),
        device_id: "é".to_string(),
        stream_type: StreamType::Device,
    };
    assert!(sanitize_stream_query(&query).is_err());
}

#[test]
fn requests_are_counted_by_secret() {
    assert_eq!(rate_limit_key(Some("abc")), "secret:abc");
    assert_eq!(rate_limit_key(Some("é")), "global");
    assert_eq!(rate_limit_key(None), "global");
    let mut limits = RateLimits::new();
    for i in 0..60 {
        assert!(limits.allow("secret:abc", 1_000_000_000 + i));
    }
    assert!(!limits.allow("secret:abc", 2_000_000_000));
    assert!(limits.allow("global", 2_000_000_000));
    assert!(limits.allow("secret:abc", 11_000_000_100));
}

#[test]
fn the_plain_server_keeps_groups() {
    let mut groups = PlayerGroups::new();
    let state = groups.get_state("s");
    assert!(state.selected_device.is_none());
    assert!(state.available_devices.is_empty());
    groups.stream_handler("s", "a");
    groups.stream_handler("s", "b");
    let event = groups.set_current_device::<u8>("s", "b");
    assert!(matches!(event, PlayerServerEvent::ActiveDevice(name) if name == "b"));
    assert!(groups.is_active_device("s", "b"));
    assert!(groups.set_status::<u8>("s", "b", PlayerStatus::Playing).is_ok());
    assert!(groups.set_status::<u8>("s", "a", PlayerStatus::Playing).is_err());
    assert!(groups.set_position::<u8>("s", "b", 7).is_ok());
    assert!(groups.set_volume::<u8>("s", "b", Volume { bits: 1 }).is_ok());
    assert!(groups.set_tracklist::<u8>("s", "b", Tracklist::default()).is_ok());
    let state = groups.get_state("s");
    assert_eq!(state.selected_device.as_deref(), Some("b"));
    assert_eq!(state.available_devices, ["a", "b"]);
    assert_eq!(state.position, 7);
    groups.leave("s", "a");
    assert_eq!(groups.get_state("s").available_devices, ["b"]);
    assert!(groups.contains("s"));
    assert!(!groups.contains("t"));
    groups.leave("s", "b");
    assert!(!groups.contains("s"));
}

#[test]
fn a_client_is_a_device_unless_it_says_otherwise() {
    assert!(matches!(StreamType::default(), StreamType::Device));
}

#[test]
fn a_secret_is_the_digest_of_a_password() {
    assert_eq!(secret("password"), "5f4dcc3b5aa765d61d8327deb882cf99");
    assert_eq!(secret(""), "d41d8cd98f00b204e9800998ecf8427e");
    assert_eq!(hex_text(&[0, 15, 16, 255]), "000f10ff");
}

#[test]
fn a_client_knows_its_addresses() {
    let client = DisconnectClient::with_secret("http://host", "abc".to_string(), "phone");
    assert_eq!(client.request_url(ClientRequest::State), "http://host/state?secret=abc");
    assert_eq!(
        client.request_url(ClientRequest::CurrentDevice),
        "http://host/current-device?secret=abc"
    );
    assert_eq!(
        client.request_url(ClientRequest::Volume),
        "http://host/volume?secret=abc&device_id=phone"
    );
    assert_eq!(client.stream_url(), "http://host/stream?secret=abc&device_id=phone");
    let with_password = DisconnectClient::new("http://host", "password", "phone");
    assert_eq!(
        with_password.request_url(ClientRequest::State),
        "http://host/state?secret=5f4dcc3b5aa765d61d8327deb882cf99"
    );
}

#[test]
fn a_client_knows_whether_it_plays() {
    let client = DisconnectClient::with_secret("u", "s".to_string(), "phone");
    let here = client.received::<u8>(PlayerServerEvent::ActiveDevice("phone".to_string()));
    assert!(matches!(here, ClientEvent::Active(true)));
    let there = client.received::<u8>(PlayerServerEvent::ActiveDevice("tv".to_string()));
    assert!(matches!(there, ClientEvent::Active(false)));
    assert!(matches!(
        client.received(PlayerServerEvent::Control(9u8)),
        ClientEvent::Control(9)
    ));
    assert!(matches!(
        client.received::<u8>(PlayerServerEvent::Position(4)),
        ClientEvent::Position(4)
    ));
}

fn queue(ids: &[u64], playing: usize) -> Tracklist {
    let items = ids
        .iter()
        .enumerate()
        .map(|(i, queue_id)| QueueItem {
            track: Track {
                id: i as u32 + 100,
                duration_seconds: 60,
                status: if i == playing { TrackStatus::Playing } else { TrackStatus::Unplayed },
                ..Track::default()
            },
            queue_id: *queue_id,
            index: i,
            connect_id: None,
        })
        .collect();
    Tracklist::new(TracklistType::Tracks, items)
}

fn playback(tracklist: &Tracklist) -> PlaybackView<'_> {
    PlaybackView {
        tracklist,
        status: PlayerStatus::Playing,
        position: 3_000_000_000,
        volume_percent: 40,
        timestamp: Some(9),
    }
}

#[test]
fn the_renderer_tells_its_state() {
    let tracklist = queue(&[70, 71], 0);
    let state = current_state(&playback(&tracklist), &vec![70, 71]);
    assert_eq!(state.playing, PlayingState::Playing);
    assert_eq!(state.buffer, BufferState::Ready);
    assert_eq!(state.current_queue_item_id, Some(70));
    assert_eq!(state.next_queue_item_id, Some(71));
    assert_eq!(state.position, 3000);
    assert_eq!(state.duration, Some(60000));
    assert_eq!(state.timestamp, Some(9));
}

#[test]
fn the_renderer_follows_the_queue_of_the_session() {
    let tracklist = queue(&[0, 1], 0);
    let mut state = ConnectState::new(AudioQuality::CD);
    let tracks = |ids: &[u64]| -> Vec<SessionTrack> {
        ids.iter().map(|id| SessionTrack { track_id: *id as u32, queue_item_id: *id }).collect()
    };
    let loaded = state.handle_event(
        &playback(&tracklist),
        PlayerEvent::QueueLoadTracks { tracks: tracks(&[1, 2, 3, 4]), queue_position: None },
    );
    assert!(loaded.iter().any(|a| matches!(a, PlayerAction::NewQueue { .. })));
    assert_eq!(state.queue_ids(), [1, 2, 3, 4]);

    let removed = state.handle_event(
        &playback(&tracklist),
        PlayerEvent::QueueTracksRemoved { queue_item_ids: vec![2] },
    );
    assert!(matches!(removed.as_slice(), [PlayerAction::RemoveIndexFromQueue(1)]));
    assert_eq!(state.queue_ids(), [1, 3, 4]);

    let added = state.handle_event(
        &playback(&tracklist),
        PlayerEvent::QueueTracksAdded { tracks: tracks(&[9]) },
    );
    assert!(matches!(added.as_slice(), [PlayerAction::AddTracksToQueue(ids)] if *ids == vec![9]));
    assert_eq!(state.queue_ids(), [1, 3, 4, 9]);
    assert_eq!(get_queue_index(&state.queue_ids(), 4), Some(2));
}

#[test]
fn qualities_have_numbers() {
    let numbers: Vec<i32> =
        [AudioQuality::Mp3, AudioQuality::CD, AudioQuality::HIFI96, AudioQuality::HIFI192]
            .into_iter()
            .map(convert_audio_quality)
            .collect();
    assert_eq!(numbers, [1, 2, 3, 4]);
}

fn session_tracks(ids: &[u64]) -> Vec<SessionTrack> {
    ids.iter().map(|id| SessionTrack { track_id: *id as u32, queue_item_id: *id }).collect()
}

#[test]
fn session_items_are_inserted_and_reordered() {
    let tracklist = queue(&[0, 1], 0);
    let mut state = ConnectState::new(AudioQuality::CD);
    state.queue_ids = vec![1, 2, 3, 4];
    let inserted = PlayerEvent::QueueTracksInserted {
        tracks: session_tracks(&[8, 9]),
        insert_after: Some(2),
    };
    assert!(state.accepts(&playback(&tracklist), &inserted));
    let actions = state.handle_event(&playback(&tracklist), inserted);
    assert!(matches!(
        actions.as_slice(),
        [PlayerAction::InsertTracksToQueue { tracks, insert_after: 2 }] if *tracks == vec![8, 9]
    ));
    assert_eq!(state.queue_ids(), [1, 2, 8, 9, 3, 4]);

    let reordered =
        PlayerEvent::QueueTracksReordered { queue_item_ids: vec![8, 9], insert_after: 1 };
    assert!(state.accepts(&playback(&tracklist), &reordered));
    let actions = state.handle_event(&playback(&tracklist), reordered);
    assert!(matches!(
        actions.as_slice(),
        [PlayerAction::ReorderQueue(order)] if *order == vec![0, 2, 3, 1, 4, 5]
    ));
    assert_eq!(state.queue_ids(), [1, 8, 9, 2, 3, 4]);

    let nowhere =
        PlayerEvent::QueueTracksReordered { queue_item_ids: vec![8, 9], insert_after: 4 };
    assert!(!state.accepts(&playback(&tracklist), &nowhere));
    let unknown =
        PlayerEvent::QueueTracksReordered { queue_item_ids: vec![77], insert_after: 4 };
    assert!(state.handle_event(&playback(&tracklist), unknown).is_empty());
    state.queue_ids = vec![9];
    let beyond = PlayerEvent::QueueTracksInserted {
        tracks: session_tracks(&[5]),
        insert_after: Some(9),
    };
    assert!(!state.accepts(&playback(&tracklist), &beyond));
    let front = PlayerEvent::QueueTracksInserted {
        tracks: session_tracks(&[5]),
        insert_after: Some(-1),
    };
    let _ = state.handle_event(&playback(&tracklist), front);
    assert_eq!(state.queue_ids(), [5, 9]);
}

#[test]
fn a_state_is_told_only_where_the_queue_is_long_enough() {
    let tracklist = queue(&[0, 1], 0);
    assert!(is_tellable(&playback(&tracklist), &vec![0, 1]));
    assert!(!is_tellable(&playback(&tracklist), &vec![7, 7, 0]));
    let mut state = ConnectState::new(AudioQuality::CD);
    state.queue_ids = vec![7, 7, 0];
    assert!(!state.accepts(&playback(&tracklist), &PlayerEvent::Heartbeat));
    assert!(state.accepts(&playback(&tracklist), &PlayerEvent::Connected));
}

#[test]
fn a_resting_renderer_answers_a_heartbeat_before_its_queue_is_there() {
    let tracklist = queue(&[], 0);
    let mut state = ConnectState::new(AudioQuality::CD);
    state.queue_ids = vec![0];
    for status in [PlayerStatus::Paused, PlayerStatus::Stopped] {
        let resting = PlaybackView { status, ..playback(&tracklist) };
        assert!(state.accepts(&resting, &PlayerEvent::Heartbeat));
        let actions = state.handle_event(&resting, PlayerEvent::Heartbeat);
        assert!(matches!(actions.as_slice(), [PlayerAction::RespondHeartbeat(None)]));
    }
    assert!(!state.accepts(&playback(&tracklist), &PlayerEvent::Heartbeat));
}

#[test]
fn a_connected_renderer_reports_changes() {
    let tracklist = queue(&[0, 1], 0);
    let mut state = ConnectState::new(AudioQuality::CD);
    state.queue_ids = vec![0, 1];
    assert!(state.handle_playback_changed(&playback(&tracklist)).is_empty());
    assert!(state.handle_volume_changed(&playback(&tracklist)).is_empty());
    let _ = state.handle_event(&playback(&tracklist), PlayerEvent::Connected);
    let told = current_state(&playback(&tracklist), &state.queue_ids());
    assert!(matches!(
        state.handle_playback_changed(&playback(&tracklist)).as_slice(),
        [PlayerAction::ReportState(reported)] if *reported == told
    ));
    assert!(matches!(
        state.handle_volume_changed(&playback(&tracklist)).as_slice(),
        [PlayerAction::ReportVolume(40)]
    ));
    let _ = state.handle_event(&playback(&tracklist), PlayerEvent::Disconnected);
    assert!(state.handle_playback_changed(&playback(&tracklist)).is_empty());
}

#[test]
fn the_session_sets_state_and_volume() {
    let tracklist = queue(&[0, 1], 0);
    let mut state = ConnectState::new(AudioQuality::HIFI96);
    state.queue_ids = vec![0, 1];
    let told = current_state(&playback(&tracklist), &state.queue_ids());
    let jump = PlayerEvent::SetState {
        playing: PlayingState::Playing,
        position_ms: Some(5),
        current_queue_item_id: Some(1),
    };
    let actions = state.handle_event(&playback(&tracklist), jump);
    assert!(matches!(
        actions.as_slice(),
        [
            PlayerAction::Play,
            PlayerAction::Seek(5_000_000),
            PlayerAction::SkipToPosition { index: 1, force: true },
            PlayerAction::Seek(0),
            PlayerAction::RespondState(answer),
        ] if *answer == told
    ));
    let same = state
        .handle_event(&playback(&tracklist), PlayerEvent::SetVolume { volume: Some(40) });
    assert!(matches!(same.as_slice(), [PlayerAction::RespondVolume(Some(40))]));
    let louder = state
        .handle_event(&playback(&tracklist), PlayerEvent::SetVolume { volume: Some(41) });
    assert!(matches!(
        louder.as_slice(),
        [PlayerAction::SetVolumePercent(41), PlayerAction::RespondVolume(Some(41))]
    ));
    let active = state.handle_event(&playback(&tracklist), PlayerEvent::SetActive);
    assert!(matches!(
        active.as_slice(),
        [PlayerAction::RespondActivation { muted: false, volume: 40, max_quality: 3, playback }]
            if *playback == told
    ));
    let beat = state.handle_event(&playback(&tracklist), PlayerEvent::Heartbeat);
    assert!(matches!(
        beat.as_slice(),
        [PlayerAction::RespondHeartbeat(Some(answer))] if *answer == told
    ));
}

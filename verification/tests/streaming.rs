use qobine::cmaf::{
    parse_init_segment, parse_segment_crypto, read_box_size, Cursor, QBZ_INIT_UUID,
    QBZ_SEGMENT_UUID,
};
use qobine::crypto::{
    decode_outcome, decrypt_frame, derive_session_key, hex_decode, take_unwrap_vector,
    take_unwrapped_key, unwrap_content_key,
};
use qobine::error::{stream_error, stream_error_with, Error};
use qobine::file_cache::{
    after_rename, checked_url, expected_length, finalize_cache, track_url, FinalizeStep,
};
use qobine::flac_source::{
    data_after_skip, CacheStep, FlacSourceParams, SegmentByteInfo, SegmentSource,
    SharedDownloadState,
};
use qobine::segment_fetch::{decode_segment, segment_text, SegmentFetch};
use qobine::stream_reader::SeekableStreamReader;

const INFOS: &str = "c2FsdC1vZi10aGUtc2Vzc2lvbg.aW5mby1vZi1zZXNzaW9u";
const KEY_STR: &str = "qbz-1.Cz8O_hqmJLqtI6r2SM4HwvuUXKHeWyDDlt9AFSaF-d0.ZGVmZ2hpamtsbW5vcHFycw";
const SESSION_KEY: [u8; 16] = [
    0xa1, 0x87, 0x26, 0x40, 0xac, 0xc0, 0x36, 0x1c, 0xe0, 0x18, 0x0b, 0x37, 0xf9, 0x71, 0x7a, 0x68,
];
const CONTENT_KEY: [u8; 16] = [16, 17, 18, 19, 20, 21, 22, 23, 24, 25, 26, 27, 28, 29, 30, 31];

fn message(error: Error) -> String {
    match error {
        Error::Stream { message } => message,
        _ => panic!("expected a stream error"),
    }
}

#[test]
fn hexadecimal_notation_is_decoded() {
    assert_eq!(hex_decode("00fFa1").ok(), Some(vec![0, 255, 161]));
    assert_eq!(hex_decode("").ok(), Some(vec![]));
    assert_eq!(message(hex_decode("abc").err().unwrap()), "hex string must have an even length");
    assert_eq!(
        message(hex_decode("00zz").err().unwrap()),
        "hex decode error at byte 1: invalid digit found in string"
    );
    assert!(message(hex_decode("aéa").err().unwrap()).starts_with("invalid UTF-8 in hex byte 0: "));
}

#[test]
fn a_session_key_is_derived() {
    assert_eq!(derive_session_key(INFOS).ok(), Some(SESSION_KEY));
    assert_eq!(
        message(derive_session_key("c2FsdA").err().unwrap()),
        "session infos must have at least 2 dot-separated parts"
    );
    assert!(message(derive_session_key("!.aW5m").err().unwrap())
        .starts_with("failed to decode session salt: "));
    assert!(message(derive_session_key("aW5m.!").err().unwrap())
        .starts_with("failed to decode session info: "));
}

#[test]
fn a_content_key_is_unwrapped() {
    assert_eq!(unwrap_content_key(&SESSION_KEY, KEY_STR).ok(), Some(CONTENT_KEY));
    let fault = |text: &str| message(unwrap_content_key(&SESSION_KEY, text).err().unwrap());
    assert_eq!(fault("qbz-1.abc"), "key string must have at least 3 dot-separated parts");
    assert!(fault("qbz-1.!.ZGVm").starts_with("failed to decode wrapped key: "));
    assert!(fault("qbz-1.ZGVm.!").starts_with("failed to decode unwrap IV: "));
    assert_eq!(fault("qbz-1.ZGVm.ZGVm"), "unwrap IV must be 16 bytes, got 3");
    assert!(fault("qbz-1.ZGVm.ZGVmZ2hpamtsbW5vcHFycw").starts_with("AES-CBC unwrap failed: "));
    assert_eq!(
        fault("qbz-1.M-AQa8fr6r-3T0_iGWDwtA.ZGVmZ2hpamtsbW5vcHFycw"),
        "unwrapped key must be 16 bytes, got 5"
    );
}

const PLAIN: &[u8; 20] = b"twenty bytes of flac";
const CIPHER: [u8; 20] = [
    0x72, 0xd9, 0x66, 0x18, 0x70, 0x19, 0x06, 0x8c, 0x54, 0x94, 0x85, 0xc1, 0x8c, 0xe3, 0xfd, 0xc9,
    0x02, 0x7a, 0xae, 0x71,
];
const IV: [u8; 8] = [1, 2, 3, 4, 5, 6, 7, 8];

#[test]
fn a_frame_is_decrypted_and_decryption_undoes_itself() {
    let mut data = CIPHER;
    decrypt_frame(&CONTENT_KEY, &IV, &mut data);
    assert_eq!(&data, PLAIN);
    decrypt_frame(&CONTENT_KEY, &IV, &mut data);
    assert_eq!(data, CIPHER);
}

fn boxed(kind: &[u8; 4], body: &[u8]) -> Vec<u8> {
    let mut out = (body.len() as u32 + 8).to_be_bytes().to_vec();
    out.extend_from_slice(kind);
    out.extend_from_slice(body);
    out
}

fn init_segment(segments: &[(u32, u32)]) -> Vec<u8> {
    let mut header = b"..fLaC".to_vec();
    header.extend_from_slice(&[0u8; 38]);
    let mut body = QBZ_INIT_UUID.to_vec();
    body.extend_from_slice(&[0u8; 26]);
    body.extend_from_slice(&(header.len() as u16).to_be_bytes());
    body.extend_from_slice(&header);
    body.push(2);
    body.extend_from_slice(&[9, 9]);
    body.extend_from_slice(&(segments.len() as u16).to_be_bytes());
    for (bytes, samples) in segments {
        body.extend_from_slice(&bytes.to_be_bytes());
        body.extend_from_slice(&samples.to_be_bytes());
    }
    let mut data = boxed(b"ftyp", b"qbz1");
    data.extend_from_slice(&boxed(b"uuid", &body));
    data
}

#[test]
fn the_first_segment_holds_the_header_and_the_table() {
    let info = parse_init_segment(&init_segment(&[(25, 4096), (7, 100)])).ok().expect("a header");
    assert_eq!(info.flac_header.len(), 42);
    assert_eq!(&info.flac_header[..4], b"fLaC");
    assert_eq!(info.flac_header[4], 0x80);
    let table: Vec<(u32, u32)> =
        info.segment_table.iter().map(|e| (e.byte_len, e.sample_count)).collect();
    assert_eq!(table, [(25, 4096), (7, 100)]);
    assert_eq!(
        message(parse_init_segment(&boxed(b"ftyp", b"")).err().unwrap()),
        "init segment: QBZ_INIT_UUID box not found"
    );
    let mut short = QBZ_INIT_UUID.to_vec();
    short.extend_from_slice(&[0u8; 10]);
    assert_eq!(
        message(parse_init_segment(&boxed(b"uuid", &short)).err().unwrap()),
        "init UUID payload too short"
    );
    let mut no_magic = QBZ_INIT_UUID.to_vec();
    no_magic.extend_from_slice(&[0u8; 40]);
    assert_eq!(
        message(parse_init_segment(&boxed(b"uuid", &no_magic)).err().unwrap()),
        "init UUID payload: fLaC magic not found"
    );
}

/// A segment of one encrypted and one plain frame, with audio behind them.
fn segment() -> Vec<u8> {
    let mut table = QBZ_SEGMENT_UUID.to_vec();
    let entries = 2 * 16;
    let offset = (8 + 16 + 4 + 4 + 4 + entries + 8) as u32;
    table.extend_from_slice(&[0u8; 4]);
    table.extend_from_slice(&offset.to_be_bytes());
    table.push(8);
    table.extend_from_slice(&[0, 0, 2]);
    for (size, flags, iv) in [(20u32, 1u16, IV), (3, 0, [0u8; 8])] {
        table.extend_from_slice(&size.to_be_bytes());
        table.extend_from_slice(&[0, 0]);
        table.extend_from_slice(&flags.to_be_bytes());
        table.extend_from_slice(&iv);
    }
    let mut audio = CIPHER.to_vec();
    audio.extend_from_slice(b"abc");
    audio.extend_from_slice(b"tail");
    let mut data = boxed(b"uuid", &table);
    data.extend_from_slice(&boxed(b"mdat", &audio));
    data
}

const AUDIO: &[u8] = b"twenty bytes of flacabctail";

#[test]
fn the_table_of_a_segment_is_read() {
    let data = segment();
    let crypto = parse_segment_crypto(&data).ok().expect("a table");
    assert_eq!(crypto.mdat_end, data.len());
    assert_eq!(&data[crypto.data_offset..crypto.data_offset + 20], &CIPHER);
    assert_eq!(crypto.entries.len(), 2);
    assert_eq!((crypto.entries[0].size, crypto.entries[0].flags, crypto.entries[0].iv), (20, 1, IV));
    assert_eq!(
        message(parse_segment_crypto(b"").err().unwrap()),
        "audio segment: QBZ_SEGMENT_UUID box not found"
    );
    let mut table = QBZ_SEGMENT_UUID.to_vec();
    table.extend_from_slice(&[0, 0, 0, 0, 0, 0, 0, 0, 8, 0, 0, 9]);
    assert_eq!(
        message(parse_segment_crypto(&boxed(b"uuid", &table)).err().unwrap()),
        "segment UUID: not enough data for 9 entries of 16 bytes"
    );
}

#[test]
fn a_foreign_box_in_front_shifts_the_offsets() {
    let data = segment();
    let alone = parse_segment_crypto(&data).ok().expect("a table");
    let mut shifted = boxed(b"free", &[7, 7, 7]);
    shifted.extend_from_slice(&data);
    let behind = parse_segment_crypto(&shifted).ok().expect("a table");
    assert_eq!(behind.data_offset, alone.data_offset + 11);
    assert_eq!(behind.mdat_end, alone.mdat_end + 11);
    assert_eq!(behind.entries.len(), 2);
    for (one, other) in behind.entries.iter().zip(&alone.entries) {
        assert_eq!((one.size, one.flags, one.iv), (other.size, other.flags, other.iv));
    }
    assert!(parse_segment_crypto(&boxed(b"free", &[7, 7, 7])).is_err());
}

#[test]
fn the_rest_of_a_segment_beyond_the_stream_can_still_be_sent() {
    let mut state = SharedDownloadState::create(params(2)).ok().expect("a state");
    let mut fetch = SegmentFetch::new(9, CONTENT_KEY, 0, 0);
    let mut sent = fetch.feed(&segment()).ok().expect("a step").send;
    sent.extend_from_slice(&fetch.rest());
    assert_eq!(sent, AUDIO);
    assert_eq!(
        fetch.finish(&mut state).err().as_deref(),
        Some("Segment 9: download index out of bounds")
    );
}

#[test]
fn a_foreign_box_before_an_init_segment_changes_nothing() {
    let data = init_segment(&[(25, 4096), (7, 100)]);
    let alone = parse_init_segment(&data).ok().expect("a header");
    for kind in [b"free", b"mdat"] {
        let mut longer = boxed(kind, &[7, 7, 7]);
        longer.extend_from_slice(&data);
        let behind = parse_init_segment(&longer).ok().expect("a header");
        assert_eq!(behind.flac_header, alone.flac_header);
        assert_eq!(behind.segment_table.len(), 2);
        assert_eq!(behind.segment_table[1].byte_len, alone.segment_table[1].byte_len);
    }
    assert_eq!(
        message(parse_init_segment(&boxed(b"free", &[7])).err().unwrap()),
        "init segment: QBZ_INIT_UUID box not found"
    );
}

#[test]
fn a_track_is_fetched_from_an_address() {
    assert_eq!(track_url("HTTPS://Host/a b").ok().as_deref(), Some("https://host/a%20b"));
    assert_eq!(
        message(track_url("no address").err().unwrap()),
        "invalid track URL: relative URL without a base"
    );
    assert_eq!(checked_url(Ok("x".to_string())).ok().as_deref(), Some("x"));
    assert_eq!(
        message(checked_url(Err("empty host".to_string())).err().unwrap()),
        "invalid track URL: empty host"
    );
}

#[test]
fn a_whole_segment_is_decoded() {
    assert_eq!(decode_segment(&segment(), &CONTENT_KEY).as_deref(), Some(AUDIO));
    let mut cut = segment();
    cut.truncate(90);
    assert!(decode_segment(&cut, &CONTENT_KEY).is_none());
}

fn params(n: u32) -> FlacSourceParams {
    FlacSourceParams {
        url_template: "https://host/$SEGMENT$.mp4".to_string(),
        n_segments: n + 1,
        content_key: Some(CONTENT_KEY),
        flac_header: b"HEADER".to_vec(),
        cache_path: "/cache/track".to_string(),
        segment_map: (0..n)
            .map(|i| SegmentByteInfo { byte_offset: u64::from(i) * 10, byte_len: 10 })
            .collect(),
    }
}

#[test]
fn a_segment_that_comes_in_pieces_is_sent_as_it_is() {
    let data = segment();
    for size in [1usize, 7, 50, 500] {
        let mut state = SharedDownloadState::create(params(2)).ok().expect("a state");
        let mut fetch = SegmentFetch::new(1, CONTENT_KEY, 0, 0);
        let mut sent: Vec<u8> = Vec::new();
        for chunk in data.chunks(size) {
            let step = fetch.feed(chunk).ok().expect("a step");
            sent.extend_from_slice(&step.send);
        }
        sent.extend_from_slice(&fetch.rest());
        assert!(fetch.finish(&mut state).is_ok());
        assert_eq!(sent, AUDIO);
        assert_eq!(state.downloaded[0].as_deref(), Some(AUDIO));
    }
}

#[test]
fn skipped_and_already_sent_bytes_are_not_sent_again() {
    let data = segment();
    let mut state = SharedDownloadState::create(params(2)).ok().expect("a state");
    let mut fetch = SegmentFetch::new(1, CONTENT_KEY, 4, 6);
    let mut sent: Vec<u8> = Vec::new();
    for chunk in data.chunks(9) {
        sent.extend_from_slice(&fetch.feed(chunk).ok().expect("a step").send);
    }
    sent.extend_from_slice(&fetch.rest());
    assert!(fetch.finish(&mut state).is_ok());
    assert_eq!(state.downloaded[0].as_deref(), Some(AUDIO));
    assert!(AUDIO.ends_with(&sent));
    assert_eq!(sent.len() + 10, AUDIO.len());
}

#[test]
fn a_truncated_segment_is_reported() {
    assert_eq!(segment_text(3, "failed"), "Segment 3: failed");
    let fetch = SegmentFetch::new(3, CONTENT_KEY, 0, 0);
    assert_eq!(fetch.truncated(), "Segment 3: truncated before header");
}

#[test]
fn a_seek_finds_its_segment() {
    let state = SharedDownloadState::create(params(3)).ok().expect("a state");
    let target = state.seek_range(17).ok().expect("a target");
    assert_eq!((target.segment, target.skip), (2, 1));
    let first = state.seek_range(6).ok().expect("a target");
    assert_eq!((first.segment, first.skip), (1, 0));
    assert!(state.segment_url(2).contains('2'));
}

#[test]
fn a_track_is_written_once_it_is_complete() {
    let mut state = SharedDownloadState::create(params(2)).ok().expect("a state");
    assert!(state.needs_download(1));
    assert_eq!(state.fill_missing_segments(), [1, 2]);
    assert!(matches!(state.try_write_cache(), CacheStep::Incomplete));
    state.store_complete(1, b"one".to_vec());
    assert!(!state.needs_download(1));
    assert!(!state.forward_complete(1));
    state.store_complete(2, b"two".to_vec());
    assert!(state.forward_complete(1));
    match state.try_write_cache() {
        CacheStep::Write(bytes) => assert_eq!(bytes, b"HEADERonetwo"),
        _ => panic!("expected the track"),
    }
    assert!(matches!(state.try_write_cache(), CacheStep::AlreadyWritten));
    state.cache_failed();
    assert!(matches!(state.try_write_cache(), CacheStep::Write(_)));
}

#[test]
fn what_is_there_is_not_fetched_again() {
    let mut state = SharedDownloadState::create(params(2)).ok().expect("a state");
    let step = state.download_step(1, 1, 3, 0).ok().expect("a step");
    assert!(matches!(step.source, SegmentSource::Network));
    assert_eq!(step.prefetch, Some(2));
    state.store_complete(1, b"0123456789".to_vec());
    let step = state.download_step(1, 1, 3, 4).ok().expect("a step");
    match step.source {
        SegmentSource::Memory { send } => assert_eq!(send, b"456789"),
        _ => panic!("expected what is there"),
    }
    assert_eq!(data_after_skip(&b"abc".to_vec(), 1), b"bc");
    assert_eq!(data_after_skip(&b"abc".to_vec(), 3), b"");
    assert_eq!(data_after_skip(&b"abc".to_vec(), 9), b"abc");
    assert_eq!(state.key_bytes(), CONTENT_KEY);
}

#[test]
fn gaps_are_filled_by_one_task() {
    let mut state = SharedDownloadState::create(params(3)).ok().expect("a state");
    state.store_complete(3, b"x".to_vec());
    assert!(state.maybe_spawn_gap_fill(3));
    assert!(!state.maybe_spawn_gap_fill(3));
    state.finish_gap_fill();
    assert!(state.maybe_spawn_gap_fill(3));
}

#[test]
fn boxes_and_numbers_are_read() {
    assert_eq!(read_box_size(&boxed(b"mdat", b"abcd"), 0), 12);
    assert_eq!(read_box_size(b"", 0), 0);
    let mut cursor = Cursor::new(&[1, 2, 3, 4, 5, 6, 7, 8, 9, 10]);
    assert_eq!(cursor.take_u8(), Some(1));
    assert_eq!(cursor.take_u16(), Some(0x0203));
    assert_eq!(cursor.take_u24(), Some(0x04_0506));
    assert_eq!(cursor.take_u32(), Some(0x0708_090a));
    assert_eq!(cursor.take_u8(), None);
}

#[test]
fn positions_count_from_the_end() {
    let mut reader = SeekableStreamReader::new(7u8, 100);
    assert_eq!(reader.content_length(), 100);
    assert_eq!(reader.position_from_end(-10).ok(), Some(90));
    assert_eq!(reader.position_from_end(0).ok(), Some(100));
    assert!(reader.position_from_end(-101).is_err());
    *reader.inner_mut() = 8;
    let huge = SeekableStreamReader::new((), u64::MAX);
    assert!(huge.position_from_end(0).is_err());
    let large = SeekableStreamReader::new((), i64::MAX as u64);
    assert!(large.position_from_end(1).is_err());
}

#[test]
fn files_are_kept_when_they_are_complete() {
    assert_eq!(expected_length(Some(5)), (5, true));
    assert_eq!(expected_length(None), (0, false));
    assert_eq!(finalize_cache(Some(5), 5), FinalizeStep::Rename);
    assert_eq!(finalize_cache(Some(4), 5), FinalizeStep::Discard);
    assert_eq!(finalize_cache(None, 5), FinalizeStep::Nothing);
    assert_eq!(after_rename(true), FinalizeStep::Nothing);
    assert_eq!(after_rename(false), FinalizeStep::Discard);
}

#[test]
fn errors_are_shown() {
    assert_eq!(message(stream_error("x")), "x");
    assert_eq!(message(stream_error_with("invalid track URL: ", "y")), "invalid track URL: y");
    assert!(stream_error("broken").display().contains("broken"));
}

#[test]
fn what_a_cipher_gives_is_checked() {
    assert_eq!(decode_outcome("salt", Ok(vec![1, 2])).ok(), Some(vec![1, 2]));
    assert_eq!(
        message(decode_outcome("salt", Err("odd".to_string())).err().unwrap()),
        "failed to decode salt: odd"
    );
    assert_eq!(take_unwrap_vector(vec![7; 16]).ok(), Some([7; 16]));
    assert_eq!(
        message(take_unwrap_vector(vec![7; 15]).err().unwrap()),
        "unwrap IV must be 16 bytes, got 15"
    );
    assert_eq!(take_unwrapped_key(Ok(vec![9; 16])).ok(), Some([9; 16]));
    assert_eq!(
        message(take_unwrapped_key(Ok(Vec::new())).err().unwrap()),
        "unwrapped key must be 16 bytes, got 0"
    );
    assert_eq!(
        message(take_unwrapped_key(Err("unpad".to_string())).err().unwrap()),
        "AES-CBC unwrap failed: unpad"
    );
}

#[test]
fn a_seek_lands_in_the_segment_of_its_byte() {
    let state = SharedDownloadState::create(FlacSourceParams {
        url_template: "u".to_string(),
        n_segments: 3,
        content_key: None,
        flac_header: vec![0; 42],
        cache_path: "c".to_string(),
        segment_map: vec![
            SegmentByteInfo { byte_offset: 0, byte_len: 100 },
            SegmentByteInfo { byte_offset: 100, byte_len: 50 },
        ],
    })
    .ok()
    .unwrap();
    let at = |start: u64| state.seek_range(start).ok().map(|target| (target.segment, target.skip));
    assert_eq!(at(42), Some((1, 0)));
    assert_eq!(at(141), Some((1, 99)));
    assert_eq!(at(142), Some((2, 0)));
    assert_eq!(at(191), Some((2, 49)));
    assert_eq!(at(500), Some((2, 358)));
}

#[test]
fn a_segment_taken_up_again_is_sent_once() {
    let data = segment();
    let mut state = SharedDownloadState::create(params(2)).ok().expect("a state");
    let mut first = SegmentFetch::new(1, CONTENT_KEY, 3, 0);
    let mut sent: Vec<u8> = Vec::new();
    for chunk in data[..data.len() - 1].chunks(11) {
        sent = first.feed(chunk).ok().expect("a step").send;
        if !sent.is_empty() {
            break;
        }
    }
    assert!(!sent.is_empty());
    assert!(first.persist(&mut state).is_ok());
    assert_eq!(state.in_progress[0].as_ref(), Some(first.decrypted()));

    let step = state.download_step(1, 1, 2, 3).ok().expect("a step");
    let (mut again, already_sent) = match step.source {
        SegmentSource::Partial { send, already_sent } => (send, already_sent),
        _ => panic!("nothing was kept"),
    };
    let mut second = SegmentFetch::new(1, CONTENT_KEY, 3, already_sent);
    for chunk in data.chunks(20) {
        again.extend_from_slice(&second.feed(chunk).ok().expect("a step").send);
    }
    again.extend_from_slice(&second.rest());
    assert!(second.finish(&mut state).is_ok());
    assert_eq!(again, AUDIO[3..]);
    assert_eq!(state.in_progress[0], None);
    assert_eq!(state.store_partial(5, &vec![1]), None);
}

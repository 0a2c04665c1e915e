//! What holds of the way from an encrypted stream to audio: keys, segments, seeks and the cache.

use vstd::prelude::*;
use vstd::utf8::{encode_utf8, is_ascii_chars_encode_utf8};
use crate::crypto::{
    aes128_cbc_pkcs7, aes128_ctr_keystream, base64url, decode_outcome, decrypt_frame,
    derive_session_key, frame_nonce, hex_bytes, hex_decode, hex_digit, hex_pair, hkdf_sha256,
    is_bad_pair, pairs, take_unwrap_vector, take_unwrapped_key, unwrap_content_key, RNG_INIT,
};
use crate::error::Error;
use crate::file_cache::{after_rename, expected_length, finalize_cache, FinalizeStep};
use crate::flac_source::{
    data_after_skip, ends_behind, filled, is_gapless, joined, law_a_seek_finds_its_byte, wanting,
    CacheStep, FlacSourceParams, FlacStreamError, SeekFault, SeekTarget, SegmentByteInfo,
    SegmentSource, SegmentStep, SharedDownloadState,
};
use crate::sequences::{
    first_match, lemma_first_match, lemma_first_match_is_first, lemma_match_exists, lemma_no_match,
};
use crate::stream_reader::{EndSeekFault, SeekableStreamReader};
use crate::text::{lemma_split_len, replaced, split, text_at};
use crate::text_laws::value_of;

verus! {

/// Each byte of a frame is combined with its byte of the keystream of the key and of the vector of
/// the frame, which eight zeros follow, whatever the length of the frame.
pub proof fn law_a_frame_is_combined_with_its_keystream(
    key: &[u8; 16],
    iv: &[u8; 8],
    data: &mut [u8],
    i: int,
)
    requires
        call_ensures(decrypt_frame, (key, iv, data), ()),
        0 <= i < old(data)@.len(),
    ensures
        final(data)@.len() == old(data)@.len(),
        final(data)@[i] == old(data)@[i] ^ aes128_ctr_keystream(
            key@,
            iv@ + seq![0u8, 0u8, 0u8, 0u8, 0u8, 0u8, 0u8, 0u8],
            i,
        ),
{
    assert(frame_nonce(iv@) =~= iv@ + seq![0u8, 0u8, 0u8, 0u8, 0u8, 0u8, 0u8, 0u8]);
}

/// A character is the digit of a number below sixteen.
pub open spec fn is_digit_of(c: char, n: int) -> bool {
    ||| 0 <= n < 10 && c as int == 48 + n
    ||| 10 <= n < 16 && c as int == 87 + n
    ||| 10 <= n < 16 && c as int == 55 + n
}

/// A text is the notation of bytes: two digits for each, the higher one first.
pub open spec fn is_notation_of(text: Seq<char>, b: Seq<u8>) -> bool {
    &&& text.len() == 2 * b.len()
    &&& forall|i: int|
        0 <= i < b.len() ==> is_digit_of(text[2 * i], (#[trigger] b[i]) as int / 16) && is_digit_of(
            text[2 * i + 1],
            b[i] as int % 16,
        )
}

proof fn lemma_notation(text: Seq<char>, b: Seq<u8>)
    requires
        is_notation_of(text, b),
    ensures
        hex_bytes(encode_utf8(text)) == Ok::<Seq<u8>, Seq<char>>(b),
{
    assert forall|k: int| 0 <= k < text.len() implies '\0' <= #[trigger] text[k]
        <= '\u{7f}' by {
        let i = k / 2;
        assert(0 <= i < b.len());
        assert(is_digit_of(text[2 * i], b[i] as int / 16));
        assert(k == 2 * i || k == 2 * i + 1);
    }
    is_ascii_chars_encode_utf8(text);
    let e = encode_utf8(text);
    assert(e.len() == text.len());
    assert forall|i: int| 0 <= i < pairs(e).len() implies !is_bad_pair()(#[trigger] pairs(e)[i])
        && hex_pair(pairs(e)[i]) == Some(b[i] as int) by {
        assert(is_digit_of(text[2 * i], b[i] as int / 16));
        assert(e[2 * i] == text[2 * i] as u8);
        assert(e[2 * i + 1] == text[2 * i + 1] as u8);
        assert(hex_digit(e[2 * i]) == Some(b[i] as int / 16));
        assert(hex_digit(e[2 * i + 1]) == Some(b[i] as int % 16));
    }
    lemma_no_match(pairs(e), is_bad_pair());
    assert(Seq::new(pairs(e).len(), |i: int| hex_pair(pairs(e)[i])->0 as u8) =~= b);
}

/// Hexadecimal notation is read as the bytes that it is the notation of, in upper and lower case.
pub proof fn law_hexadecimal_notation_is_read(hex: &str, r: Result<Vec<u8>, Error>, b: Seq<u8>)
    requires
        call_ensures(hex_decode, (hex,), r),
        is_notation_of(hex@, b),
    ensures
        r matches Ok(bytes) && bytes@ == b,
{
    lemma_notation(hex@, b);
}

/// A text with a character that is no digit, nor a plus sign, is no notation, and neither is one
/// with a digit too many.
pub proof fn law_other_texts_are_no_notation(hex: &str, r: Result<Vec<u8>, Error>, at: int)
    requires
        call_ensures(hex_decode, (hex,), r),
        forall|k: int| 0 <= k < hex@.len() ==> '\0' <= #[trigger] hex@[k] <= '\u{7f}',
        0 <= at < hex@.len(),
        hex@.len() % 2 == 1 || (hex@[at] != '+' && forall|n: int| !#[trigger] is_digit_of(hex@[at], n)),
    ensures
        r is Err,
{
    is_ascii_chars_encode_utf8(hex@);
    let e = encode_utf8(hex@);
    if hex@.len() % 2 == 0 {
        let i = at / 2;
        let c = hex@[at] as int;
        assert(!is_digit_of(hex@[at], c - 48));
        assert(!is_digit_of(hex@[at], c - 87));
        assert(!is_digit_of(hex@[at], c - 55));
        assert(e[at] == hex@[at] as u8);
        assert(hex_digit(e[at]) is None);
        assert(at == 2 * i || at == 2 * i + 1);
        assert(is_bad_pair()(pairs(e)[i]));
        lemma_match_exists(pairs(e), is_bad_pair(), i);
    }
}

proof fn lemma_split_behind(a: Seq<char>, b: Seq<char>, sep: char)
    requires
        !b.contains(sep),
    ensures
        split(a + seq![sep] + b, sep) == split(a, sep).push(b),
    decreases b.len(),
{
    let s = a + seq![sep] + b;
    if b.len() == 0 {
        assert(s.drop_last() =~= a);
        assert(b =~= Seq::<char>::empty());
        assert(split(s, sep) =~= split(a, sep).push(b));
    } else {
        let front = b.drop_last();
        assert forall|k: int| 0 <= k < front.len() implies front[k] != sep by {
            assert(b[k] != sep);
        }
        assert(b[b.len() - 1] != sep);
        lemma_split_behind(a, front, sep);
        assert(s.drop_last() =~= a + seq![sep] + front);
        assert(front.push(b.last()) =~= b);
        assert(split(s, sep) =~= split(a, sep).push(b));
    }
}

proof fn lemma_split_whole(a: Seq<char>, sep: char)
    requires
        !a.contains(sep),
    ensures
        split(a, sep) == seq![a],
    decreases a.len(),
{
    if a.len() == 0 {
        assert(a =~= Seq::<char>::empty());
        assert(split(a, sep) =~= seq![a]);
    } else {
        let front = a.drop_last();
        assert forall|k: int| 0 <= k < front.len() implies front[k] != sep by {
            assert(a[k] != sep);
        }
        assert(a[a.len() - 1] != sep);
        lemma_split_whole(front, sep);
        assert(split(front, sep).drop_last() =~= Seq::<Seq<char>>::empty());
        assert(front.push(a.last()) =~= a);
        assert(split(a, sep) =~= seq![a]);
    }
}

/// The session key is derived from the salt before the dot and the info behind it, with one fixed
/// input; there is one exactly where both can be decoded.
pub proof fn law_a_session_key_is_derived(
    infos: &str,
    salt: Seq<char>,
    info: Seq<char>,
    r: Result<[u8; 16], Error>,
)
    requires
        call_ensures(derive_session_key, (infos,), r),
        infos@ == salt + seq!['.'] + info,
        !salt.contains('.'),
        !info.contains('.'),
    ensures
        r is Ok <==> base64url(salt) is Ok && base64url(info) is Ok,
        r matches Ok(key) ==> key@ == hkdf_sha256(
            base64url(salt)->Ok_0,
            seq![
                0xabu8,
                0xb2u8,
                0x13u8,
                0x64u8,
                0x94u8,
                0x5cu8,
                0x05u8,
                0x83u8,
                0x30u8,
                0x96u8,
                0x67u8,
                0xd1u8,
                0x3cu8,
                0xa3u8,
                0xd9u8,
                0x3au8,
            ],
            base64url(info)->Ok_0,
        ),
{
    lemma_split_whole(salt, '.');
    lemma_split_behind(salt, info, '.');
    reveal_strlit("abb21364945c0583309667d13ca3d93a");
    lemma_notation(
        RNG_INIT@,
        seq![
            0xabu8,
            0xb2u8,
            0x13u8,
            0x64u8,
            0x94u8,
            0x5cu8,
            0x05u8,
            0x83u8,
            0x30u8,
            0x96u8,
            0x67u8,
            0xd1u8,
            0x3cu8,
            0xa3u8,
            0xd9u8,
            0x3au8,
        ],
    );
}

/// A text without a dot holds no session key.
pub proof fn law_a_session_key_needs_a_dot(infos: &str, r: Result<[u8; 16], Error>)
    requires
        call_ensures(derive_session_key, (infos,), r),
        !infos@.contains('.'),
    ensures
        r is Err,
{
    lemma_split_whole(infos@, '.');
}

/// The content key is unwrapped from the second part of a key string under the vector in its third
/// part and the session key; there is one exactly where both parts can be decoded, the vector has
/// sixteen bytes, and so has what the cipher gives.
pub proof fn law_a_content_key_is_unwrapped(
    session_key: &[u8; 16],
    key_str: &str,
    prefix: Seq<char>,
    wrapped: Seq<char>,
    vector: Seq<char>,
    r: Result<[u8; 16], Error>,
)
    requires
        call_ensures(unwrap_content_key, (session_key, key_str), r),
        key_str@ == prefix + seq!['.'] + wrapped + seq!['.'] + vector,
        !prefix.contains('.'),
        !wrapped.contains('.'),
        !vector.contains('.'),
    ensures
        ({
            let plain = aes128_cbc_pkcs7(
                session_key@,
                base64url(vector)->Ok_0,
                base64url(wrapped)->Ok_0,
            );
            &&& r is Ok <==> base64url(wrapped) is Ok && base64url(vector) is Ok && base64url(
                vector,
            )->Ok_0.len() == 16 && plain is Ok && plain->Ok_0.len() == 16
            &&& r matches Ok(key) ==> key@ == plain->Ok_0
        }),
{
    lemma_split_whole(prefix, '.');
    lemma_split_behind(prefix, wrapped, '.');
    lemma_split_behind(prefix + seq!['.'] + wrapped, vector, '.');
}

/// What was unwrapped is taken as it is, where it has the sixteen bytes of a key or a vector.
pub proof fn law_sixteen_bytes_are_taken(
    iv: Vec<u8>,
    vector: Result<[u8; 16], Error>,
    plain: Result<Vec<u8>, String>,
    key: Result<[u8; 16], Error>,
    what: &str,
    decoded: Result<Vec<u8>, String>,
    bytes: Result<Vec<u8>, Error>,
)
    requires
        call_ensures(take_unwrap_vector, (iv,), vector),
        call_ensures(take_unwrapped_key, (plain,), key),
        call_ensures(decode_outcome, (what, decoded), bytes),
    ensures
        vector is Ok <==> iv@.len() == 16,
        vector matches Ok(v) ==> v@ == iv@,
        key is Ok <==> plain is Ok && plain->Ok_0@.len() == 16,
        key matches Ok(k) ==> k@ == plain->Ok_0@,
        bytes is Ok <==> decoded is Ok,
        bytes matches Ok(b) ==> b@ == decoded->Ok_0@,
{
}

/// A seek to a byte of the audio lands in the segment that holds it, behind as many bytes as stand
/// before it there.
pub proof fn law_a_seek_lands_on_its_byte(
    state: &SharedDownloadState,
    start: u64,
    r: Result<SeekTarget, SeekFault>,
)
    requires
        call_ensures(SharedDownloadState::seek_range, (state, start), r),
        is_gapless(state.segment_map@),
        0 < state.segment_map@.len() < u32::MAX,
        forall|i: int|
            0 <= i < state.segment_map@.len() ==> (#[trigger] state.segment_map@[i]).byte_len
                <= usize::MAX,
        state.flac_header@.len() <= start < state.flac_header@.len()
            + state.segment_map@.last().byte_offset + state.segment_map@.last().byte_len
            <= u64::MAX,
    ensures
        r matches Ok(target) && {
            &&& 1 <= target.segment <= state.segment_map@.len()
            &&& target.skip < state.segment_map@[target.segment - 1].byte_len
            &&& state.flac_header@.len() + state.segment_map@[target.segment - 1].byte_offset
                + target.skip == start
        },
{
    law_a_seek_finds_its_byte(
        state.segment_map@,
        state.flac_header@.len() as int,
        start as int,
    );
}

/// A seek into the header starts with the first segment that has any bytes, from its first byte on.
pub proof fn law_a_seek_into_the_header_starts_over(
    state: &SharedDownloadState,
    start: u64,
    r: Result<SeekTarget, SeekFault>,
)
    requires
        call_ensures(SharedDownloadState::seek_range, (state, start), r),
        state.segment_map@.len() > 0,
        state.segment_map@[0].byte_offset == 0,
        0 < state.segment_map@[0].byte_len,
        state.flac_header@.len() <= u64::MAX,
        start < state.flac_header@.len(),
    ensures
        r matches Ok(target) && target.segment == 1 && target.skip == 0,
{
    lemma_first_match(state.segment_map@, ends_behind(0), 0);
}

/// A seek behind the end lands in the last segment, and one where there is no segment nowhere.
pub proof fn law_a_seek_behind_the_end_lands_last(
    state: &SharedDownloadState,
    start: u64,
    r: Result<SeekTarget, SeekFault>,
)
    requires
        call_ensures(SharedDownloadState::seek_range, (state, start), r),
        start >= state.flac_header@.len(),
        state.segment_map@.len() < u32::MAX,
        forall|i: int|
            0 <= i < state.segment_map@.len() ==> state.flac_header@.len() + (
            #[trigger] state.segment_map@[i]).byte_offset + state.segment_map@[i].byte_len <= start,
        start <= usize::MAX,
    ensures
        state.segment_map@.len() == 0 ==> r == Err::<SeekTarget, SeekFault>(SeekFault::EmptyMap),
        state.segment_map@.len() > 0 ==> (r matches Ok(target) && target.segment
            == state.segment_map@.len() && target.skip == start - state.flac_header@.len()
            - state.segment_map@.last().byte_offset),
{
    let map = state.segment_map@;
    let wanted = ends_behind(start - state.flac_header@.len());
    assert forall|i: int| 0 <= i < map.len() implies !wanted(#[trigger] map[i]) by {}
    lemma_no_match(map, wanted);
}

/// A stream starts with nothing downloaded, and keeps what it is made from; one without segments is
/// refused.
pub proof fn law_a_stream_starts_empty(
    params: FlacSourceParams,
    r: Result<SharedDownloadState, FlacStreamError>,
)
    requires
        call_ensures(SharedDownloadState::create, (params,), r),
    ensures
        r is Ok <==> params.n_segments > 0,
        r matches Ok(state) ==> {
            &&& state.url_template == params.url_template
            &&& state.n_segments == params.n_segments
            &&& state.content_key == params.content_key
            &&& state.flac_header == params.flac_header
            &&& state.cache_path == params.cache_path
            &&& state.segment_map == params.segment_map
            &&& state.downloaded@.len() == params.n_segments - 1
            &&& state.in_progress@.len() == params.n_segments - 1
            &&& forall|i: int|
                0 <= i < params.n_segments - 1 ==> #[trigger] state.downloaded@[i] is None
            &&& forall|i: int|
                0 <= i < params.n_segments - 1 ==> #[trigger] state.in_progress@[i] is None
            &&& !state.cache_written
            &&& !state.gap_fill_running
        },
{
}

/// The segments that are missing are those that were not downloaded, each once, in order.
pub proof fn law_missing_segments_are_those_not_there(
    state: &SharedDownloadState,
    r: Vec<u32>,
    seg: u32,
    need: bool,
)
    requires
        call_ensures(SharedDownloadState::fill_missing_segments, (state,), r),
        call_ensures(SharedDownloadState::needs_download, (state, seg), need),
        state.wf(),
    ensures
        r@.contains(seg) <==> 1 <= seg < state.n_segments && state.downloaded@[seg - 1] is None,
        need <==> r@.contains(seg),
        forall|k: int, l: int| 0 <= k < l < r@.len() ==> r@[k] < r@[l],
{
    if r@.contains(seg) {
        let k = choose|k: int| 0 <= k < r@.len() && r@[k] == seg;
        assert(wanting(state.downloaded@, r@[k] - 1));
    }
    if wanting(state.downloaded@, seg - 1) {
        assert(r@.contains((seg - 1 + 1) as u32));
    }
}

/// Gaps begin to be filled where all is there from a segment on, once at a time.
pub proof fn law_gaps_are_filled_behind_a_complete_pass(
    state: &mut SharedDownloadState,
    before: &SharedDownloadState,
    start_seg: u32,
    complete: bool,
    r: bool,
)
    requires
        old(state).wf(),
        *before == *old(state),
        call_ensures(SharedDownloadState::forward_complete, (before, start_seg), complete),
        call_ensures(SharedDownloadState::maybe_spawn_gap_fill, (state, start_seg), r),
    ensures
        complete <==> forall|seg: int|
            1 <= seg < before.n_segments && seg >= start_seg ==> #[trigger] before.downloaded@[seg
                - 1] is Some,
        r <==> complete && !old(state).gap_fill_running,
        final(state).gap_fill_running == (old(state).gap_fill_running || r),
        final(state).downloaded == old(state).downloaded,
        final(state).in_progress == old(state).in_progress,
        final(state).cache_written == old(state).cache_written,
{
    let slots = before.downloaded@;
    if complete {
        assert forall|seg: int|
            1 <= seg < before.n_segments && seg >= start_seg implies #[trigger] before.downloaded@[seg
            - 1] is Some by {
            assert(filled(slots, seg - 1));
        }
    }
    if forall|seg: int|
        1 <= seg < before.n_segments && seg >= start_seg ==> #[trigger] before.downloaded@[seg
            - 1] is Some {
        assert forall|i: int| 0 <= i < slots.len() && i + 1 >= start_seg implies #[trigger] filled(
            slots,
            i,
        ) by {
            assert(before.downloaded@[(i + 1) - 1] is Some);
        }
    }
}

/// A segment that was kept is sent from memory, from the byte on at which the listener starts, and
/// it needs no download any more.
pub proof fn law_a_kept_segment_is_sent(
    state: &mut SharedDownloadState,
    seg: u32,
    data: Vec<u8>,
    kept: bool,
    after: &SharedDownloadState,
    from_seg: u32,
    to_seg: u32,
    skip: usize,
    step: Result<SegmentStep, &'static str>,
    need: bool,
)
    requires
        old(state).wf(),
        call_ensures(SharedDownloadState::store_complete, (state, seg, data), kept),
        *after == *final(state),
        1 <= seg < old(state).n_segments,
        from_seg <= seg < to_seg,
        call_ensures(SharedDownloadState::download_step, (after, seg, from_seg, to_seg, skip), step),
        call_ensures(SharedDownloadState::needs_download, (after, seg), need),
        skip <= data@.len(),
    ensures
        kept,
        !need,
        step matches Ok(s) && (s.source matches SegmentSource::Memory { send } && send@ == (if seg
            == from_seg {
            data@.skip(skip as int)
        } else {
            data@
        })),
{
    assert(filled(after.downloaded@, seg - 1));
    assert(data@.skip(0) =~= data@);
}

/// The start of a segment that was kept is sent first, and the rest comes from the network.
pub proof fn law_a_kept_start_is_sent(
    state: &mut SharedDownloadState,
    seg: u32,
    data: &Vec<u8>,
    kept: Option<bool>,
    after: &SharedDownloadState,
    from_seg: u32,
    to_seg: u32,
    skip: usize,
    step: Result<SegmentStep, &'static str>,
)
    requires
        old(state).wf(),
        call_ensures(SharedDownloadState::store_partial, (state, seg, data), kept),
        *after == *final(state),
        1 <= seg < old(state).n_segments,
        old(state).downloaded@[seg - 1] is None,
        old(state).in_progress@[seg - 1] is None,
        from_seg <= seg < to_seg,
        call_ensures(SharedDownloadState::download_step, (after, seg, from_seg, to_seg, skip), step),
        data@.len() > skip,
    ensures
        kept == Some(true),
        step matches Ok(s) && (s.source matches SegmentSource::Partial { send, already_sent } && (
        if seg == from_seg {
            send@ == data@.skip(skip as int) && already_sent == data@.len() - skip
        } else {
            send@ == data@ && already_sent == data@.len()
        })),
{
    assert(filled(after.in_progress@, seg - 1));
    assert(data@.skip(0) =~= data@);
}

/// The longer start of a segment is the one that is kept.
pub proof fn law_the_longer_start_is_kept(
    state: &mut SharedDownloadState,
    seg: u32,
    data: &Vec<u8>,
    r: Option<bool>,
    known: Vec<u8>,
)
    requires
        old(state).wf(),
        call_ensures(SharedDownloadState::store_partial, (state, seg, data), r),
        1 <= seg < old(state).n_segments,
        old(state).in_progress@[seg - 1] == Some(known),
    ensures
        data@.len() > known@.len() ==> r == Some(true) && (
        final(state).in_progress@[seg - 1] matches Some(kept) && kept@ == data@),
        data@.len() <= known@.len() ==> r == Some(false) && *final(state) == *old(state),
{
}

/// A segment of which nothing is there comes from the network.
pub proof fn law_an_unknown_segment_comes_from_the_network(
    state: &SharedDownloadState,
    seg: u32,
    from_seg: u32,
    to_seg: u32,
    skip: usize,
    step: Result<SegmentStep, &'static str>,
)
    requires
        state.wf(),
        from_seg <= seg < to_seg,
        1 <= seg < state.n_segments,
        state.downloaded@[seg - 1] is None,
        state.in_progress@[seg - 1] is None,
        call_ensures(SharedDownloadState::download_step, (state, seg, from_seg, to_seg, skip), step),
    ensures
        step matches Ok(s) && s.source is Network && s.skip == (if seg == from_seg {
            skip
        } else {
            0
        }),
{
}

/// The next segment is fetched ahead where the pass goes on with it and it is not there.
pub proof fn law_the_next_segment_is_fetched_ahead(
    state: &SharedDownloadState,
    seg: u32,
    from_seg: u32,
    to_seg: u32,
    skip: usize,
    step: Result<SegmentStep, &'static str>,
)
    requires
        state.wf(),
        from_seg <= seg < to_seg,
        seg > 0,
        call_ensures(SharedDownloadState::download_step, (state, seg, from_seg, to_seg, skip), step),
    ensures
        step matches Ok(s) && {
            &&& s.prefetch is Some <==> seg + 1 < to_seg && seg + 1 < state.n_segments
                && state.downloaded@[seg as int] is None
            &&& s.prefetch matches Some(next) ==> next == seg + 1
        },
{
}

/// Data that is sent late lacks just the bytes that are left out.
pub proof fn law_what_is_left_out_is_the_start(data: &Vec<u8>, skip: usize, r: Vec<u8>)
    requires
        call_ensures(data_after_skip, (data, skip), r),
    ensures
        skip <= data@.len() ==> data@ == data@.take(skip as int) + r@ && r@.len() == data@.len()
            - skip,
        skip > data@.len() ==> r@ == data@,
{
    if skip <= data@.len() {
        assert(data@ =~= data@.take(skip as int) + r@);
    }
}

/// Where the data of slot `k` starts among the data of all slots.
pub open spec fn length_before(slots: Seq<Option<Vec<u8>>>, k: int) -> int
    decreases k,
{
    if k <= 0 {
        0
    } else {
        length_before(slots, k - 1) + match slots[k - 1] {
            Some(data) => data@.len() as int,
            None => 0,
        }
    }
}

proof fn lemma_joined(slots: Seq<Option<Vec<u8>>>, n: int)
    requires
        0 <= n <= slots.len(),
    ensures
        joined(slots.take(n)).len() == length_before(slots, n),
        length_before(slots, n) >= 0,
        n < slots.len() ==> joined(slots.take(n + 1)) == joined(slots.take(n)) + (match slots[n] {
            Some(data) => data@,
            None => Seq::empty(),
        }),
    decreases n,
{
    if n < slots.len() {
        assert(slots.take(n + 1).drop_last() =~= slots.take(n));
    }
    if n > 0 {
        lemma_joined(slots, n - 1);
        assert(slots.take(n).drop_last() =~= slots.take(n - 1));
    } else {
        assert(slots.take(0) =~= Seq::<Option<Vec<u8>>>::empty());
    }
}

proof fn lemma_joined_at(slots: Seq<Option<Vec<u8>>>, k: int, i: int, n: int)
    requires
        0 <= k < n <= slots.len(),
        slots[k] is Some,
        0 <= i < slots[k]->0@.len(),
    ensures
        length_before(slots, k) + i < joined(slots.take(n)).len(),
        joined(slots.take(n))[length_before(slots, k) + i] == slots[k]->0@[i],
    decreases n,
{
    lemma_joined(slots, k);
    lemma_joined(slots, n - 1);
    lemma_joined(slots, n);
    if k < n - 1 {
        lemma_joined_at(slots, k, i, n - 1);
    }
}

/// The cache file is written where every segment is there, once: the header, and behind it the
/// segments one after the other.
pub proof fn law_the_cache_holds_every_segment(
    state: &mut SharedDownloadState,
    r: CacheStep,
    k: int,
    i: int,
)
    requires
        call_ensures(SharedDownloadState::try_write_cache, (state,), r),
        0 <= k < old(state).downloaded@.len(),
        old(state).downloaded@[k] matches Some(data) && 0 <= i < data@.len(),
    ensures
        r matches CacheStep::Write(bytes) ==> {
            let header = old(state).flac_header@;
            let slots = old(state).downloaded@;
            &&& bytes@.take(header.len() as int) == header
            &&& bytes@.len() == header.len() + length_before(slots, slots.len() as int)
            &&& bytes@[header.len() + length_before(slots, k) + i] == slots[k]->0@[i]
        },
{
    let slots = old(state).downloaded@;
    lemma_joined_at(slots, k, i, slots.len() as int);
    lemma_joined(slots, slots.len() as int);
    lemma_joined(slots, k);
    assert(slots.take(slots.len() as int) =~= slots);
    if let CacheStep::Write(bytes) = r {
        assert(bytes@.take(old(state).flac_header@.len() as int) =~= old(state).flac_header@);
    }
}

/// The cache file is not written twice, nor while a segment is missing, and what has not been
/// written is tried again.
pub proof fn law_the_cache_is_written_once(
    state: &mut SharedDownloadState,
    r: CacheStep,
    after: &mut SharedDownloadState,
    again: CacheStep,
)
    requires
        call_ensures(SharedDownloadState::try_write_cache, (state,), r),
        *old(after) == *final(state),
        call_ensures(SharedDownloadState::try_write_cache, (after,), again),
    ensures
        old(state).cache_written ==> r is AlreadyWritten,
        !old(state).cache_written && (exists|i: int|
            0 <= i < old(state).downloaded@.len() && #[trigger] old(state).downloaded@[i] is None)
            ==> r is Incomplete,
        r is Write ==> final(state).cache_written && again is AlreadyWritten,
        r is Incomplete || r is TooLarge ==> *final(state) == *old(state),
        final(state).downloaded == old(state).downloaded,
{
    if exists|i: int|
        0 <= i < old(state).downloaded@.len() && #[trigger] old(state).downloaded@[i] is None {
        let i = choose|i: int|
            0 <= i < old(state).downloaded@.len() && #[trigger] old(state).downloaded@[i] is None;
        assert(wanting(old(state).downloaded@, i));
    }
}

/// A cache file that could not be written counts as not written, and gaps that were filled as
/// not being filled; nothing else changes.
pub proof fn law_a_failed_cache_is_written_again(
    state: &mut SharedDownloadState,
    filling: &mut SharedDownloadState,
)
    requires
        call_ensures(SharedDownloadState::cache_failed, (state,), ()),
        call_ensures(SharedDownloadState::finish_gap_fill, (filling,), ()),
    ensures
        *final(state) == (SharedDownloadState { cache_written: false, ..*old(state) }),
        *final(filling) == (SharedDownloadState { gap_fill_running: false, ..*old(filling) }),
{
}

/// The address of a segment has its number where the template leaves a place for it.
pub proof fn law_a_segment_has_its_address(
    state: &SharedDownloadState,
    seg: u32,
    r: String,
    before: Seq<char>,
    after: Seq<char>,
    number: Seq<char>,
)
    requires
        call_ensures(SharedDownloadState::segment_url, (state, seg), r),
        state.url_template@ == before + "$SEGMENT$"@ + after,
        forall|k: int|
            0 <= k < before.len() ==> !#[trigger] text_at(state.url_template@, k, "$SEGMENT$"@),
        forall|k: int|
            before.len() + 9 <= k < state.url_template@.len() ==> !#[trigger] text_at(
                state.url_template@,
                k,
                "$SEGMENT$"@,
            ),
    ensures
        r@.len() >= before.len() + after.len(),
        r@.take(before.len() as int) == before,
        r@.skip(r@.len() - after.len()) == after,
        value_of(r@.subrange(before.len() as int, r@.len() - after.len())) == seg,
{
    reveal_strlit("$SEGMENT$");
    let s = state.url_template@;
    let pattern = "$SEGMENT$"@;
    let by = crate::text::decimal(seg as nat);
    let at = before.len() as int;
    lemma_unreplaced(s, pattern, by, 0, at);
    assert(s.subrange(at, at + 9) =~= pattern);
    assert(text_at(s, at, pattern));
    lemma_unreplaced(s, pattern, by, at + 9, s.len() as int);
    assert(s.subrange(at + 9, s.len() as int) =~= after);
    assert(s.subrange(0, at) =~= before);
    assert(r@ =~= before + by + after);
    assert(r@.take(at) =~= before);
    assert(r@.skip(r@.len() - after.len()) =~= after);
    assert(r@.subrange(at, r@.len() - after.len()) =~= by);
    lemma_value(seg as nat);
}

proof fn lemma_unreplaced(s: Seq<char>, pattern: Seq<char>, by: Seq<char>, from: int, to: int)
    requires
        pattern.len() > 0,
        0 <= from <= to <= s.len(),
        forall|k: int| from <= k < to ==> !#[trigger] text_at(s, k, pattern),
    ensures
        replaced(s, pattern, by, from) == s.subrange(from, to) + replaced(s, pattern, by, to),
    decreases to - from,
{
    if from < to {
        lemma_unreplaced(s, pattern, by, from + 1, to);
        assert(!text_at(s, from, pattern));
    }
    assert(replaced(s, pattern, by, from) =~= s.subrange(from, to) + replaced(s, pattern, by, to));
}

proof fn lemma_value(n: nat)
    ensures
        value_of(crate::text::decimal(n)) == n,
    decreases n,
{
    reveal_with_fuel(value_of, 2);
    if n < 10 {
        assert(crate::text::decimal(n).drop_last() =~= Seq::<char>::empty());
    } else {
        lemma_value(n / 10);
        assert(crate::text::decimal(n).drop_last() =~= crate::text::decimal(n / 10));
    }
}

/// The key of a stream is the one that it was given, and zeros where it was given none.
pub proof fn law_a_stream_has_its_key(state: &SharedDownloadState, r: [u8; 16])
    requires
        call_ensures(SharedDownloadState::key_bytes, (state,), r),
    ensures
        state.content_key matches Some(key) ==> r@ == key@,
        state.content_key is None ==> forall|i: int| 0 <= i < 16 ==> #[trigger] r@[i] == 0,
{
}

/// A seek from the end lands as far from it as is asked, where that is in the stream or behind it
/// and can be counted.
pub proof fn law_a_seek_counts_from_the_end<R>(
    inner: R,
    length: u64,
    reader: SeekableStreamReader<R>,
    offset: i64,
    r: Result<u64, EndSeekFault>,
    told: u64,
)
    requires
        call_ensures(SeekableStreamReader::<R>::new, (inner, length), reader),
        call_ensures(SeekableStreamReader::<R>::position_from_end, (&reader, offset), r),
        call_ensures(SeekableStreamReader::<R>::content_length, (&reader,), told),
    ensures
        told == length,
        r is Ok <==> length <= 0x7fff_ffff_ffff_ffff && 0 <= length + offset
            <= 0x7fff_ffff_ffff_ffff,
        r matches Ok(position) ==> position == length + offset,
        length > 0x7fff_ffff_ffff_ffff ==> r == Err::<u64, EndSeekFault>(
            EndSeekFault::LengthTooLarge,
        ),
        length <= 0x7fff_ffff_ffff_ffff && length + offset < 0 ==> r == Err::<u64, EndSeekFault>(
            EndSeekFault::BeforeStart,
        ),
{
}

/// The file of a fetch is kept only where it has the length that was announced.
pub proof fn law_only_a_complete_file_is_kept(
    announced: Option<u64>,
    length: (u64, bool),
    actual: Option<u64>,
    r: FinalizeStep,
    renamed: bool,
    after: FinalizeStep,
)
    requires
        call_ensures(expected_length, (announced,), length),
        call_ensures(finalize_cache, (actual, length.0), r),
        call_ensures(after_rename, (renamed,), after),
    ensures
        length.1 <==> announced is Some && announced->0 > 0,
        announced matches Some(n) ==> length.0 == n,
        announced is None ==> length.0 == 0,
        r == FinalizeStep::Rename <==> actual == Some(length.0),
        r == FinalizeStep::Nothing <==> actual is None,
        r == FinalizeStep::Discard <==> actual is Some && actual->0 != length.0,
        after == FinalizeStep::Nothing <==> renamed,
        after == FinalizeStep::Discard <==> !renamed,
{
}

} // verus!

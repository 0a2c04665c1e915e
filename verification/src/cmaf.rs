//! The container of encrypted audio: the init segment with the FLAC header and the segment
//! table, and the audio segments with one initialisation vector per frame.

use vstd::prelude::*;
use vstd::slice::slice_subrange;
use crate::error::{is_stream_error, stream_error, Error};
use crate::sequences::{first_match, lemma_first_match, lemma_no_match};
use crate::text::{decimal, decimal_text, owned};

verus! {

pub const QBZ_INIT_UUID: [u8; 16] = [
    0xc7, 0xc7, 0x5d, 0xf0, 0xfd, 0xd9, 0x51, 0xe9, 0x8f, 0xc2, 0x29, 0x71, 0xe4, 0xac, 0xf8, 0xd2,
];

pub const QBZ_SEGMENT_UUID: [u8; 16] = [
    0x3b, 0x42, 0x12, 0x92, 0x56, 0xf3, 0x5f, 0x75, 0x92, 0x36, 0x63, 0xb6, 0x9a, 0x1f, 0x52, 0xb2,
];

/// The box type `uuid`.
pub const UUID_TYPE: [u8; 4] = [0x75, 0x75, 0x69, 0x64];

/// The box type `mdat`.
pub const MDAT_TYPE: [u8; 4] = [0x6d, 0x64, 0x61, 0x74];

/// The mark `fLaC` at the start of a FLAC stream.
pub const FLAC_MAGIC: [u8; 4] = [0x66, 0x4c, 0x61, 0x43];

/// Info about one segment from the init segment's segment table.
#[derive(Clone, Copy, Debug, PartialEq, Eq)]
pub struct SegmentTableEntry {
    /// Byte size of this segment's decrypted FLAC frame data.
    pub byte_len: u32,
    /// Number of audio samples in this segment.
    pub sample_count: u32,
}

/// FLAC header and segment table extracted from the init segment.
#[derive(Debug)]
pub struct InitInfo {
    pub flac_header: Vec<u8>,
    /// Per-segment sizes; the entry at index `i` is that of segment `i + 1`.
    pub segment_table: Vec<SegmentTableEntry>,
}

/// One frame entry of an audio segment.
#[derive(Clone, Copy, Debug, PartialEq, Eq)]
pub struct FrameEntry {
    pub size: u32,
    pub flags: u16,
    pub iv: [u8; 8],
}

/// The frames of an audio segment and where its audio lies.
#[derive(Debug)]
pub struct SegmentCrypto {
    /// Offset to the start of audio frame data.
    pub data_offset: usize,
    /// End of the media box. Data between the last frame and this offset is unencrypted audio.
    pub mdat_end: usize,
    pub entries: Vec<FrameEntry>,
}

/// The big-endian number in two bytes.
pub open spec fn be16(b: Seq<u8>, at: int) -> int {
    b[at] * 0x100 + b[at + 1]
}

/// The big-endian number in three bytes.
pub open spec fn be24(b: Seq<u8>, at: int) -> int {
    b[at] * 0x1_0000 + b[at + 1] * 0x100 + b[at + 2]
}

/// The big-endian number in four bytes.
pub open spec fn be32(b: Seq<u8>, at: int) -> int {
    b[at] * 0x100_0000 + b[at + 1] * 0x1_0000 + b[at + 2] * 0x100 + b[at + 3]
}

/// `pattern` stands in `d` at `at`.
pub open spec fn stands_at(d: Seq<u8>, at: int, pattern: Seq<u8>) -> bool {
    at + pattern.len() <= d.len() && d.subrange(at, at + pattern.len()) == pattern
}

/// The size of the box at `pos`: to the end of the data where the field is zero, and zero where
/// it is no size.
pub open spec fn box_size(d: Seq<u8>, pos: int) -> int {
    if pos + 4 > d.len() {
        0
    } else {
        let size = be32(d, pos);
        if size == 0 {
            d.len() - pos
        } else if 2 <= size <= 7 {
            0
        } else {
            size
        }
    }
}

/// A whole box starts at `pos`.
pub open spec fn box_fits(d: Seq<u8>, pos: int) -> bool {
    &&& pos + 8 <= d.len()
    &&& box_size(d, pos) >= 8
    &&& pos + box_size(d, pos) <= d.len()
}

/// The range of the init payload: that of the first init box of the boxes from `pos` on.
pub open spec fn init_box(d: Seq<u8>, pos: int) -> Option<(int, int)>
    decreases d.len() - pos,
{
    if !box_fits(d, pos) {
        None
    } else {
        let end = pos + box_size(d, pos);
        if stands_at(d, pos + 4, UUID_TYPE@) {
            if pos + 24 > d.len() {
                None
            } else if stands_at(d, pos + 8, QBZ_INIT_UUID@) {
                if pos + 24 > end {
                    None
                } else {
                    Some((pos + 24, end))
                }
            } else {
                init_box(d, end)
            }
        } else {
            init_box(d, end)
        }
    }
}

/// The last segment box and the end of the last media box, of the boxes from `pos` on.
pub open spec fn segment_boxes(d: Seq<u8>, pos: int, found: Option<int>, mdat_end: int) -> (
    Option<int>,
    int,
)
    decreases d.len() - pos,
{
    if !box_fits(d, pos) {
        (found, mdat_end)
    } else {
        let end = pos + box_size(d, pos);
        if stands_at(d, pos + 4, UUID_TYPE@) {
            if stands_at(d, pos + 8, QBZ_SEGMENT_UUID@) {
                segment_boxes(d, end, Some(pos), mdat_end)
            } else {
                segment_boxes(d, end, found, mdat_end)
            }
        } else if stands_at(d, pos + 4, MDAT_TYPE@) {
            segment_boxes(d, end, found, end)
        } else {
            segment_boxes(d, end, found, mdat_end)
        }
    }
}

/// The stretches of four bytes in `b`.
pub open spec fn windows4(b: Seq<u8>) -> Seq<Seq<u8>> {
    Seq::new(
        if b.len() < 4 {
            0
        } else {
            (b.len() - 3) as nat
        },
        |i: int| b.subrange(i, i + 4),
    )
}

/// A stretch is the FLAC mark.
pub open spec fn is_magic() -> spec_fn(Seq<u8>) -> bool {
    |w: Seq<u8>| w == FLAC_MAGIC@
}

/// The segment table entries from `pos` on: at most `count`, and no more than are whole.
pub open spec fn table_entries(p: Seq<u8>, pos: int, count: nat) -> Seq<SegmentTableEntry>
    decreases count,
{
    if count == 0 || pos + 8 > p.len() {
        Seq::empty()
    } else {
        seq![
            SegmentTableEntry {
                byte_len: be32(p, pos) as u32,
                sample_count: be32(p, pos + 4) as u32,
            },
        ] + table_entries(p, pos + 8, (count - 1) as nat)
    }
}

/// The segment table of an init payload whose key id starts at `pos`.
pub open spec fn segment_table_at(p: Seq<u8>, pos: int) -> Seq<SegmentTableEntry> {
    if pos >= p.len() {
        Seq::empty()
    } else {
        let key_end = pos + 1 + p[pos];
        let at = if key_end <= p.len() {
            key_end
        } else {
            pos + 1
        };
        if at + 2 > p.len() {
            Seq::empty()
        } else {
            table_entries(p, at + 2, be16(p, at) as nat)
        }
    }
}

/// What an init payload holds: the FLAC header, marked as the last metadata block, and the
/// segment table; or the message that says what is missing.
pub open spec fn init_payload(p: Seq<u8>) -> Result<
    (Seq<u8>, Seq<SegmentTableEntry>),
    Seq<char>,
> {
    if p.len() < 26 {
        Err("init UUID payload too short"@)
    } else if p.len() < 28 {
        Err("init UUID payload truncated at raw_len"@)
    } else {
        let raw_end = 28 + be16(p, 26);
        let raw = if raw_end <= p.len() {
            p.subrange(28, raw_end)
        } else {
            p.skip(28)
        };
        match first_match(windows4(raw), is_magic()) {
            None => Err("init UUID payload: fLaC magic not found"@),
            Some(at) => if at + 42 > raw.len() {
                Err("init UUID payload: STREAMINFO truncated"@)
            } else {
                Ok(
                    (
                        raw.subrange(at, at + 42).update(4, raw[at + 4] | 0x80),
                        segment_table_at(
                            p,
                            if raw_end <= p.len() {
                                raw_end
                            } else {
                                28
                            },
                        ),
                    ),
                )
            },
        }
    }
}

/// The frame entry at `at`, whose initialisation vector has `iv_size` bytes of which the first
/// eight count.
pub open spec fn is_frame_entry(e: FrameEntry, p: Seq<u8>, at: int, iv_size: int) -> bool {
    &&& e.size == be32(p, at)
    &&& e.flags == be16(p, at + 6)
    &&& e.iv@ == Seq::new(
        8,
        |j: int|
            if j < iv_size {
                p[at + 8 + j]
            } else {
                0u8
            },
    )
}

/// The message about a frame table that does not fit.
pub open spec fn table_message(frame_count: int, entry_size: int) -> Seq<char> {
    "segment UUID: not enough data for "@ + decimal(frame_count as nat) + " entries of "@ + decimal(
        entry_size as nat,
    ) + " bytes"@
}

/// Why the segment box at `start` holds no frame table, if it holds none.
pub open spec fn segment_fault(d: Seq<u8>, start: int) -> Option<Seq<char>> {
    let p = d.skip(start + 24);
    let entry_size = 8 + p[8];
    if start + 24 > usize::MAX {
        Some("segment UUID payload offset overflow"@)
    } else if start + 24 > d.len() || p.len() < 4 {
        Some("segment UUID payload too short for header"@)
    } else if p.len() < 8 {
        Some("segment UUID payload too short for data_offset"@)
    } else if start + be32(p, 4) > usize::MAX {
        Some("segment UUID data_offset overflow"@)
    } else if p.len() < 9 {
        Some("segment UUID payload too short for iv_size"@)
    } else if p.len() < 12 {
        Some("segment UUID payload too short for frame_count"@)
    } else if be24(p, 9) * entry_size > usize::MAX {
        Some("segment UUID entry table overflow"@)
    } else if 12 + be24(p, 9) * entry_size > p.len() {
        Some(table_message(be24(p, 9), entry_size))
    } else {
        None
    }
}

/// `c` is the frame table of the segment box at `start`.
pub open spec fn is_segment_table(c: SegmentCrypto, d: Seq<u8>, start: int, mdat_end: int) -> bool {
    let p = d.skip(start + 24);
    &&& c.data_offset == start + be32(p, 4)
    &&& c.mdat_end == mdat_end
    &&& c.entries@.len() == be24(p, 9)
    &&& forall|k: int|
        0 <= k < c.entries@.len() ==> is_frame_entry(
            #[trigger] c.entries@[k],
            p,
            12 + k * (8 + p[8]),
            p[8] as int,
        )
}

/// A reader over bytes.
pub struct Cursor<'a> {
    pub buf: &'a [u8],
    pub pos: usize,
}

impl<'a> Cursor<'a> {
    /// `len` more bytes are there.
    pub open spec fn has(&self, len: int) -> bool {
        self.pos + len <= self.buf@.len()
    }

    pub fn new(buf: &'a [u8]) -> (r: Self)
        ensures
            r.buf == buf,
            r.pos == 0,
    {
        Self { buf, pos: 0 }
    }

    /// The next `len` bytes, if there are as many.
    pub fn take(&mut self, len: usize) -> (r: Option<&'a [u8]>)
        ensures
            final(self).buf == old(self).buf,
            match r {
                Some(bytes) => {
                    &&& old(self).has(len as int)
                    &&& final(self).pos == old(self).pos + len
                    &&& bytes@ == old(self).buf@.subrange(
                        old(self).pos as int,
                        old(self).pos + len,
                    )
                },
                None => !old(self).has(len as int) && final(self).pos == old(self).pos,
            },
    {
        let total: usize = self.buf.len();
        let end: usize = match self.pos.checked_add(len) {
            Some(end) => end,
            None => return None,
        };
        if end > total {
            return None;
        }
        let bytes = slice_subrange(self.buf, self.pos, end);
        self.pos = end;
        Some(bytes)
    }

    pub fn skip(&mut self, len: usize) -> (r: Option<()>)
        ensures
            final(self).buf == old(self).buf,
            r is Some <==> old(self).has(len as int),
            final(self).pos == if r is Some {
                old(self).pos + len
            } else {
                old(self).pos as int
            },
    {
        match self.take(len) {
            Some(_) => Some(()),
            None => None,
        }
    }

    pub fn take_u8(&mut self) -> (r: Option<u8>)
        ensures
            final(self).buf == old(self).buf,
            match r {
                Some(n) => {
                    &&& old(self).has(1)
                    &&& final(self).pos == old(self).pos + 1
                    &&& n == old(self).buf@[old(self).pos as int]
                },
                None => !old(self).has(1) && final(self).pos == old(self).pos,
            },
    {
        match self.take(1) {
            Some(b) => Some(b[0]),
            None => None,
        }
    }

    pub fn take_u16(&mut self) -> (r: Option<u16>)
        ensures
            final(self).buf == old(self).buf,
            match r {
                Some(n) => {
                    &&& old(self).has(2)
                    &&& final(self).pos == old(self).pos + 2
                    &&& n == be16(old(self).buf@, old(self).pos as int)
                },
                None => !old(self).has(2) && final(self).pos == old(self).pos,
            },
    {
        match self.take(2) {
            Some(b) => Some(b[0] as u16 * 0x100 + b[1] as u16),
            None => None,
        }
    }

    pub fn take_u32(&mut self) -> (r: Option<u32>)
        ensures
            final(self).buf == old(self).buf,
            match r {
                Some(n) => {
                    &&& old(self).has(4)
                    &&& final(self).pos == old(self).pos + 4
                    &&& n == be32(old(self).buf@, old(self).pos as int)
                },
                None => !old(self).has(4) && final(self).pos == old(self).pos,
            },
    {
        match self.take(4) {
            Some(b) => Some(
                b[0] as u32 * 0x100_0000 + b[1] as u32 * 0x1_0000 + b[2] as u32 * 0x100
                    + b[3] as u32,
            ),
            None => None,
        }
    }

    pub fn take_u24(&mut self) -> (r: Option<u32>)
        ensures
            final(self).buf == old(self).buf,
            match r {
                Some(n) => {
                    &&& old(self).has(3)
                    &&& final(self).pos == old(self).pos + 3
                    &&& n == be24(old(self).buf@, old(self).pos as int)
                },
                None => !old(self).has(3) && final(self).pos == old(self).pos,
            },
    {
        match self.take(3) {
            Some(b) => Some(b[0] as u32 * 0x1_0000 + b[1] as u32 * 0x100 + b[2] as u32),
            None => None,
        }
    }
}

/// Whether `pattern` stands in `data` at `at`.
fn matches_at(data: &[u8], at: usize, pattern: &[u8]) -> (r: bool)
    ensures
        r == stands_at(data@, at as int, pattern@),
{
    let total: usize = data.len();
    let count: usize = pattern.len();
    if at > total || count > total - at {
        return false;
    }
    for i in 0..count
        invariant
            count == pattern@.len(),
            total == data@.len(),
            at + count <= total,
            forall|j: int| 0 <= j < i ==> data@[at + j] == #[trigger] pattern@[j],
    {
        if data[at + i] != pattern[i] {
            assert(data@.subrange(at as int, at + count)[i as int] != pattern@[i as int]);
            return false;
        }
    }
    assert(data@.subrange(at as int, at + count) =~= pattern@);
    true
}

pub fn read_box_size(data: &[u8], pos: usize) -> (r: usize)
    ensures
        r == box_size(data@, pos as int),
{
    let total: usize = data.len();
    if pos > total || total - pos < 4 {
        return 0;
    }
    let size: u32 = data[pos] as u32 * 0x100_0000 + data[pos + 1] as u32 * 0x1_0000 + data[pos
        + 2] as u32 * 0x100 + data[pos + 3] as u32;
    if size == 0 {
        total - pos
    } else if size >= 2 && size <= 7 {
        0
    } else {
        size as usize
    }
}

/// Parse the init segment (segment 0) to extract the FLAC header.
pub fn parse_init_segment(data: &[u8]) -> (r: Result<InitInfo, Error>)
    ensures
        is_init_segment_result(r, data@),
{
    let total: usize = data.len();
    let mut pos: usize = 0;
    while total - pos >= 8
        invariant
            total == data@.len(),
            pos <= total,
            init_box(data@, pos as int) == init_box(data@, 0),
        ensures
            init_box(data@, 0) is None,
        decreases total - pos,
    {
        let size: usize = read_box_size(data, pos);
        if size < 8 || size > total - pos {
            break;
        }
        let end: usize = pos + size;
        if matches_at(data, pos + 4, &UUID_TYPE) {
            if total - pos < 24 {
                break;
            }
            if matches_at(data, pos + 8, &QBZ_INIT_UUID) {
                if size < 24 {
                    break;
                }
                return parse_init_uuid_payload(slice_subrange(data, pos + 24, end));
            }
        }
        pos = end;
    }
    Err(stream_error("init segment: QBZ_INIT_UUID box not found"))
}

/// `r` is what the init segment `d` gives.
pub open spec fn is_init_segment_result(r: Result<InitInfo, Error>, d: Seq<u8>) -> bool {
    match init_box(d, 0) {
        Some((from, to)) => is_init_result(r, d.subrange(from, to)),
        None => r matches Err(e) && is_stream_error(
            e,
            "init segment: QBZ_INIT_UUID box not found"@,
        ),
    }
}

/// `r` is what an init payload gives.
pub open spec fn is_init_result(r: Result<InitInfo, Error>, payload: Seq<u8>) -> bool {
    match init_payload(payload) {
        Ok((header, table)) => r matches Ok(info) && info.flac_header@ == header
            && info.segment_table@ == table,
        Err(message) => r matches Err(e) && is_stream_error(e, message),
    }
}

/// The last segment box, and the end of the last media box; without one, of the data.
fn find_segment_boxes(data: &[u8]) -> (r: (Option<usize>, usize))
    ensures
        segment_boxes(data@, 0, None, data@.len() as int) == (as_place(r.0), r.1 as int),
        r.0 matches Some(start) ==> start <= data@.len(),
        r.1 <= data@.len(),
{
    let total: usize = data.len();
    let mut uuid_pos: Option<usize> = None;
    let mut mdat_end: usize = total;
    let mut pos: usize = 0;
    while total - pos >= 8
        invariant
            total == data@.len(),
            pos <= total,
            mdat_end <= total,
            uuid_pos matches Some(p) ==> p <= total,
            segment_boxes(data@, pos as int, as_place(uuid_pos), mdat_end as int) == segment_boxes(
                data@,
                0,
                None,
                data@.len() as int,
            ),
        ensures
            segment_boxes(data@, 0, None, data@.len() as int) == (
                as_place(uuid_pos),
                mdat_end as int,
            ),
        decreases total - pos,
    {
        let size: usize = read_box_size(data, pos);
        if size < 8 || size > total - pos {
            break;
        }
        let end: usize = pos + size;
        if matches_at(data, pos + 4, &UUID_TYPE) {
            if matches_at(data, pos + 8, &QBZ_SEGMENT_UUID) {
                uuid_pos = Some(pos);
            }
        } else if matches_at(data, pos + 4, &MDAT_TYPE) {
            mdat_end = end;
        }
        pos = end;
    }
    (uuid_pos, mdat_end)
}

/// The end of the media box of a segment, as far as its bytes are there.
pub fn media_end(data: &[u8]) -> (r: usize)
    ensures
        r == segment_boxes(data@, 0, None, data@.len() as int).1,
        r <= data@.len(),
{
    let (_, end) = find_segment_boxes(data);
    end
}

/// Parse an audio segment to extract per-frame crypto info.
pub fn parse_segment_crypto(data: &[u8]) -> (r: Result<SegmentCrypto, Error>)
    ensures
        is_crypto_result(r, data@),
{
    let (uuid_pos, mdat_end) = find_segment_boxes(data);
    match uuid_pos {
        Some(start) => parse_segment_uuid_payload(data, start, mdat_end),
        None => Err(stream_error("audio segment: QBZ_SEGMENT_UUID box not found")),
    }
}

/// A position as a mathematical integer.
pub open spec fn as_place(place: Option<usize>) -> Option<int> {
    match place {
        Some(at) => Some(at as int),
        None => None,
    }
}

/// `r` is what the segment box at `start` gives.
pub open spec fn is_segment_result(
    r: Result<SegmentCrypto, Error>,
    d: Seq<u8>,
    start: int,
    mdat_end: int,
) -> bool {
    match segment_fault(d, start) {
        None => r matches Ok(c) && is_segment_table(c, d, start, mdat_end),
        Some(message) => r matches Err(e) && is_stream_error(e, message),
    }
}

/// `r` is what the audio segment `d` gives.
pub open spec fn is_crypto_result(r: Result<SegmentCrypto, Error>, d: Seq<u8>) -> bool {
    let (found, mdat_end) = segment_boxes(d, 0, None, d.len() as int);
    match found {
        Some(start) => is_segment_result(r, d, start, mdat_end),
        None => r matches Err(e) && is_stream_error(
            e,
            "audio segment: QBZ_SEGMENT_UUID box not found"@,
        ),
    }
}

/// The position of the FLAC mark.
fn find_magic(raw: &[u8]) -> (r: Option<usize>)
    ensures
        as_place(r) == first_match(windows4(raw@), is_magic()),
        r matches Some(at) ==> at + 4 <= raw@.len(),
{
    let total: usize = raw.len();
    let mut at: usize = 0;
    while total >= 4 && at <= total - 4
        invariant
            total == raw@.len(),
            total >= 4 ==> at <= total - 3,
            forall|j: int| 0 <= j < at ==> !is_magic()(#[trigger] windows4(raw@)[j]),
            total < 4 ==> at == 0,
        decreases total - at,
    {
        if matches_at(raw, at, &FLAC_MAGIC) {
            proof {
                assert(is_magic()(windows4(raw@)[at as int]));
                lemma_first_match(windows4(raw@), is_magic(), at as int);
            }
            return Some(at);
        }
        at += 1;
    }
    proof {
        lemma_no_match(windows4(raw@), is_magic());
    }
    None
}

pub fn parse_init_uuid_payload(payload: &[u8]) -> (r: Result<InitInfo, Error>)
    ensures
        is_init_result(r, payload@),
{
    let mut c = Cursor::new(payload);
    if c.skip(26).is_none() {
        return Err(stream_error("init UUID payload too short"));
    }
    let raw_len: usize = match c.take_u16() {
        Some(n) => n as usize,
        None => return Err(stream_error("init UUID payload truncated at raw_len")),
    };
    let raw_data: &[u8] = match c.take(raw_len) {
        Some(bytes) => bytes,
        None => slice_subrange(payload, c.pos, payload.len()),
    };
    let ghost raw = raw_data@;
    assert(28 + raw_len > payload@.len() ==> raw =~= payload@.skip(28));
    let flac_pos: usize = match find_magic(raw_data) {
        Some(at) => at,
        None => return Err(stream_error("init UUID payload: fLaC magic not found")),
    };
    let raw_total: usize = raw_data.len();
    if raw_total - flac_pos < 42 {
        return Err(stream_error("init UUID payload: STREAMINFO truncated"));
    }
    let mut flac_header: Vec<u8> = Vec::new();
    for i in 0..42usize
        invariant
            raw_data@ == raw,
            raw_total == raw.len(),
            flac_pos + 42 <= raw_total,
            flac_header@ == raw.subrange(flac_pos as int, flac_pos + i),
    {
        flac_header.push(raw_data[flac_pos + i]);
    }
    let flag: u8 = flac_header[4] | 0x80;
    flac_header[4] = flag;

    let mut segment_table: Vec<SegmentTableEntry> = Vec::new();
    let key_id_len: usize = match c.take_u8() {
        Some(n) => n as usize,
        None => return Ok(InitInfo { flac_header, segment_table }),
    };
    let _ = c.skip(key_id_len);
    if let Some(seg_count) = c.take_u16() {
        let ghost first = c.pos as int;
        let mut left: u16 = seg_count;
        while left > 0
            invariant
                c.buf == payload,
                segment_table@ + table_entries(payload@, c.pos as int, left as nat)
                    == table_entries(payload@, first, seg_count as nat),
            ensures
                segment_table@ == table_entries(payload@, first, seg_count as nat),
            decreases left,
        {
            let ghost at = c.pos as int;
            let ghost before = segment_table@;
            let byte_len: u32 = match c.take_u32() {
                Some(n) => n,
                None => break,
            };
            let sample_count: u32 = match c.take_u32() {
                Some(n) => n,
                None => break,
            };
            segment_table.push(SegmentTableEntry { byte_len, sample_count });
            left -= 1;
            assert(before + table_entries(payload@, at, (left + 1) as nat) =~= segment_table@
                + table_entries(payload@, at + 8, left as nat));
        }
    }
    Ok(InitInfo { flac_header, segment_table })
}

pub fn parse_segment_uuid_payload(
    data: &[u8],
    uuid_box_start: usize,
    mdat_end: usize,
) -> (r: Result<SegmentCrypto, Error>)
    ensures
        is_segment_result(r, data@, uuid_box_start as int, mdat_end as int),
{
    let base: usize = match uuid_box_start.checked_add(24) {
        Some(base) => base,
        None => return Err(stream_error("segment UUID payload offset overflow")),
    };
    if base > data.len() {
        return Err(stream_error("segment UUID payload too short for header"));
    }
    let payload: &[u8] = slice_subrange(data, base, data.len());
    let ghost p = data@.skip(base as int);
    assert(payload@ =~= p);
    let mut c = Cursor::new(payload);
    if c.skip(4).is_none() {
        return Err(stream_error("segment UUID payload too short for header"));
    }
    let data_offset_raw: u32 = match c.take_u32() {
        Some(n) => n,
        None => return Err(stream_error("segment UUID payload too short for data_offset")),
    };
    let data_offset: usize = match uuid_box_start.checked_add(data_offset_raw as usize) {
        Some(n) => n,
        None => return Err(stream_error("segment UUID data_offset overflow")),
    };
    let iv_size: usize = match c.take_u8() {
        Some(n) => n as usize,
        None => return Err(stream_error("segment UUID payload too short for iv_size")),
    };
    let frame_count: usize = match c.take_u24() {
        Some(n) => n as usize,
        None => return Err(stream_error("segment UUID payload too short for frame_count")),
    };
    let entry_size: usize = 8 + iv_size;
    let entries_bytes: usize = match frame_count.checked_mul(entry_size) {
        Some(n) => n,
        None => return Err(stream_error("segment UUID entry table overflow")),
    };
    if entries_bytes > payload.len() - c.pos {
        return Err(Error::Stream { message: table_text(frame_count, entry_size) });
    }
    let mut entries: Vec<FrameEntry> = Vec::new();
    assert(0 * entry_size == 0) by (nonlinear_arith);
    for k in 0..frame_count
        invariant
            c.buf@ == p,
            c.pos == 12 + k * entry_size,
            12 + frame_count * entry_size <= p.len(),
            entry_size == 8 + iv_size,
            iv_size == p[8],
            entries@.len() == k,
            forall|j: int|
                0 <= j < k ==> is_frame_entry(
                    #[trigger] entries@[j],
                    p,
                    12 + j * (8 + p[8]),
                    p[8] as int,
                ),
    {
        assert((k + 1) * entry_size <= frame_count * entry_size) by (nonlinear_arith)
            requires
                k < frame_count,
        ;
        assert((k + 1) * entry_size == k * entry_size + entry_size) by (nonlinear_arith);
        let ghost at = c.pos as int;
        let size: u32 = match c.take_u32() {
            Some(n) => n,
            None => return Err(stream_error("segment UUID truncated entry")),
        };
        if c.skip(2).is_none() {
            return Err(stream_error("segment UUID truncated entry"));
        }
        let flags: u16 = match c.take_u16() {
            Some(n) => n,
            None => return Err(stream_error("segment UUID truncated entry")),
        };
        let iv_bytes: &[u8] = match c.take(iv_size) {
            Some(bytes) => bytes,
            None => return Err(stream_error("segment UUID truncated entry")),
        };
        let mut iv: [u8; 8] = [0u8;8];
        let mut j: usize = 0;
        while j < 8 && j < iv_size
            invariant
                j <= 8,
                iv_bytes@.len() == iv_size,
                forall|i: int| 0 <= i < 8 ==> #[trigger] iv@[i] == if i < j && i < iv_size {
                    iv_bytes@[i]
                } else {
                    0u8
                },
            decreases 8 - j,
        {
            iv[j] = iv_bytes[j];
            j += 1;
        }
        let entry = FrameEntry { size, flags, iv };
        assert(entry.iv@ =~= Seq::new(
            8,
            |j: int|
                if j < p[8] as int {
                    p[at + 8 + j]
                } else {
                    0u8
                },
        ));
        entries.push(entry);
    }
    Ok(SegmentCrypto { data_offset, mdat_end, entries })
}

/// The message about a frame table that does not fit.
fn table_text(frame_count: usize, entry_size: usize) -> (r: String)
    ensures
        r@ == table_message(frame_count as int, entry_size as int),
{
    owned("segment UUID: not enough data for ").concat(
        decimal_text(frame_count as u128).as_str(),
    ).concat(" entries of ").concat(decimal_text(entry_size as u128).as_str()).concat(" bytes")
}

/// A place that lies `by` farther back.
pub open spec fn shifted(place: Option<int>, by: int) -> Option<int> {
    match place {
        Some(at) => Some(at + by),
        None => None,
    }
}

proof fn lemma_stands_farther_back(b: Seq<u8>, data: Seq<u8>, at: int, pattern: Seq<u8>)
    requires
        0 <= at,
    ensures
        stands_at(b + data, b.len() + at, pattern) == stands_at(data, at, pattern),
{
    if at + pattern.len() <= data.len() {
        assert((b + data).subrange(b.len() + at, b.len() + at + pattern.len()) =~= data.subrange(
            at,
            at + pattern.len(),
        ));
    }
}

/// The boxes of data that stands behind other bytes are found where they are, farther back.
proof fn lemma_boxes_farther_back(
    b: Seq<u8>,
    data: Seq<u8>,
    pos: int,
    found: Option<int>,
    mdat_end: int,
)
    requires
        0 <= pos,
        found matches Some(at) ==> 0 <= at,
    ensures
        ({
            let n = b.len() as int;
            let alone = segment_boxes(data, pos, found, mdat_end);
            &&& segment_boxes(b + data, n + pos, shifted(found, n), n + mdat_end) == (
                shifted(alone.0, n),
                n + alone.1,
            )
            &&& alone.0 matches Some(at) ==> 0 <= at
        }),
    decreases data.len() - pos,
{
    let n = b.len() as int;
    let d = b + data;
    if pos + 4 <= data.len() {
        assert(be32(d, n + pos) == be32(data, pos));
    }
    assert(box_size(d, n + pos) == box_size(data, pos));
    assert(box_fits(d, n + pos) == box_fits(data, pos));
    if box_fits(data, pos) {
        let end = pos + box_size(data, pos);
        lemma_stands_farther_back(b, data, pos + 4, UUID_TYPE@);
        lemma_stands_farther_back(b, data, pos + 4, MDAT_TYPE@);
        lemma_stands_farther_back(b, data, pos + 8, QBZ_SEGMENT_UUID@);
        lemma_boxes_farther_back(b, data, end, Some(pos), mdat_end);
        lemma_boxes_farther_back(b, data, end, found, end);
        lemma_boxes_farther_back(b, data, end, found, mdat_end);
    }
}

/// A whole box `b` of a foreign type in front of a segment only shifts the offsets, which count
/// from the start of the segment: the segment can be parsed exactly when it can be without the
/// box, and then it has the same frames. The offset of the audio must be a position at all.
pub proof fn law_a_foreign_box_shifts_the_offsets(
    b: Seq<u8>,
    data: Seq<u8>,
    alone: Result<SegmentCrypto, Error>,
    behind: Result<SegmentCrypto, Error>,
)
    requires
        8 <= b.len() <= u32::MAX,
        be32(b, 0) == b.len(),
        !stands_at(b, 4, UUID_TYPE@),
        !stands_at(b, 4, MDAT_TYPE@),
        b.len() + data.len() <= usize::MAX,
        is_crypto_result(alone, data),
        is_crypto_result(behind, b + data),
        alone matches Ok(c) ==> c.data_offset + b.len() <= usize::MAX,
    ensures
        behind is Err <==> alone is Err,
        alone matches Ok(c) ==> behind matches Ok(s) && {
            &&& s.data_offset == c.data_offset + b.len()
            &&& s.mdat_end == c.mdat_end + b.len()
            &&& s.entries@ == c.entries@
        },
{
    let n = b.len() as int;
    let d = b + data;
    assert(be32(d, 0) == be32(b, 0));
    assert(box_fits(d, 0) && box_size(d, 0) == n);
    assert(d.subrange(4, 8) =~= b.subrange(4, 8));
    assert(segment_boxes(d, 0, None, d.len() as int) == segment_boxes(
        d,
        n,
        None,
        d.len() as int,
    ));
    lemma_boxes_farther_back(b, data, 0, None, data.len() as int);
    let (found, mdat_end) = segment_boxes(data, 0, None, data.len() as int);
    if let Some(start) = found {
        let p = data.skip(start + 24);
        if start + 24 <= data.len() {
            assert(d.skip(n + start + 24) =~= p);
        }
        if segment_fault(data, start) is None {
            let c = alone->Ok_0;
            let s = behind->Ok_0;
            assert(segment_fault(d, n + start) is None);
            assert forall|k: int| 0 <= k < c.entries@.len() implies #[trigger] s.entries@[k]
                == c.entries@[k] by {
                assert(is_frame_entry(c.entries@[k], p, 12 + k * (8 + p[8]), p[8] as int));
                assert(is_frame_entry(s.entries@[k], p, 12 + k * (8 + p[8]), p[8] as int));
                assert(s.entries@[k].iv =~= c.entries@[k].iv);
            }
            assert(s.entries@ =~= c.entries@);
        }
    }
}

/// The init box of data that stands behind other bytes is found where it is, farther back.
proof fn lemma_init_box_farther_back(b: Seq<u8>, data: Seq<u8>, pos: int)
    requires
        0 <= pos,
    ensures
        ({
            let n = b.len() as int;
            match init_box(data, pos) {
                Some((from, to)) => {
                    &&& 0 <= from <= to <= data.len()
                    &&& init_box(b + data, n + pos) == Some((n + from, n + to))
                },
                None => init_box(b + data, n + pos) is None,
            }
        }),
    decreases data.len() - pos,
{
    let n = b.len() as int;
    let d = b + data;
    if pos + 4 <= data.len() {
        assert(be32(d, n + pos) == be32(data, pos));
    }
    assert(box_size(d, n + pos) == box_size(data, pos));
    assert(box_fits(d, n + pos) == box_fits(data, pos));
    if box_fits(data, pos) {
        lemma_stands_farther_back(b, data, pos + 4, UUID_TYPE@);
        lemma_stands_farther_back(b, data, pos + 8, QBZ_INIT_UUID@);
        lemma_init_box_farther_back(b, data, pos + box_size(data, pos));
    }
}

/// A whole box `b` of a foreign type in front of an init segment changes nothing: what is parsed
/// with it is what is parsed without it.
pub proof fn law_a_foreign_box_before_an_init_segment_changes_nothing(
    b: Seq<u8>,
    data: Seq<u8>,
    r: Result<InitInfo, Error>,
)
    requires
        8 <= b.len() <= u32::MAX,
        be32(b, 0) == b.len(),
        !stands_at(b, 4, UUID_TYPE@),
    ensures
        is_init_segment_result(r, b + data) == is_init_segment_result(r, data),
{
    let n = b.len() as int;
    let d = b + data;
    assert(be32(d, 0) == be32(b, 0));
    assert(box_fits(d, 0) && box_size(d, 0) == n);
    assert(d.subrange(4, 8) =~= b.subrange(4, 8));
    assert(init_box(d, 0) == init_box(d, n));
    lemma_init_box_farther_back(b, data, 0);
    if let Some((from, to)) = init_box(data, 0) {
        assert(d.subrange(n + from, n + to) =~= data.subrange(from, to));
    }
}

/// The number that bytes stand for, the first byte counting most.
pub open spec fn number(b: Seq<u8>) -> int
    decreases b.len(),
{
    if b.len() == 0 {
        0
    } else {
        number(b.drop_last()) * 256 + b.last()
    }
}

/// The number in the `len` bytes from `at` on.
pub open spec fn number_at(d: Seq<u8>, at: int, len: int) -> int {
    number(d.subrange(at, at + len))
}

proof fn lemma_numbers(d: Seq<u8>, at: int)
    requires
        0 <= at,
    ensures
        at + 1 <= d.len() ==> number_at(d, at, 1) == d[at],
        at + 2 <= d.len() ==> number_at(d, at, 2) == be16(d, at),
        at + 3 <= d.len() ==> number_at(d, at, 3) == be24(d, at),
        at + 4 <= d.len() ==> number_at(d, at, 4) == be32(d, at),
{
    reveal_with_fuel(number, 5);
    if at + 1 <= d.len() {
        assert(d.subrange(at, at + 1).drop_last() =~= Seq::<u8>::empty());
    }
    if at + 2 <= d.len() {
        assert(d.subrange(at, at + 2).drop_last() =~= d.subrange(at, at + 1));
    }
    if at + 3 <= d.len() {
        assert(d.subrange(at, at + 3).drop_last() =~= d.subrange(at, at + 2));
    }
    if at + 4 <= d.len() {
        assert(d.subrange(at, at + 4).drop_last() =~= d.subrange(at, at + 3));
    }
}

/// A box of `size` bytes and of a type starts at `at`.
pub open spec fn is_box(d: Seq<u8>, at: int, size: int, kind: Seq<u8>) -> bool {
    &&& 0 <= at
    &&& 8 <= size
    &&& at + size <= d.len()
    &&& number_at(d, at, 4) == size
    &&& d.subrange(at + 4, at + 8) == kind
}

proof fn lemma_box(d: Seq<u8>, at: int, size: int, kind: Seq<u8>)
    requires
        is_box(d, at, size, kind),
        kind.len() == 4,
    ensures
        box_fits(d, at),
        box_size(d, at) == size,
        stands_at(d, at + 4, kind),
        forall|other: Seq<u8>|
            other.len() == 4 && other != kind ==> !#[trigger] stands_at(d, at + 4, other),
{
    lemma_numbers(d, at);
}

/// The parts of an audio segment: a box with the table of `count` frames, whose vectors have eight
/// bytes, and a box with the audio to the end.
pub open spec fn is_audio_segment(d: Seq<u8>, count: int, table: int) -> bool {
    &&& 0 <= count
    &&& table == 36 + 16 * count
    &&& is_box(d, 0, table, seq![0x75u8, 0x75u8, 0x69u8, 0x64u8])
    &&& d.subrange(8, 24) == QBZ_SEGMENT_UUID@
    &&& d[32] == 8
    &&& number_at(d, 33, 3) == count
    &&& is_box(d, table, d.len() - table, seq![0x6du8, 0x64u8, 0x61u8, 0x74u8])
}

/// A segment is read as it is written: where its audio starts and ends, and of each frame its
/// length, its flags and its vector.
pub proof fn law_a_segment_is_read_as_it_is_written(
    data: &[u8],
    count: int,
    table: int,
    r: Result<SegmentCrypto, Error>,
)
    requires
        call_ensures(parse_segment_crypto, (data,), r),
        is_audio_segment(data@, count, table),
        data@.len() <= usize::MAX,
    ensures
        r matches Ok(c) && {
            &&& c.data_offset == number_at(data@, 28, 4)
            &&& c.mdat_end == data@.len()
            &&& c.entries@.len() == count
            &&& forall|k: int|
                0 <= k < count ==> (#[trigger] c.entries@[k]).size == number_at(
                    data@,
                    36 + 16 * k,
                    4,
                ) && c.entries@[k].flags == number_at(data@, 36 + 16 * k + 6, 2)
                    && c.entries@[k].iv@ == data@.subrange(36 + 16 * k + 8, 36 + 16 * k + 16)
        },
{
    let d = data@;
    let uuid = seq![0x75u8, 0x75u8, 0x69u8, 0x64u8];
    let mdat = seq![0x6du8, 0x64u8, 0x61u8, 0x74u8];
    assert(UUID_TYPE@ =~= uuid);
    assert(MDAT_TYPE@ =~= mdat);
    assert(uuid[0] != mdat[0]);
    lemma_box(d, 0, table, uuid);
    lemma_box(d, table, d.len() - table, mdat);
    assert(stands_at(d, 8, QBZ_SEGMENT_UUID@));
    assert(!stands_at(d, table + 4, UUID_TYPE@));
    assert(!box_fits(d, d.len() as int));
    assert(segment_boxes(d, d.len() as int, Some(0), d.len() as int) == (
        Some(0int),
        d.len() as int,
    ));
    assert(segment_boxes(d, table, Some(0), d.len() as int) == (Some(0int), d.len() as int));
    assert(segment_boxes(d, 0, None, d.len() as int) == (Some(0int), d.len() as int));
    let p = d.skip(24);
    lemma_numbers(d, 28);
    lemma_numbers(d, 33);
    assert(be32(p, 4) == be32(d, 28));
    assert(be24(p, 9) == be24(d, 33));
    assert(p[8] == d[32]);
    assert(be24(p, 9) * (8 + p[8]) == 16 * count) by (nonlinear_arith)
        requires
            be24(p, 9) == count,
            p[8] == 8,
    ;
    assert(segment_fault(d, 0) is None);
    let c = r->Ok_0;
    assert forall|k: int| 0 <= k < count implies (#[trigger] c.entries@[k]).size == number_at(
        d,
        36 + 16 * k,
        4,
    ) && c.entries@[k].flags == number_at(d, 36 + 16 * k + 6, 2) && c.entries@[k].iv@ == d.subrange(
        36 + 16 * k + 8,
        36 + 16 * k + 16,
    ) by {
        assert(k * (8 + p[8]) == 16 * k) by (nonlinear_arith)
            requires
                p[8] == 8,
        ;
        assert(is_frame_entry(c.entries@[k], p, 12 + k * (8 + p[8]), p[8] as int));
        lemma_numbers(d, 36 + 16 * k);
        lemma_numbers(d, 36 + 16 * k + 6);
        assert(be32(p, 12 + 16 * k) == be32(d, 36 + 16 * k));
        assert(be16(p, 12 + 16 * k + 6) == be16(d, 36 + 16 * k + 6));
        assert(c.entries@[k].iv@ =~= d.subrange(36 + 16 * k + 8, 36 + 16 * k + 16));
    }
}

proof fn lemma_table_entries(p: Seq<u8>, pos: int, count: nat)
    requires
        0 <= pos,
        pos + 8 * count <= p.len(),
    ensures
        table_entries(p, pos, count).len() == count,
        forall|k: int|
            0 <= k < count ==> (#[trigger] table_entries(p, pos, count)[k]).byte_len == number_at(
                p,
                pos + 8 * k,
                4,
            ) && table_entries(p, pos, count)[k].sample_count == number_at(p, pos + 8 * k + 4, 4),
    decreases count,
{
    if count > 0 {
        lemma_table_entries(p, pos + 8, (count - 1) as nat);
        lemma_numbers(p, pos);
        lemma_numbers(p, pos + 4);
        let rest = table_entries(p, pos + 8, (count - 1) as nat);
        let all = table_entries(p, pos, count);
        assert forall|k: int| 0 <= k < count implies (#[trigger] all[k]).byte_len == number_at(
            p,
            pos + 8 * k,
            4,
        ) && all[k].sample_count == number_at(p, pos + 8 * k + 4, 4) by {
            if k > 0 {
                assert(all[k] == rest[k - 1]);
            }
        }
    }
}

/// The parts of an init segment: one box with the FLAC header of `raw` bytes, the name of a key of
/// `key` bytes and the table of `count` segments.
pub open spec fn is_init_segment(d: Seq<u8>, raw: int, key: int, count: int) -> bool {
    &&& raw >= 42
    &&& 0 <= key
    &&& 0 <= count
    &&& d.len() == 55 + raw + key + 8 * count
    &&& is_box(d, 0, d.len() as int, seq![0x75u8, 0x75u8, 0x69u8, 0x64u8])
    &&& d.subrange(8, 24) == QBZ_INIT_UUID@
    &&& number_at(d, 50, 2) == raw
    &&& d.subrange(52, 56) == seq![0x66u8, 0x4cu8, 0x61u8, 0x43u8]
    &&& d[52 + raw] == key
    &&& number_at(d, 53 + raw + key, 2) == count
}

/// An init segment is read as it is written: the first forty-two bytes of the FLAC header, marked
/// as its last block, and of each segment its length and how many samples it has.
pub proof fn law_an_init_segment_is_read_as_it_is_written(
    data: &[u8],
    raw: int,
    key: int,
    count: int,
    r: Result<InitInfo, Error>,
)
    requires
        call_ensures(parse_init_segment, (data,), r),
        is_init_segment(data@, raw, key, count),
    ensures
        r matches Ok(info) && {
            &&& info.flac_header@.len() == 42
            &&& forall|i: int|
                0 <= i < 42 ==> #[trigger] info.flac_header@[i] == if i == 4 {
                    data@[52 + i] | 0x80
                } else {
                    data@[52 + i]
                }
            &&& info.segment_table@.len() == count
            &&& forall|k: int|
                0 <= k < count ==> (#[trigger] info.segment_table@[k]).byte_len == number_at(
                    data@,
                    55 + raw + key + 8 * k,
                    4,
                ) && info.segment_table@[k].sample_count == number_at(
                    data@,
                    55 + raw + key + 8 * k + 4,
                    4,
                )
        },
{
    let d = data@;
    let uuid = seq![0x75u8, 0x75u8, 0x69u8, 0x64u8];
    assert(UUID_TYPE@ =~= uuid);
    lemma_box(d, 0, d.len() as int, uuid);
    assert(stands_at(d, 8, QBZ_INIT_UUID@));
    assert(init_box(d, 0) == Some((24int, d.len() as int)));
    let p = d.subrange(24, d.len() as int);
    lemma_numbers(d, 50);
    assert(be16(p, 26) == be16(d, 50));
    let header = p.subrange(28, 28 + raw);
    assert(FLAC_MAGIC@ =~= seq![0x66u8, 0x4cu8, 0x61u8, 0x43u8]);
    assert(windows4(header)[0] =~= d.subrange(52, 56));
    lemma_first_match(windows4(header), is_magic(), 0);
    let at = 28 + raw + 1 + key;
    assert(p[28 + raw] == d[52 + raw]);
    lemma_numbers(d, 53 + raw + key);
    assert(be16(p, at) == be16(d, 53 + raw + key));
    lemma_table_entries(p, at + 2, count as nat);
    let info = r->Ok_0;
    assert(info.segment_table@ == table_entries(p, at + 2, count as nat));
    assert forall|k: int|
        0 <= k < count implies (#[trigger] info.segment_table@[k]).byte_len == number_at(
        d,
        55 + raw + key + 8 * k,
        4,
    ) && info.segment_table@[k].sample_count == number_at(d, 55 + raw + key + 8 * k + 4, 4) by {
        assert(p.subrange(at + 2 + 8 * k, at + 2 + 8 * k + 4) =~= d.subrange(
            55 + raw + key + 8 * k,
            55 + raw + key + 8 * k + 4,
        ));
        assert(p.subrange(at + 2 + 8 * k + 4, at + 2 + 8 * k + 8) =~= d.subrange(
            55 + raw + key + 8 * k + 4,
            55 + raw + key + 8 * k + 8,
        ));
    }
}

/// The audio of a segment ends with its box.
pub proof fn law_the_audio_ends_with_its_box(
    data: &[u8],
    count: int,
    table: int,
    c: Result<SegmentCrypto, Error>,
    r: usize,
)
    requires
        call_ensures(parse_segment_crypto, (data,), c),
        call_ensures(media_end, (data,), r),
        is_audio_segment(data@, count, table),
        data@.len() <= usize::MAX,
    ensures
        r == data@.len(),
        c matches Ok(read) && read.mdat_end == r,
{
    law_a_segment_is_read_as_it_is_written(data, count, table, c);
}

/// A box is as long as the number at its start says: one that says nothing reaches to the end, and
/// one that is shorter than its own head has no length.
pub proof fn law_a_box_is_as_long_as_it_says(data: &[u8], pos: usize, r: usize)
    requires
        call_ensures(read_box_size, (data, pos), r),
        pos + 4 <= data@.len(),
    ensures
        number_at(data@, pos as int, 4) == 0 ==> r == data@.len() - pos,
        2 <= number_at(data@, pos as int, 4) < 8 ==> r == 0,
        number_at(data@, pos as int, 4) >= 8 ==> r == number_at(data@, pos as int, 4),
{
    lemma_numbers(data@, pos as int);
}

} // verus!

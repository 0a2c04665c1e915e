//! Decryption of audio segments: of a whole one, and of one whose bytes are still arriving.

use vstd::prelude::*;
use vstd::slice::slice_subrange;
use crate::cmaf::{be16, be24, be32, box_fits, box_size, is_frame_entry, is_segment_table};
use crate::cmaf::{is_crypto_result, media_end, parse_segment_crypto, segment_boxes, segment_fault};
use crate::cmaf::{FrameEntry, SegmentCrypto};
use crate::crypto::{aes128_ctr_keystream, decrypt_frame, frame_decrypted, frame_nonce};
use crate::error::Error;
use crate::flac_source::{after_skip, dropped, SharedDownloadState};
use crate::text::{decimal, decimal_text, owned};

verus! {

/// So many new bytes are worth keeping.
pub const PERSIST_STEP: usize = 0x4_0000;

/// The start of the frame behind the first `n` frames.
pub open spec fn frame_pos(entries: Seq<FrameEntry>, start: int, n: int) -> int
    decreases n,
{
    if n <= 0 {
        start
    } else {
        frame_pos(entries, start, n - 1) + entries[n - 1].size
    }
}

/// The audio of a frame.
pub open spec fn frame_plain(key: Seq<u8>, entry: FrameEntry, raw: Seq<u8>) -> Seq<u8> {
    if entry.flags != 0 {
        frame_decrypted(key, entry.iv@, raw)
    } else {
        raw
    }
}

/// The audio of the first `n` frames.
pub open spec fn frames_plain(
    key: Seq<u8>,
    d: Seq<u8>,
    entries: Seq<FrameEntry>,
    start: int,
    n: int,
) -> Seq<u8>
    decreases n,
{
    if n <= 0 {
        Seq::empty()
    } else {
        frames_plain(key, d, entries, start, n - 1) + frame_plain(
            key,
            entries[n - 1],
            d.subrange(frame_pos(entries, start, n - 1), frame_pos(entries, start, n)),
        )
    }
}

/// The unencrypted audio between the last frame and the end of the media box, as far as it is
/// there.
pub open spec fn trailing(d: Seq<u8>, from: int, mdat_end: int) -> Seq<u8> {
    let end = if mdat_end < d.len() {
        mdat_end
    } else {
        d.len() as int
    };
    if from < end {
        d.subrange(from, end)
    } else {
        Seq::empty()
    }
}

/// The bytes hold a frame table.
pub open spec fn has_table(d: Seq<u8>) -> bool {
    segment_boxes(d, 0, None, d.len() as int).0 matches Some(start) && segment_fault(
        d,
        start,
    ) is None
}

/// `c` is the frame table that the bytes hold.
pub open spec fn is_table_of(c: SegmentCrypto, d: Seq<u8>) -> bool {
    let (found, mdat_end) = segment_boxes(d, 0, None, d.len() as int);
    found matches Some(start) && segment_fault(d, start) is None && is_segment_table(
        c,
        d,
        start,
        mdat_end,
    )
}

/// Every frame of the table is there.
pub open spec fn frames_fit(c: SegmentCrypto, d: Seq<u8>) -> bool {
    c.entries@.len() == 0 || frame_pos(
        c.entries@,
        c.data_offset as int,
        c.entries@.len() as int,
    ) <= d.len()
}

/// The audio of a whole segment with the frame table `c`.
pub open spec fn segment_plain(key: Seq<u8>, d: Seq<u8>, c: SegmentCrypto) -> Seq<u8> {
    let n = c.entries@.len() as int;
    frames_plain(key, d, c.entries@, c.data_offset as int, n) + trailing(
        d,
        frame_pos(c.entries@, c.data_offset as int, n),
        c.mdat_end as int,
    )
}

/// The audio of a segment that arrived in pieces, `c` being the frame table that came first. Its
/// media box ends where all that has arrived shows it to.
pub open spec fn streamed_plain(key: Seq<u8>, d: Seq<u8>, c: SegmentCrypto) -> Seq<u8> {
    let n = c.entries@.len() as int;
    frames_plain(key, d, c.entries@, c.data_offset as int, n) + trailing(
        d,
        frame_pos(c.entries@, c.data_offset as int, n),
        segment_boxes(d, 0, None, d.len() as int).1,
    )
}

/// How many frames are there when `avail` bytes are, counting on from the first `k`.
pub open spec fn ready(entries: Seq<FrameEntry>, start: int, avail: int, k: int) -> int
    decreases entries.len() - k,
{
    if 0 <= k < entries.len() && frame_pos(entries, start, k + 1) <= avail {
        ready(entries, start, avail, k + 1)
    } else {
        k
    }
}

/// Frames lie one behind the other.
proof fn lemma_frame_pos(entries: Seq<FrameEntry>, start: int, a: int, b: int)
    requires
        0 <= a <= b,
    ensures
        start <= frame_pos(entries, start, a) <= frame_pos(entries, start, b),
    decreases b,
{
    if b > 0 {
        if a == b {
            lemma_frame_pos(entries, start, a - 1, b - 1);
        } else {
            lemma_frame_pos(entries, start, a, b - 1);
        }
    }
}

/// Bytes that arrive later change nothing of the frames that are there.
proof fn lemma_frames_plain_prefix(
    key: Seq<u8>,
    d: Seq<u8>,
    more: Seq<u8>,
    entries: Seq<FrameEntry>,
    start: int,
    n: int,
)
    requires
        0 <= start,
        0 <= n,
        n > 0 ==> frame_pos(entries, start, n) <= d.len(),
    ensures
        frames_plain(key, d + more, entries, start, n) == frames_plain(key, d, entries, start, n),
    decreases n,
{
    if n > 0 {
        lemma_frame_pos(entries, start, n - 1, n);
        lemma_frame_pos(entries, start, 0, n - 1);
        lemma_frames_plain_prefix(key, d, more, entries, start, n - 1);
        let a = frame_pos(entries, start, n - 1);
        let b = frame_pos(entries, start, n);
        assert((d + more).subrange(a, b) =~= d.subrange(a, b));
    }
}

/// The audio of the frame at `from`.
fn decode_frame(key: &[u8; 16], entry: &FrameEntry, bytes: &Vec<u8>, from: usize, to: usize) -> (r:
    Vec<u8>)
    requires
        from <= to <= bytes@.len(),
    ensures
        r@ == frame_plain(key@, *entry, bytes@.subrange(from as int, to as int)),
        r@.len() == to - from,
{
    let mut frame: Vec<u8> = Vec::new();
    frame.extend_from_slice(slice_subrange(bytes.as_slice(), from, to));
    assert(frame@ =~= bytes@.subrange(from as int, to as int));
    if entry.flags != 0 {
        decrypt_frame(key, &entry.iv, frame.as_mut_slice());
    }
    frame
}

/// The audio of a whole segment; nothing where it has no frame table or lacks a frame.
pub fn decode_segment(seg_bytes: &Vec<u8>, key: &[u8; 16]) -> (r: Option<Vec<u8>>)
    ensures
        match r {
            Some(audio) => exists|c: SegmentCrypto| #[trigger]
                is_table_of(c, seg_bytes@) && frames_fit(c, seg_bytes@) && audio@ == segment_plain(
                    key@,
                    seg_bytes@,
                    c,
                ),
            None => !has_table(seg_bytes@) || exists|c: SegmentCrypto| #[trigger]
                is_table_of(c, seg_bytes@) && !frames_fit(c, seg_bytes@),
        },
{
    let crypto = match parse_segment_crypto(seg_bytes.as_slice()) {
        Ok(crypto) => crypto,
        Err(_) => return None,
    };
    assert(is_table_of(crypto, seg_bytes@));
    let total: usize = seg_bytes.len();
    let count: usize = crypto.entries.len();
    let ghost entries = crypto.entries@;
    let ghost start = crypto.data_offset as int;
    let mut all_decrypted: Vec<u8> = Vec::new();
    let mut data_pos: usize = crypto.data_offset;
    for k in 0..count
        invariant
            total == seg_bytes@.len(),
            entries == crypto.entries@,
            count == entries.len(),
            start == crypto.data_offset,
            is_table_of(crypto, seg_bytes@),
            data_pos == frame_pos(entries, start, k as int),
            k > 0 ==> data_pos <= total,
            all_decrypted@ == frames_plain(key@, seg_bytes@, entries, start, k as int),
    {
        let entry = crypto.entries[k];
        let frame_size: usize = entry.size as usize;
        proof {
            lemma_frame_pos(entries, start, k + 1, count as int);
        }
        if data_pos > total || frame_size > total - data_pos {
            assert(!frames_fit(crypto, seg_bytes@));
            return None;
        }
        let frame_end: usize = data_pos + frame_size;
        let mut frame = decode_frame(key, &entry, seg_bytes, data_pos, frame_end);
        all_decrypted.append(&mut frame);
        data_pos = frame_end;
    }
    let mdat_end: usize = if crypto.mdat_end < total {
        crypto.mdat_end
    } else {
        total
    };
    if data_pos < mdat_end {
        all_decrypted.extend_from_slice(slice_subrange(seg_bytes.as_slice(), data_pos, mdat_end));
    }
    assert(all_decrypted@ =~= segment_plain(key@, seg_bytes@, crypto));
    Some(all_decrypted)
}

/// A segment whose bytes are still arriving.
pub struct SegmentFetch {
    seg: u32,
    key: [u8; 16],
    skip_bytes: usize,
    already_sent: usize,
    buf: Vec<u8>,
    header: Option<SegmentCrypto>,
    all_decrypted: Vec<u8>,
    data_pos: usize,
    entry_idx: usize,
    last_persisted_len: usize,
}

/// What to do with what has arrived.
pub struct FetchStep {
    /// The audio to send now.
    pub send: Vec<u8>,
    /// Enough is new for the decrypted start to be worth keeping.
    pub persist: bool,
    /// Every frame is decrypted.
    pub done: bool,
}

/// A message about segment `seg`.
pub open spec fn segment_message(seg: u32, what: Seq<char>) -> Seq<char> {
    "Segment "@ + decimal(seg as nat) + ": "@ + what
}

/// A message about segment `seg`.
pub fn segment_text(seg: u32, what: &str) -> (r: String)
    ensures
        r@ == segment_message(seg, what@),
{
    owned("Segment ").concat(decimal_text(seg as u128).as_str()).concat(": ").concat(what)
}

impl SegmentFetch {
    /// The number of the segment.
    pub closed spec fn segment(&self) -> u32 {
        self.seg
    }

    /// The key of the stream.
    pub closed spec fn key(&self) -> Seq<u8> {
        self.key@
    }

    /// What has arrived.
    pub closed spec fn arrived(&self) -> Seq<u8> {
        self.buf@
    }

    /// The frame table, once it has arrived.
    pub closed spec fn table(&self) -> Option<SegmentCrypto> {
        self.header
    }

    /// The frames that are decrypted.
    pub closed spec fn done_frames(&self) -> int {
        self.entry_idx as int
    }

    /// The audio that is decrypted.
    pub closed spec fn audio(&self) -> Seq<u8> {
        self.all_decrypted@
    }

    /// The bytes of the audio that are not sent: the listener left them out or has them already.
    pub closed spec fn unsent(&self) -> int {
        self.skip_bytes + self.already_sent
    }

    /// The length of what was kept last.
    pub closed spec fn persisted(&self) -> int {
        self.last_persisted_len as int
    }

    /// The decrypted audio is that of the frames that are there.
    pub closed spec fn wf(&self) -> bool {
        match self.header {
            None => {
                &&& self.entry_idx == 0
                &&& self.all_decrypted@.len() == 0
            },
            Some(c) => {
                &&& self.seg > 0
                &&& self.skip_bytes + self.already_sent <= usize::MAX
                &&& self.entry_idx <= c.entries@.len()
                &&& self.data_pos == frame_pos(
                    c.entries@,
                    c.data_offset as int,
                    self.entry_idx as int,
                )
                &&& self.entry_idx > 0 ==> self.data_pos <= self.buf@.len()
                &&& self.all_decrypted@ == frames_plain(
                    self.key@,
                    self.buf@,
                    c.entries@,
                    c.data_offset as int,
                    self.entry_idx as int,
                )
            },
        }
    }

    /// The segment, the key and what the listener needs stay.
    pub open spec fn same_request(&self, other: &Self) -> bool {
        &&& self.segment() == other.segment()
        &&& self.key() == other.key()
        &&& self.unsent() == other.unsent()
    }

    /// What was asked for stays.
    spec fn same_fields(&self, other: &Self) -> bool {
        &&& self.seg == other.seg
        &&& self.key == other.key
        &&& self.skip_bytes == other.skip_bytes
        &&& self.already_sent == other.already_sent
    }

    /// A segment of which nothing has arrived. The first `skip_bytes` of its audio are left out,
    /// and the next `already_sent` were sent before.
    pub fn new(seg: u32, key: [u8; 16], skip_bytes: usize, already_sent: usize) -> (r: Self)
        ensures
            r.wf(),
            r.segment() == seg,
            r.key() == key@,
            r.arrived() == Seq::<u8>::empty(),
            r.table() is None,
            r.done_frames() == 0,
            r.audio() == Seq::<u8>::empty(),
            r.unsent() == skip_bytes + already_sent,
            r.persisted() == 0,
    {
        SegmentFetch {
            seg,
            key,
            skip_bytes,
            already_sent,
            buf: Vec::new(),
            header: None,
            all_decrypted: Vec::new(),
            data_pos: 0,
            entry_idx: 0,
            last_persisted_len: 0,
        }
    }

    /// Takes bytes that arrived and decrypts the frames that are now there.
    pub fn feed(&mut self, chunk: &[u8]) -> (r: Result<FetchStep, String>)
        requires
            old(self).wf(),
        ensures
            final(self).same_request(old(self)),
            final(self).arrived() == old(self).arrived() + chunk@,
            match r {
                Ok(step) => {
                    &&& final(self).wf()
                    &&& final(self).table() is Some <==> old(self).table() is Some || has_table(
                        final(self).arrived(),
                    )
                    &&& old(self).table() is Some ==> final(self).table() == old(self).table()
                    &&& old(self).table() is None ==> (final(self).table() matches Some(c)
                        ==> is_table_of(c, final(self).arrived()))
                    &&& match final(self).table() {
                        None => {
                            &&& step.send@.len() == 0
                            &&& !step.persist
                            &&& !step.done
                            &&& final(self).audio() == old(self).audio()
                        },
                        Some(c) => {
                            &&& feed_fault(
                                c,
                                old(self).table() is None,
                                old(self).segment(),
                                old(self).unsent(),
                                final(self).arrived().len() as int,
                                old(self).done_frames(),
                            ) is None
                            &&& final(self).done_frames() == ready(
                                c.entries@,
                                c.data_offset as int,
                                final(self).arrived().len() as int,
                                old(self).done_frames(),
                            )
                            &&& final(self).audio() == frames_plain(
                                final(self).key(),
                                final(self).arrived(),
                                c.entries@,
                                c.data_offset as int,
                                final(self).done_frames(),
                            )
                            &&& dropped(old(self).audio(), old(self).unsent()) + step.send@
                                == dropped(final(self).audio(), old(self).unsent())
                            &&& step.persist == (final(self).audio().len() - old(self).persisted()
                                >= PERSIST_STEP)
                            &&& step.done == (final(self).done_frames() == c.entries@.len())
                        },
                    }
                    &&& final(self).persisted() == old(self).persisted()
                },
                Err(message) => exists|c: SegmentCrypto|
                    #![trigger is_table_in_force(c, old(self).table(), final(self).arrived())]
                    is_table_in_force(c, old(self).table(), final(self).arrived())
                        && feed_fault(
                        c,
                        old(self).table() is None,
                        old(self).segment(),
                        old(self).unsent(),
                        final(self).arrived().len() as int,
                        old(self).done_frames(),
                    ) == Some(message@),
            },
    {
        let ghost before = self.buf@;
        self.buf.extend_from_slice(chunk);
        assert(self.buf@ =~= before + chunk@);
        if self.header.is_none() {
            match parse_segment_crypto(self.buf.as_slice()) {
                Ok(crypto) => {
                    assert(is_table_of(crypto, self.buf@));
                    assert(is_table_in_force(crypto, old(self).table(), self.buf@));
                    if self.seg == 0 {
                        return Err(owned("Segment index must start at 1"));
                    }
                    if self.already_sent > usize::MAX - self.skip_bytes {
                        return Err(segment_text(self.seg, "skip-byte count overflow"));
                    }
                    self.data_pos = crypto.data_offset;
                    self.header = Some(crypto);
                    assert(self.all_decrypted@ =~= Seq::<u8>::empty());
                },
                Err(_) => {
                    assert(!has_table(self.buf@));
                    return Ok(FetchStep { send: Vec::new(), persist: false, done: false });
                },
            }
        } else {
            proof {
                let c = self.header->0;
                if self.entry_idx > 0 {
                    lemma_frame_pos(c.entries@, c.data_offset as int, 0, self.entry_idx as int);
                }
                lemma_frames_plain_prefix(
                    self.key@,
                    before,
                    chunk@,
                    c.entries@,
                    c.data_offset as int,
                    self.entry_idx as int,
                );
            }
        }
        let ghost table = self.header;
        match self.decode_ready() {
            Ok(send) => {
                let count: usize = match &self.header {
                    Some(c) => c.entries.len(),
                    None => 0,
                };
                let total: usize = self.all_decrypted.len();
                let persist: bool = total.saturating_sub(self.last_persisted_len) >= PERSIST_STEP;
                Ok(FetchStep { send, persist, done: self.entry_idx >= count })
            },
            Err(message) => {
                assert(is_table_in_force(table->0, old(self).table(), self.buf@));
                Err(message)
            },
        }
    }

    /// Decrypts the frames that are there and returns the part of them to send.
    fn decode_ready(&mut self) -> (r: Result<Vec<u8>, String>)
        requires
            old(self).wf(),
            old(self).header is Some,
        ensures
            final(self).same_fields(old(self)),
            final(self).buf == old(self).buf,
            final(self).header == old(self).header,
            final(self).last_persisted_len == old(self).last_persisted_len,
            ({
                let c = old(self).header->0;
                let start = c.data_offset as int;
                let next = ready(
                    c.entries@,
                    start,
                    old(self).buf@.len() as int,
                    old(self).entry_idx as int,
                );
                match r {
                    Ok(send) => {
                        &&& final(self).wf()
                        &&& final(self).entry_idx == next
                        &&& next < c.entries@.len() ==> frame_pos(c.entries@, start, next + 1)
                            <= usize::MAX
                        &&& dropped(old(self).all_decrypted@, old(self).unsent()) + send@
                            == dropped(final(self).all_decrypted@, old(self).unsent())
                    },
                    Err(message) => {
                        &&& 0 <= next < c.entries@.len()
                        &&& frame_pos(c.entries@, start, next + 1) > usize::MAX
                        &&& message@ == segment_message(
                            old(self).seg,
                            "frame position overflow"@,
                        )
                    },
                }
            }),
    {
        let total_skip: usize = self.skip_bytes + self.already_sent;
        let avail: usize = self.buf.len();
        let count: usize = match &self.header {
            Some(c) => c.entries.len(),
            None => 0,
        };
        let ghost c = self.header->0;
        let ghost entries = c.entries@;
        let ghost start = c.data_offset as int;
        let ghost next = ready(entries, start, avail as int, self.entry_idx as int);
        let mut batch: Vec<u8> = Vec::new();
        assert(dropped(self.all_decrypted@, total_skip as int) + batch@ =~= dropped(
            self.all_decrypted@,
            total_skip as int,
        ));
        while self.entry_idx < count
            invariant
                self.same_fields(old(self)),
                self.buf == old(self).buf,
                self.header == old(self).header,
                self.last_persisted_len == old(self).last_persisted_len,
                self.header == Some(c),
                entries == c.entries@,
                start == c.data_offset,
                count == entries.len(),
                avail == self.buf@.len(),
                total_skip == old(self).unsent(),
                self.wf(),
                next == ready(entries, start, avail as int, old(self).entry_idx as int),
                next == ready(entries, start, avail as int, self.entry_idx as int),
                dropped(old(self).all_decrypted@, total_skip as int) + batch@ == dropped(
                    self.all_decrypted@,
                    total_skip as int,
                ),
            ensures
                self.same_fields(old(self)),
                self.buf == old(self).buf,
                self.header == old(self).header,
                self.last_persisted_len == old(self).last_persisted_len,
                self.wf(),
                self.entry_idx == next,
                next < entries.len() ==> frame_pos(entries, start, next + 1) <= usize::MAX,
                total_skip == old(self).unsent(),
                dropped(old(self).all_decrypted@, total_skip as int) + batch@ == dropped(
                    self.all_decrypted@,
                    total_skip as int,
                ),
            decreases count - self.entry_idx,
        {
            let entry: FrameEntry = match &self.header {
                Some(c) => c.entries[self.entry_idx],
                None => return Ok(batch),
            };
            let frame_end: usize = match self.data_pos.checked_add(entry.size as usize) {
                Some(end) => end,
                None => return Err(segment_text(self.seg, "frame position overflow")),
            };
            if avail < frame_end {
                break;
            }
            let mut frame = decode_frame(&self.key, &entry, &self.buf, self.data_pos, frame_end);
            let ghost plain = frame@;
            let ghost audio = self.all_decrypted@;
            let ghost sent = batch@;
            let accumulated: usize = self.all_decrypted.len();
            let frame_len: usize = frame.len();
            let mut copy: Vec<u8> = Vec::new();
            copy.extend_from_slice(frame.as_slice());
            assert(copy@ =~= plain);
            self.all_decrypted.append(&mut frame);
            let next_accumulated: usize = self.all_decrypted.len();
            if next_accumulated > total_skip {
                if accumulated < total_skip {
                    let offset: usize = total_skip - accumulated;
                    batch.extend_from_slice(slice_subrange(copy.as_slice(), offset, frame_len));
                    assert(batch@ =~= sent + plain.skip(offset as int));
                } else {
                    batch.append(&mut copy);
                    assert(batch@ =~= sent + plain);
                }
            }
            assert(dropped(audio + plain, total_skip as int) =~= dropped(audio, total_skip as int)
                + batch@.skip(sent.len() as int));
            assert(dropped(old(self).all_decrypted@, total_skip as int) + batch@ =~= (dropped(
                old(self).all_decrypted@,
                total_skip as int,
            ) + sent) + batch@.skip(sent.len() as int));
            self.data_pos = frame_end;
            self.entry_idx += 1;
        }
        Ok(batch)
    }

    /// The decrypted start of the segment.
    pub fn decrypted(&self) -> (r: &Vec<u8>)
        ensures
            r@ == self.audio(),
    {
        &self.all_decrypted
    }

    /// Keeps the decrypted start of the segment with the stream, for a listener that comes back.
    pub fn persist(&mut self, state: &mut SharedDownloadState) -> (r: Result<(), String>)
        requires
            old(self).wf(),
            old(state).wf(),
        ensures
            final(state).wf(),
            final(state).same_stream(old(state)),
            final(state).cache_written == old(state).cache_written,
            final(state).gap_fill_running == old(state).gap_fill_running,
            final(self).wf(),
            final(self).same_request(old(self)),
            final(self).arrived() == old(self).arrived(),
            final(self).table() == old(self).table(),
            final(self).audio() == old(self).audio(),
            final(self).done_frames() == old(self).done_frames(),
            match r {
                Err(message) => {
                    &&& !(1 <= old(self).segment() < old(state).n_segments)
                    &&& message@ == segment_message(
                        old(self).segment(),
                        "progress index out of bounds"@,
                    )
                    &&& *final(state) == *old(state)
                },
                Ok(_) => {
                    let at = old(self).segment() - 1;
                    let known = match old(state).in_progress@[at] {
                        Some(known) => known@.len(),
                        None => 0,
                    };
                    &&& 1 <= old(self).segment() < old(state).n_segments
                    &&& if old(self).audio().len() > known {
                        &&& final(state).in_progress@[at] matches Some(data) && data@ == old(self).audio()
                        &&& final(self).persisted() == old(self).audio().len()
                    } else {
                        &&& *final(state) == *old(state)
                        &&& final(self).persisted() == old(self).persisted()
                    }
                    &&& final(state).downloaded == old(state).downloaded
                    &&& forall|i: int|
                        0 <= i < old(state).in_progress@.len() && i != at
                            ==> #[trigger] final(state).in_progress@[i] == old(state).in_progress@[i]
                },
            },
    {
        match state.store_partial(self.seg, &self.all_decrypted) {
            Some(kept) => {
                if kept {
                    self.last_persisted_len = self.all_decrypted.len();
                }
                Ok(())
            },
            None => Err(segment_text(self.seg, "progress index out of bounds")),
        }
    }

    /// Every frame of the segment is decrypted.
    pub open spec fn is_decrypted(&self) -> bool {
        self.table() matches Some(c) && self.done_frames() == c.entries@.len()
    }

    /// The whole audio of the segment, whose frames are all decrypted: the unencrypted rest of the
    /// media box is audio too.
    pub open spec fn whole_audio(&self) -> Seq<u8> {
        streamed_plain(self.key(), self.arrived(), self.table()->0)
    }

    /// The part to send of the unencrypted rest, once the segment has arrived.
    pub fn rest(&self) -> (r: Vec<u8>)
        requires
            self.wf(),
            self.is_decrypted(),
        ensures
            dropped(self.audio(), self.unsent()) + r@ == dropped(self.whole_audio(), self.unsent()),
    {
        let total_skip: usize = self.skip_bytes + self.already_sent;
        let mdat_end: usize = media_end(self.buf.as_slice());
        let ghost audio = self.all_decrypted@;
        let ghost rest = trailing(self.buf@, self.data_pos as int, mdat_end as int);
        let accumulated: usize = self.all_decrypted.len();
        let mut send: Vec<u8> = Vec::new();
        if self.data_pos < mdat_end {
            let tail: &[u8] = slice_subrange(self.buf.as_slice(), self.data_pos, mdat_end);
            let send_start: usize = total_skip.saturating_sub(accumulated);
            if send_start < tail.len() {
                send.extend_from_slice(slice_subrange(tail, send_start, tail.len()));
                assert(send@ =~= tail@.skip(send_start as int));
            }
        }
        assert(dropped(audio, total_skip as int) + send@ =~= dropped(
            audio + rest,
            total_skip as int,
        ));
        send
    }

    /// Keeps a segment that has arrived with the stream.
    pub fn finish(self, state: &mut SharedDownloadState) -> (r: Result<(), String>)
        requires
            self.wf(),
            self.is_decrypted(),
            old(state).wf(),
        ensures
            final(state).wf(),
            final(state).same_stream(old(state)),
            final(state).cache_written == old(state).cache_written,
            final(state).gap_fill_running == old(state).gap_fill_running,
            match r {
                Ok(_) => {
                    &&& 1 <= self.segment() < old(state).n_segments
                    &&& final(state).downloaded@.len() == old(state).downloaded@.len()
                    &&& final(state).downloaded@[self.segment() - 1] matches Some(data) && data@
                        == self.whole_audio()
                    &&& final(state).in_progress@ == old(state).in_progress@.update(
                        self.segment() - 1,
                        None,
                    )
                    &&& forall|i: int|
                        0 <= i < old(state).downloaded@.len() && i != self.segment() - 1
                            ==> #[trigger] final(state).downloaded@[i] == old(state).downloaded@[i]
                },
                Err(message) => {
                    &&& !(1 <= self.segment() < old(state).n_segments)
                    &&& *final(state) == *old(state)
                    &&& message@ == segment_message(
                        self.segment(),
                        "download index out of bounds"@,
                    )
                },
            },
    {
        let mdat_end: usize = media_end(self.buf.as_slice());
        let mut all: Vec<u8> = Vec::new();
        all.extend_from_slice(self.all_decrypted.as_slice());
        if self.data_pos < mdat_end {
            all.extend_from_slice(slice_subrange(self.buf.as_slice(), self.data_pos, mdat_end));
        }
        assert(all@ =~= self.whole_audio());
        if state.store_complete(self.seg, all) {
            Ok(())
        } else {
            Err(segment_text(self.seg, "download index out of bounds"))
        }
    }

    /// Why the segment cannot be completed when nothing more arrives.
    pub fn truncated(&self) -> (r: String)
        ensures
            r@ == segment_message(
                self.segment(),
                if self.table() is None {
                    "truncated before header"@
                } else {
                    "truncated at frame"@
                },
            ),
    {
        if self.header.is_none() {
            segment_text(self.seg, "truncated before header")
        } else {
            segment_text(self.seg, "truncated at frame")
        }
    }
}

/// `c` is the frame table: the known one, or that which has just arrived.
pub open spec fn is_table_in_force(
    c: SegmentCrypto,
    known: Option<SegmentCrypto>,
    d: Seq<u8>,
) -> bool {
    match known {
        Some(table) => c == table,
        None => is_table_of(c, d),
    }
}

/// Why what has arrived cannot be decrypted, if it cannot: the segment has no slot or leaves out
/// too much, which shows when the table arrives, or the next frame ends beyond the range of
/// positions.
pub open spec fn feed_fault(
    c: SegmentCrypto,
    fresh: bool,
    seg: u32,
    unsent: int,
    avail: int,
    done_frames: int,
) -> Option<Seq<char>> {
    let next = ready(c.entries@, c.data_offset as int, avail, done_frames);
    if fresh && seg == 0 {
        Some("Segment index must start at 1"@)
    } else if fresh && unsent > usize::MAX {
        Some(segment_message(seg, "skip-byte count overflow"@))
    } else if next < c.entries@.len() && frame_pos(c.entries@, c.data_offset as int, next + 1)
        > usize::MAX {
        Some(segment_message(seg, "frame position overflow"@))
    } else {
        None
    }
}

/// The audio of more frames starts with that of fewer.
proof fn lemma_audio_grows(
    key: Seq<u8>,
    d: Seq<u8>,
    entries: Seq<FrameEntry>,
    start: int,
    k: int,
    n: int,
)
    requires
        0 <= k <= n,
    ensures
        frames_plain(key, d, entries, start, k).is_prefix_of(
            frames_plain(key, d, entries, start, n),
        ),
    decreases n,
{
    if k < n {
        lemma_audio_grows(key, d, entries, start, k, n - 1);
    }
}

/// A segment that is taken up again is sent once: what was kept of its first `k` frames, without
/// the `skip` bytes that the listener leaves out, and what is then streamed make up its audio
/// without those bytes.
pub proof fn law_a_segment_taken_up_again_is_sent_once(
    key: Seq<u8>,
    d: Seq<u8>,
    c: SegmentCrypto,
    k: int,
    skip: int,
)
    requires
        0 <= k <= c.entries@.len(),
        0 <= skip < frames_plain(key, d, c.entries@, c.data_offset as int, k).len(),
    ensures
        ({
            let kept = frames_plain(key, d, c.entries@, c.data_offset as int, k);
            let already_sent = kept.len() - skip;
            let whole = streamed_plain(key, d, c);
            after_skip(kept, skip) + dropped(whole, skip + already_sent) == dropped(whole, skip)
        }),
{
    let kept = frames_plain(key, d, c.entries@, c.data_offset as int, k);
    let whole = streamed_plain(key, d, c);
    lemma_audio_grows(
        key,
        d,
        c.entries@,
        c.data_offset as int,
        k,
        c.entries@.len() as int,
    );
    assert(kept.is_prefix_of(whole));
    assert(whole.take(kept.len() as int) =~= kept);
    assert(after_skip(kept, skip) + dropped(whole, kept.len() as int) =~= dropped(whole, skip));
}

/// The pieces one after the other.
pub open spec fn pieces_joined(pieces: Seq<Seq<u8>>) -> Seq<u8>
    decreases pieces.len(),
{
    if pieces.len() == 0 {
        Seq::empty()
    } else {
        pieces_joined(pieces.drop_last()) + pieces.last()
    }
}

/// However the bytes of a segment arrive, what is sent of it is its audio without the part that
/// the listener left out or has already: `audio` is what is decrypted before the first and after
/// each step, and `sends` what each step sends.
pub proof fn law_what_is_sent_is_the_audio(audio: Seq<Seq<u8>>, sends: Seq<Seq<u8>>, unsent: int)
    requires
        audio.len() == sends.len() + 1,
        audio[0].len() == 0,
        unsent >= 0,
        forall|i: int|
            0 <= i < sends.len() ==> dropped(audio[i], unsent) + #[trigger] sends[i] == dropped(
                audio[i + 1],
                unsent,
            ),
    ensures
        pieces_joined(sends) == dropped(audio.last(), unsent),
    decreases sends.len(),
{
    if sends.len() == 0 {
        assert(dropped(audio[0], unsent) =~= Seq::<u8>::empty());
    } else {
        let n = sends.len() - 1;
        assert forall|i: int| 0 <= i < n implies dropped(audio.drop_last()[i], unsent)
            + #[trigger] sends.drop_last()[i] == dropped(audio.drop_last()[i + 1], unsent) by {
            assert(sends[i] == sends.drop_last()[i]);
        }
        law_what_is_sent_is_the_audio(audio.drop_last(), sends.drop_last(), unsent);
        assert(sends[n] == sends.last());
    }
}

proof fn lemma_same_frames(
    key: Seq<u8>,
    d: Seq<u8>,
    a: Seq<FrameEntry>,
    b: Seq<FrameEntry>,
    start: int,
    n: int,
)
    requires
        0 <= n <= a.len(),
        a.len() == b.len(),
        forall|k: int|
            0 <= k < a.len() ==> (#[trigger] a[k]).size == b[k].size && a[k].flags == b[k].flags
                && a[k].iv@ == b[k].iv@,
    ensures
        frame_pos(a, start, n) == frame_pos(b, start, n),
        frames_plain(key, d, a, start, n) == frames_plain(key, d, b, start, n),
    decreases n,
{
    if n > 0 {
        lemma_same_frames(key, d, a, b, start, n - 1);
        assert(a[n - 1].size == b[n - 1].size);
    }
}

proof fn lemma_same_bytes(p: Seq<u8>, q: Seq<u8>, at: int)
    requires
        q == p.take(q.len() as int),
        q.len() <= p.len(),
        0 <= at,
    ensures
        at + 4 <= q.len() ==> be32(p, at) == be32(q, at),
        at + 3 <= q.len() ==> be24(p, at) == be24(q, at),
        at + 2 <= q.len() ==> be16(p, at) == be16(q, at),
        at < q.len() ==> p[at] == q[at],
{
    assert(forall|i: int| 0 <= i < q.len() ==> q[i] == p[i]);
}

/// The bytes that arrive behind a frame table change nothing of it.
proof fn lemma_table_stays(d: Seq<u8>, n: int, start: int, one: SegmentCrypto, other: SegmentCrypto)
    requires
        0 <= n <= d.len(),
        0 <= start,
        segment_fault(d.take(n), start) is None,
        is_segment_table(one, d.take(n), start, one.mdat_end as int),
        is_segment_table(other, d, start, other.mdat_end as int),
    ensures
        one.data_offset == other.data_offset,
        one.entries@.len() == other.entries@.len(),
        forall|k: int|
            0 <= k < one.entries@.len() ==> (#[trigger] one.entries@[k]).size
                == other.entries@[k].size && one.entries@[k].flags == other.entries@[k].flags
                && one.entries@[k].iv@ == other.entries@[k].iv@,
{
    let q = d.take(n).skip(start + 24);
    let p = d.skip(start + 24);
    assert(q =~= p.take(q.len() as int));
    lemma_same_bytes(p, q, 4);
    lemma_same_bytes(p, q, 8);
    lemma_same_bytes(p, q, 9);
    let count = be24(q, 9);
    let size = 8 + q[8];
    assert forall|k: int| 0 <= k < count implies (#[trigger] one.entries@[k]).size
        == other.entries@[k].size && one.entries@[k].flags == other.entries@[k].flags
        && one.entries@[k].iv@ == other.entries@[k].iv@ by {
        let at = 12 + k * size;
        assert(at >= 12 && at + size <= 12 + count * size) by (nonlinear_arith)
            requires
                0 <= k < count,
                size >= 8,
                at == 12 + k * size,
        ;
        lemma_same_bytes(p, q, at);
        lemma_same_bytes(p, q, at + 6);
        assert(is_frame_entry(one.entries@[k], q, at, q[8] as int));
        assert(is_frame_entry(other.entries@[k], p, at, p[8] as int));
        assert forall|j: int| 0 <= j < 8 implies one.entries@[k].iv@[j]
            == other.entries@[k].iv@[j] by {
            if j < q[8] {
                lemma_same_bytes(p, q, at + 8 + j);
            }
        }
        assert(one.entries@[k].iv@ =~= other.entries@[k].iv@);
    }
}

/// A segment has one audio: where no second frame table follows the first, a segment that was
/// streamed, whose table came with its first `n` bytes, and one that was fetched ahead are kept
/// alike.
pub proof fn law_a_segment_has_one_audio(
    key: Seq<u8>,
    d: Seq<u8>,
    n: int,
    first: SegmentCrypto,
    whole: SegmentCrypto,
)
    requires
        0 <= n <= d.len(),
        is_table_of(first, d.take(n)),
        is_table_of(whole, d),
        segment_boxes(d.take(n), 0, None, n).0 == segment_boxes(d, 0, None, d.len() as int).0,
    ensures
        streamed_plain(key, d, first) == segment_plain(key, d, whole),
        frames_fit(first, d) == frames_fit(whole, d),
{
    let start = segment_boxes(d, 0, None, d.len() as int).0->0;
    lemma_box_is_inside(d, 0, None, d.len() as int);
    lemma_table_stays(d, n, start, first, whole);
    lemma_same_frames(
        key,
        d,
        first.entries@,
        whole.entries@,
        first.data_offset as int,
        first.entries@.len() as int,
    );
}

proof fn lemma_box_is_inside(d: Seq<u8>, pos: int, found: Option<int>, mdat_end: int)
    requires
        0 <= pos,
        found matches Some(at) ==> 0 <= at,
    ensures
        segment_boxes(d, pos, found, mdat_end).0 matches Some(at) ==> 0 <= at,
    decreases d.len() - pos,
{
    if box_fits(d, pos) {
        let end = pos + box_size(d, pos);
        lemma_box_is_inside(d, end, Some(pos), mdat_end);
        lemma_box_is_inside(d, end, found, end);
        lemma_box_is_inside(d, end, found, mdat_end);
    }
}

/// The bytes of the first `k` frames together.
pub open spec fn bytes_before(entries: Seq<FrameEntry>, k: int) -> int
    decreases k,
{
    if k <= 0 {
        0
    } else {
        bytes_before(entries, k - 1) + entries[k - 1].size
    }
}

/// Byte `i` of frame `k` in the audio is that byte of the segment: as it is where the frame is not
/// encrypted, and else combined with that byte of the keystream of the key and of the vector of the
/// frame, which eight zeros follow.
pub open spec fn is_audio_of_frame(
    audio: Seq<u8>,
    key: Seq<u8>,
    d: Seq<u8>,
    c: SegmentCrypto,
    k: int,
) -> bool {
    let from = bytes_before(c.entries@, k);
    forall|i: int|
        0 <= i < c.entries@[k].size ==> #[trigger] audio[from + i] == if c.entries@[k].flags != 0 {
            d[c.data_offset + from + i] ^ aes128_ctr_keystream(
                key,
                c.entries@[k].iv@ + seq![0u8, 0u8, 0u8, 0u8, 0u8, 0u8, 0u8, 0u8],
                i,
            )
        } else {
            d[c.data_offset + from + i]
        }
}

proof fn lemma_bytes_before(entries: Seq<FrameEntry>, start: int, k: int)
    requires
        0 <= k,
    ensures
        frame_pos(entries, start, k) == start + bytes_before(entries, k),
        bytes_before(entries, k) >= 0,
    decreases k,
{
    if k > 0 {
        lemma_bytes_before(entries, start, k - 1);
    }
}

proof fn lemma_audio_of_frames(key: Seq<u8>, d: Seq<u8>, c: SegmentCrypto, n: int, k: int)
    requires
        0 <= k < n <= c.entries@.len(),
        c.data_offset + bytes_before(c.entries@, n) <= d.len(),
    ensures
        frames_plain(key, d, c.entries@, c.data_offset as int, n).len() == bytes_before(
            c.entries@,
            n,
        ),
        is_audio_of_frame(
            frames_plain(key, d, c.entries@, c.data_offset as int, n),
            key,
            d,
            c,
            k,
        ),
    decreases n,
{
    let entries = c.entries@;
    let start = c.data_offset as int;
    lemma_bytes_before(entries, start, n - 1);
    lemma_bytes_before(entries, start, n);
    lemma_bytes_before(entries, start, k);
    let before = frames_plain(key, d, entries, start, n - 1);
    let all = frames_plain(key, d, entries, start, n);
    let entry = entries[n - 1];
    let raw = d.subrange(frame_pos(entries, start, n - 1), frame_pos(entries, start, n));
    if n > 1 {
        if k < n - 1 {
            lemma_audio_of_frames(key, d, c, n - 1, k);
        } else {
            lemma_audio_of_frames(key, d, c, n - 1, 0);
        }
    }
    assert(before.len() == bytes_before(entries, n - 1));
    assert(frame_nonce(entry.iv@) =~= entry.iv@ + seq![0u8, 0u8, 0u8, 0u8, 0u8, 0u8, 0u8, 0u8]);
    let from = bytes_before(entries, k);
    if k < n - 1 {
        lemma_frame_pos(entries, start, k + 1, n - 1);
        lemma_bytes_before(entries, start, k + 1);
    }
    assert forall|i: int| 0 <= i < entries[k].size implies #[trigger] all[from + i] == if
    entries[k].flags != 0 {
        d[start + from + i] ^ aes128_ctr_keystream(
            key,
            entries[k].iv@ + seq![0u8, 0u8, 0u8, 0u8, 0u8, 0u8, 0u8, 0u8],
            i,
        )
    } else {
        d[start + from + i]
    } by {
        if k < n - 1 {
            assert(all[from + i] == before[from + i]);
        } else {
            assert(all[from + i] == frame_plain(key, entry, raw)[i]);
            assert(raw[i] == d[start + from + i]);
        }
    }
}

proof fn lemma_no_frames(key: Seq<u8>, d: Seq<u8>, entries: Seq<FrameEntry>, start: int)
    ensures
        frames_plain(key, d, entries, start, 0).len() == 0,
        bytes_before(entries, 0) == 0,
{
}

/// Every frame of a whole segment is decoded, whatever its length, and what follows the last frame
/// in the media box comes behind it as it is.
pub proof fn law_every_frame_is_decoded(seg_bytes: &Vec<u8>, key: &[u8; 16], r: Option<Vec<u8>>)
    requires
        call_ensures(decode_segment, (seg_bytes, key), r),
    ensures
        r matches Some(audio) ==> exists|c: SegmentCrypto|
            #![trigger is_table_of(c, seg_bytes@)]
            is_table_of(c, seg_bytes@) && {
                let frames = bytes_before(c.entries@, c.entries@.len() as int);
                let end = if c.mdat_end < seg_bytes@.len() {
                    c.mdat_end as int
                } else {
                    seg_bytes@.len() as int
                };
                let rest = end - c.data_offset - frames;
                &&& forall|k: int|
                    0 <= k < c.entries@.len() ==> #[trigger] is_audio_of_frame(
                        audio@,
                        key@,
                        seg_bytes@,
                        c,
                        k,
                    )
                &&& audio@.len() == frames + if rest > 0 {
                    rest
                } else {
                    0
                }
                &&& forall|i: int|
                    0 <= i < rest ==> #[trigger] audio@[frames + i] == seg_bytes@[c.data_offset
                        + frames + i]
            },
{
    if let Some(audio) = r {
        let d = seg_bytes@;
        let c = choose|c: SegmentCrypto| #[trigger]
            is_table_of(c, d) && frames_fit(c, d) && audio@ == segment_plain(key@, d, c);
        assert(is_table_of(c, d) && frames_fit(c, d) && audio@ == segment_plain(key@, d, c));
        let n = c.entries@.len() as int;
        let start = c.data_offset as int;
        lemma_bytes_before(c.entries@, start, n);
        let frames = bytes_before(c.entries@, n);
        let plain = frames_plain(key@, d, c.entries@, start, n);
        lemma_no_frames(key@, d, c.entries@, start);
        if n > 0 {
            lemma_audio_of_frames(key@, d, c, n, 0);
        }
        assert(plain.len() == frames);
        assert forall|k: int| 0 <= k < n implies #[trigger] is_audio_of_frame(
            audio@,
            key@,
            d,
            c,
            k,
        ) by {
            lemma_audio_of_frames(key@, d, c, n, k);
            lemma_frame_pos(c.entries@, start, k + 1, n);
            lemma_bytes_before(c.entries@, start, k);
            lemma_bytes_before(c.entries@, start, k + 1);
            let from = bytes_before(c.entries@, k);
            assert forall|i: int| 0 <= i < c.entries@[k].size implies #[trigger] audio@[from + i]
                == plain[from + i] by {}
        }
    }
}

/// A whole segment is decoded exactly where it has a table and all the bytes of its frames.
pub proof fn law_a_whole_segment_is_decoded(
    seg_bytes: &Vec<u8>,
    key: &[u8; 16],
    r: Option<Vec<u8>>,
    parsed: Result<SegmentCrypto, Error>,
)
    requires
        call_ensures(decode_segment, (seg_bytes, key), r),
        is_crypto_result(parsed, seg_bytes@),
    ensures
        parsed is Err ==> r is None,
        parsed matches Ok(c) ==> (r is Some <==> c.entries@.len() == 0 || c.data_offset
            + bytes_before(c.entries@, c.entries@.len() as int) <= seg_bytes@.len()),
{
    let d = seg_bytes@;
    if let Ok(c) = parsed {
        assert(is_table_of(c, d));
        let n = c.entries@.len() as int;
        lemma_bytes_before(c.entries@, c.data_offset as int, n);
        if r is Some {
            let t = choose|t: SegmentCrypto| #[trigger]
                is_table_of(t, d) && frames_fit(t, d) && r->0@ == segment_plain(key@, d, t);
            lemma_one_table(c, t, d);
            lemma_same_frames(key@, d, c.entries@, t.entries@, c.data_offset as int, n);
        } else {
            let t = choose|t: SegmentCrypto| #[trigger] is_table_of(t, d) && !frames_fit(t, d);
            lemma_one_table(c, t, d);
            lemma_same_frames(key@, d, c.entries@, t.entries@, c.data_offset as int, n);
        }
    }
}

/// A segment has one frame table.
proof fn lemma_one_table(a: SegmentCrypto, b: SegmentCrypto, d: Seq<u8>)
    requires
        is_table_of(a, d),
        is_table_of(b, d),
    ensures
        a.data_offset == b.data_offset,
        a.mdat_end == b.mdat_end,
        a.entries@.len() == b.entries@.len(),
        forall|k: int|
            0 <= k < a.entries@.len() ==> (#[trigger] a.entries@[k]).size == b.entries@[k].size
                && a.entries@[k].flags == b.entries@[k].flags && a.entries@[k].iv@
                == b.entries@[k].iv@,
{
    let (found, mdat_end) = segment_boxes(d, 0, None, d.len() as int);
    let start = found->0;
    let p = d.skip(start + 24);
    assert forall|k: int| 0 <= k < a.entries@.len() implies (#[trigger] a.entries@[k]).size
        == b.entries@[k].size && a.entries@[k].flags == b.entries@[k].flags && a.entries@[k].iv@
        == b.entries@[k].iv@ by {
        assert(is_frame_entry(a.entries@[k], p, 12 + k * (8 + p[8]), p[8] as int));
        assert(is_frame_entry(b.entries@[k], p, 12 + k * (8 + p[8]), p[8] as int));
    }
}

/// Every frame that has arrived is decrypted, whatever its length and however its bytes arrived.
pub proof fn law_every_frame_that_arrives_is_decrypted(
    fetch: &mut SegmentFetch,
    chunk: &[u8],
    r: Result<FetchStep, String>,
    k: int,
)
    requires
        call_ensures(SegmentFetch::feed, (fetch, chunk), r),
        old(fetch).wf(),
        r is Ok,
        final(fetch).table() is Some,
        0 <= k < final(fetch).done_frames(),
    ensures
        final(fetch).arrived() == old(fetch).arrived() + chunk@,
        final(fetch).audio().len() == bytes_before(
            final(fetch).table()->0.entries@,
            final(fetch).done_frames(),
        ),
        is_audio_of_frame(
            final(fetch).audio(),
            final(fetch).key(),
            final(fetch).arrived(),
            final(fetch).table()->0,
            k,
        ),
        final(fetch).key() == old(fetch).key(),
{
    let c = final(fetch).table()->0;
    lemma_bytes_before(c.entries@, c.data_offset as int, final(fetch).done_frames());
    lemma_audio_of_frames(
        final(fetch).key(),
        final(fetch).arrived(),
        c,
        final(fetch).done_frames(),
        k,
    );
}

/// A frame is decrypted once its last byte has arrived, and not before.
pub proof fn law_a_frame_is_decrypted_once_it_is_there(
    fetch: &mut SegmentFetch,
    chunk: &[u8],
    r: Result<FetchStep, String>,
    k: int,
)
    requires
        call_ensures(SegmentFetch::feed, (fetch, chunk), r),
        old(fetch).wf(),
        r is Ok,
        final(fetch).table() is Some,
        0 <= k < final(fetch).table()->0.entries@.len(),
    ensures
        ({
            let c = final(fetch).table()->0;
            k < final(fetch).done_frames() <==> c.data_offset + bytes_before(c.entries@, k + 1)
                <= final(fetch).arrived().len()
        }),
{
    let c = final(fetch).table()->0;
    let n = final(fetch).done_frames();
    let start = c.data_offset as int;
    lemma_bytes_before(c.entries@, start, k + 1);
    lemma_bytes_before(c.entries@, start, n);
    lemma_bytes_before(c.entries@, start, n + 1);
    lemma_ready_stops(
        c.entries@,
        start,
        final(fetch).arrived().len() as int,
        old(fetch).done_frames(),
    );
    if k < n {
        lemma_frame_pos(c.entries@, start, k + 1, n);
    } else {
        lemma_frame_pos(c.entries@, start, n + 1, k + 1);
    }
}

proof fn lemma_ready_stops(entries: Seq<FrameEntry>, start: int, avail: int, k: int)
    requires
        0 <= k <= entries.len(),
    ensures
        ({
            let n = ready(entries, start, avail, k);
            &&& k <= n <= entries.len()
            &&& n < entries.len() ==> frame_pos(entries, start, n + 1) > avail
        }),
    decreases entries.len() - k,
{
    if k < entries.len() && frame_pos(entries, start, k + 1) <= avail {
        lemma_ready_stops(entries, start, avail, k + 1);
    }
}

/// A segment that has arrived whole is kept with all its audio: every frame decrypted, and what
/// follows the last frame as it arrived. It is no longer in progress, and no other segment changes.
pub proof fn law_a_finished_segment_is_kept(
    fetch: SegmentFetch,
    state: &mut SharedDownloadState,
    r: Result<(), String>,
    k: int,
)
    requires
        call_ensures(SegmentFetch::finish, (fetch, state), r),
        fetch.wf(),
        fetch.is_decrypted(),
        old(state).wf(),
        0 <= k < fetch.table()->0.entries@.len(),
    ensures
        r is Ok <==> 1 <= fetch.segment() < old(state).n_segments,
        r is Err ==> *final(state) == *old(state),
        r is Ok ==> {
            let at = fetch.segment() - 1;
            &&& final(state).in_progress@[at] is None
            &&& final(state).downloaded@[at] matches Some(kept) && is_audio_of_frame(
                kept@,
                fetch.key(),
                fetch.arrived(),
                fetch.table()->0,
                k,
            )
            &&& forall|i: int|
                0 <= i < old(state).downloaded@.len() && i != at ==> #[trigger] final(state).downloaded@[i] == old(state).downloaded@[i]
        },
{
    let c = fetch.table()->0;
    let n = c.entries@.len() as int;
    let start = c.data_offset as int;
    let d = fetch.arrived();
    lemma_bytes_before(c.entries@, start, n);
    lemma_bytes_before(c.entries@, start, k);
    lemma_bytes_before(c.entries@, start, k + 1);
    lemma_frame_pos(c.entries@, start, k + 1, n);
    lemma_audio_of_frames(fetch.key(), d, c, n, k);
    let plain = frames_plain(fetch.key(), d, c.entries@, start, n);
    if r is Ok {
        let kept = final(state).downloaded@[fetch.segment() - 1]->0;
        let from = bytes_before(c.entries@, k);
        assert forall|i: int| 0 <= i < c.entries@[k].size implies #[trigger] kept@[from + i]
            == plain[from + i] by {}
    }
}

/// While a segment arrives it stays the one that was asked for, with its key, and what the listener
/// has of it is counted once.
pub proof fn law_what_was_asked_for_stays(
    fetch: &mut SegmentFetch,
    chunk: &[u8],
    r: Result<FetchStep, String>,
)
    requires
        call_ensures(SegmentFetch::feed, (fetch, chunk), r),
    ensures
        final(fetch).segment() == old(fetch).segment(),
        final(fetch).key() == old(fetch).key(),
        final(fetch).unsent() == old(fetch).unsent(),
{
}

/// What is sent when bytes arrive is the audio that they brought, without what is left out of the
/// start or was sent before.
pub proof fn law_new_audio_is_sent(
    fetch: &mut SegmentFetch,
    chunk: &[u8],
    r: Result<FetchStep, String>,
)
    requires
        call_ensures(SegmentFetch::feed, (fetch, chunk), r),
        r is Ok,
        final(fetch).table() is Some,
        old(fetch).audio().len() <= final(fetch).audio().len(),
    ensures
        ({
            let before = old(fetch).audio();
            let after = final(fetch).audio();
            let left_out = old(fetch).unsent() as int;
            let sent = r->Ok_0.send@;
            &&& after.len() <= left_out ==> sent.len() == 0
            &&& before.len() >= left_out ==> sent == after.skip(before.len() as int)
            &&& before.len() < left_out <= after.len() ==> sent == after.skip(left_out)
        }),
{
    let before = old(fetch).audio();
    let after = final(fetch).audio();
    let left_out = old(fetch).unsent() as int;
    let sent = r->Ok_0.send@;
    let head = if left_out <= before.len() {
        before.skip(left_out)
    } else {
        Seq::empty()
    };
    let tail = if left_out <= after.len() {
        after.skip(left_out)
    } else {
        Seq::empty()
    };
    assert(head + sent == tail);
    assert(sent =~= (head + sent).skip(head.len() as int));
    if before.len() >= left_out {
        assert(tail.skip(head.len() as int) =~= after.skip(before.len() as int));
    }
}

/// A segment that is kept changes nothing else of its stream.
pub proof fn law_a_kept_segment_leaves_the_stream(
    fetch: SegmentFetch,
    state: &mut SharedDownloadState,
    r: Result<(), String>,
)
    requires
        call_ensures(SegmentFetch::finish, (fetch, state), r),
    ensures
        final(state).url_template == old(state).url_template,
        final(state).n_segments == old(state).n_segments,
        final(state).content_key == old(state).content_key,
        final(state).flac_header == old(state).flac_header,
        final(state).cache_path == old(state).cache_path,
        final(state).segment_map == old(state).segment_map,
        final(state).cache_written == old(state).cache_written,
        final(state).gap_fill_running == old(state).gap_fill_running,
{
}

} // verus!

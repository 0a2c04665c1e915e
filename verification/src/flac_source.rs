//! A FLAC stream assembled from encrypted segments: where a seek lands, what is sent of each
//! segment as its bytes arrive, and what goes into the cache.

use vstd::prelude::*;
use vstd::slice::slice_subrange;
use crate::sequences::{first_match, lemma_first_match, lemma_match_exists, lemma_no_match};
use crate::text::{decimal, decimal_text, owned, replace_text, replaced};

verus! {

/// Where the audio of one segment lies in the decrypted stream.
#[derive(Clone, Copy, Debug, PartialEq, Eq)]
pub struct SegmentByteInfo {
    pub byte_offset: u64,
    pub byte_len: u64,
}

/// What a stream is made from.
pub struct FlacSourceParams {
    pub url_template: String,
    pub n_segments: u32,
    pub content_key: Option<[u8; 16]>,
    pub flac_header: Vec<u8>,
    pub cache_path: String,
    pub segment_map: Vec<SegmentByteInfo>,
}

#[derive(Debug)]
pub struct FlacStreamError(pub String);

impl FlacStreamError {
    /// The text that a user sees.
    pub fn display(&self) -> (r: String)
        ensures
            r@ == self.0@,
    {
        self.0.clone()
    }
}

/// What is known of the segments of a stream. The slot at index `i` is that of segment `i + 1`.
pub struct SharedDownloadState {
    pub url_template: String,
    pub n_segments: u32,
    pub content_key: Option<[u8; 16]>,
    pub flac_header: Vec<u8>,
    pub cache_path: String,
    pub segment_map: Vec<SegmentByteInfo>,
    /// The decrypted segments.
    pub downloaded: Vec<Option<Vec<u8>>>,
    /// The decrypted start of segments whose download was cancelled.
    pub in_progress: Vec<Option<Vec<u8>>>,
    pub cache_written: bool,
    pub gap_fill_running: bool,
}

/// Where a seek lands: a segment and the bytes of it to leave out.
#[derive(Clone, Copy, Debug, PartialEq, Eq)]
pub struct SeekTarget {
    pub segment: u32,
    pub skip: usize,
}

/// Why a seek lands nowhere.
#[derive(Clone, Copy, Debug, PartialEq, Eq)]
pub enum SeekFault {
    Overflow,
    EmptyMap,
}

impl SeekFault {
    pub fn message(&self) -> (r: &'static str)
        ensures
            r@ == match self {
                SeekFault::Overflow => "seek arithmetic overflow"@,
                SeekFault::EmptyMap => "segment map is empty"@,
            },
    {
        match self {
            SeekFault::Overflow => "seek arithmetic overflow",
            SeekFault::EmptyMap => "segment map is empty",
        }
    }
}

/// Where the bytes of the next segment come from.
pub enum SegmentSource {
    /// All of it is there; `send` is what the listener still needs.
    Memory { send: Vec<u8> },
    /// The start of it is there; the rest comes from the network.
    Partial { send: Vec<u8>, already_sent: usize },
    Network,
}

/// What to do for one segment of a forward pass.
pub struct SegmentStep {
    /// The segment to fetch ahead meanwhile.
    pub prefetch: Option<u32>,
    pub skip: usize,
    pub source: SegmentSource,
}

/// What became of the cache.
pub enum CacheStep {
    AlreadyWritten,
    Incomplete,
    TooLarge,
    /// The bytes to write.
    Write(Vec<u8>),
}

/// `a - b`, or zero where that is negative.
pub open spec fn minus(a: int, b: int) -> int {
    if a < b {
        0
    } else {
        a - b
    }
}

/// A segment ends behind `offset`.
pub open spec fn ends_behind(offset: int) -> spec_fn(SegmentByteInfo) -> bool {
    |s: SegmentByteInfo| s.byte_offset + s.byte_len > offset
}

/// Where a seek to `start` lands: in the first segment that ends behind it, or in the last one.
pub open spec fn seek_outcome(
    map: Seq<SegmentByteInfo>,
    header_len: int,
    start: int,
) -> Result<(int, int), SeekFault> {
    let found = first_match(map, ends_behind(minus(start, header_len)));
    if found matches Some(i) && map[i].byte_offset + map[i].byte_len > u64::MAX {
        Err(SeekFault::Overflow)
    } else if found is None && map.len() == 0 {
        Err(SeekFault::EmptyMap)
    } else {
        let i = match found {
            Some(i) => i,
            None => map.len() - 1,
        };
        let seg_start = header_len + map[i].byte_offset;
        if i + 1 > u32::MAX || seg_start > u64::MAX || minus(start, seg_start) > usize::MAX {
            Err(SeekFault::Overflow)
        } else {
            Ok((i + 1, minus(start, seg_start)))
        }
    }
}

/// The slot is filled.
pub open spec fn filled(slots: Seq<Option<Vec<u8>>>, i: int) -> bool {
    0 <= i < slots.len() && slots[i] is Some
}

/// The slot is there and empty.
pub open spec fn wanting(slots: Seq<Option<Vec<u8>>>, i: int) -> bool {
    0 <= i < slots.len() && slots[i] is None
}

/// What is sent of data whose first `skip` bytes are left out; all of it where it is shorter.
pub open spec fn after_skip(data: Seq<u8>, skip: int) -> Seq<u8> {
    if skip <= data.len() {
        data.skip(skip)
    } else {
        data
    }
}

/// `s` without its first `n` items; nothing where it has no more.
pub open spec fn dropped(s: Seq<u8>, n: int) -> Seq<u8> {
    if n <= s.len() {
        s.skip(n)
    } else {
        Seq::empty()
    }
}

/// The decrypted bytes one after the other.
pub open spec fn joined(slots: Seq<Option<Vec<u8>>>) -> Seq<u8>
    decreases slots.len(),
{
    if slots.len() == 0 {
        Seq::empty()
    } else {
        joined(slots.drop_last()) + (match slots.last() {
            Some(data) => data@,
            None => Seq::empty(),
        })
    }
}

/// The total length that the segment map announces.
pub open spec fn announced_len(map: Seq<SegmentByteInfo>) -> int
    decreases map.len(),
{
    if map.len() == 0 {
        0
    } else {
        announced_len(map.drop_last()) + map.last().byte_len
    }
}

/// A copy of bytes.
fn copy_bytes(bytes: &[u8]) -> (r: Vec<u8>)
    ensures
        r@ == bytes@,
{
    let mut r: Vec<u8> = Vec::new();
    r.extend_from_slice(bytes);
    assert(r@ =~= bytes@);
    r
}

/// What is sent of data whose first `skip` bytes are left out.
pub fn data_after_skip(data: &Vec<u8>, skip: usize) -> (r: Vec<u8>)
    ensures
        r@ == after_skip(data@, skip as int),
{
    let total: usize = data.len();
    if skip <= total {
        copy_bytes(slice_subrange(data.as_slice(), skip, total))
    } else {
        copy_bytes(data.as_slice())
    }
}

impl SharedDownloadState {
    /// There is one slot for each segment but the init segment.
    pub open spec fn wf(&self) -> bool {
        &&& self.n_segments >= 1
        &&& self.downloaded@.len() == self.n_segments - 1
        &&& self.in_progress@.len() == self.n_segments - 1
    }

    /// All but the slots and flags is kept.
    pub open spec fn same_stream(&self, other: &Self) -> bool {
        &&& self.url_template == other.url_template
        &&& self.n_segments == other.n_segments
        &&& self.content_key == other.content_key
        &&& self.flac_header == other.flac_header
        &&& self.cache_path == other.cache_path
        &&& self.segment_map == other.segment_map
    }

    /// The key of the stream, or zeros.
    pub open spec fn key(&self) -> Seq<u8> {
        match self.content_key {
            Some(key) => key@,
            None => Seq::new(16, |i: int| 0u8),
        }
    }

    /// A stream of which nothing is downloaded yet.
    pub fn create(params: FlacSourceParams) -> (r: Result<Self, FlacStreamError>)
        ensures
            match r {
                Ok(state) => {
                    &&& params.n_segments >= 1
                    &&& state.wf()
                    &&& state.url_template == params.url_template
                    &&& state.n_segments == params.n_segments
                    &&& state.content_key == params.content_key
                    &&& state.flac_header == params.flac_header
                    &&& state.cache_path == params.cache_path
                    &&& state.segment_map == params.segment_map
                    &&& forall|i: int|
                        0 <= i < state.downloaded@.len() ==> #[trigger] state.downloaded@[i] is None
                    &&& forall|i: int|
                        0 <= i < state.in_progress@.len()
                            ==> #[trigger] state.in_progress@[i] is None
                    &&& !state.cache_written
                    &&& !state.gap_fill_running
                },
                Err(e) => params.n_segments == 0 && e.0@ == "n_segments must be at least 1"@,
            },
    {
        if params.n_segments == 0 {
            return Err(FlacStreamError(owned("n_segments must be at least 1")));
        }
        let total: usize = (params.n_segments - 1) as usize;
        let mut downloaded: Vec<Option<Vec<u8>>> = Vec::new();
        let mut in_progress: Vec<Option<Vec<u8>>> = Vec::new();
        for i in 0..total
            invariant
                downloaded@.len() == i,
                in_progress@.len() == i,
                forall|j: int| 0 <= j < i ==> #[trigger] downloaded@[j] is None,
                forall|j: int| 0 <= j < i ==> #[trigger] in_progress@[j] is None,
        {
            downloaded.push(None);
            in_progress.push(None);
        }
        Ok(
            SharedDownloadState {
                url_template: params.url_template,
                n_segments: params.n_segments,
                content_key: params.content_key,
                flac_header: params.flac_header,
                cache_path: params.cache_path,
                segment_map: params.segment_map,
                downloaded,
                in_progress,
                cache_written: false,
                gap_fill_running: false,
            },
        )
    }

    /// Where a seek to the byte `start` of the stream lands.
    pub fn seek_range(&self, start: u64) -> (r: Result<SeekTarget, SeekFault>)
        ensures
            match seek_outcome(self.segment_map@, self.flac_header@.len() as int, start as int) {
                Ok((segment, skip)) => r matches Ok(target) && target.segment == segment
                    && target.skip == skip,
                Err(fault) => r == Err::<SeekTarget, SeekFault>(fault),
            },
    {
        let header_len: u64 = self.flac_header.len() as u64;
        let count: usize = self.segment_map.len();
        let data_offset: u64 = start.saturating_sub(header_len);
        let ghost wanted = ends_behind(data_offset as int);
        let mut i: usize = 0;
        let mut found: bool = false;
        while i < count && !found
            invariant
                count == self.segment_map@.len(),
                i <= count,
                wanted == ends_behind(data_offset as int),
                data_offset == minus(start as int, header_len as int),
                header_len == self.flac_header@.len(),
                forall|j: int| 0 <= j < i ==> !wanted(#[trigger] self.segment_map@[j]),
                found ==> i < count && wanted(self.segment_map@[i as int])
                    && self.segment_map@[i as int].byte_offset
                    + self.segment_map@[i as int].byte_len <= u64::MAX,
            decreases count - i + (if found { 0int } else { 1int }),
        {
            let segment = self.segment_map[i];
            match segment.byte_offset.checked_add(segment.byte_len) {
                Some(end) => {
                    if data_offset < end {
                        found = true;
                    } else {
                        i += 1;
                    }
                },
                None => {
                    proof {
                        lemma_first_match(self.segment_map@, wanted, i as int);
                    }
                    return Err(SeekFault::Overflow);
                },
            }
        }
        proof {
            if found {
                lemma_first_match(self.segment_map@, wanted, i as int);
            } else {
                lemma_no_match(self.segment_map@, wanted);
            }
        }
        if !found {
            if count == 0 {
                return Err(SeekFault::EmptyMap);
            }
            i = count - 1;
        }
        let segment = self.segment_map[i];
        if i as u128 + 1 > u32::MAX as u128 {
            return Err(SeekFault::Overflow);
        }
        let seg_start: u64 = match header_len.checked_add(segment.byte_offset) {
            Some(at) => at,
            None => return Err(SeekFault::Overflow),
        };
        let skip: u64 = start.saturating_sub(seg_start);
        if skip as u128 > usize::MAX as u128 {
            return Err(SeekFault::Overflow);
        }
        Ok(SeekTarget { segment: (i + 1) as u32, skip: skip as usize })
    }

    /// Whether every segment from `start_seg` on is downloaded.
    pub fn forward_complete(&self, start_seg: u32) -> (r: bool)
        requires
            self.wf(),
        ensures
            r == (forall|i: int|
                0 <= i < self.downloaded@.len() && i + 1 >= start_seg ==> #[trigger] filled(
                    self.downloaded@,
                    i,
                )),
    {
        let count: usize = self.downloaded.len();
        for i in 0..count
            invariant
                count == self.downloaded@.len(),
                self.wf(),
                forall|j: int|
                    0 <= j < i && j + 1 >= start_seg ==> #[trigger] filled(self.downloaded@, j),
        {
            if i as u64 + 1 >= start_seg as u64 && self.downloaded[i].is_none() {
                assert(!filled(self.downloaded@, i as int));
                return false;
            }
        }
        true
    }

    /// Starts filling the gaps behind a forward pass, unless the pass is not complete or the gaps
    /// are being filled already. Returns whether it starts.
    pub fn maybe_spawn_gap_fill(&mut self, start_seg: u32) -> (r: bool)
        requires
            old(self).wf(),
        ensures
            r == (!old(self).gap_fill_running && forall|i: int|
                0 <= i < old(self).downloaded@.len() && i + 1 >= start_seg ==> #[trigger] filled(
                    old(self).downloaded@,
                    i,
                )),
            *final(self) == (SharedDownloadState {
                gap_fill_running: old(self).gap_fill_running || r,
                ..*old(self)
            }),
    {
        if !self.forward_complete(start_seg) || self.gap_fill_running {
            return false;
        }
        self.gap_fill_running = true;
        true
    }

    /// Ends the filling of gaps.
    pub fn finish_gap_fill(&mut self)
        ensures
            *final(self) == (SharedDownloadState { gap_fill_running: false, ..*old(self) }),
    {
        self.gap_fill_running = false;
    }

    /// The segments that are not downloaded yet, in ascending order.
    pub fn fill_missing_segments(&self) -> (r: Vec<u32>)
        requires
            self.wf(),
        ensures
            forall|k: int| 0 <= k < r@.len() ==> wanting(self.downloaded@, #[trigger] r@[k] - 1),
            forall|k: int, l: int| 0 <= k < l < r@.len() ==> r@[k] < r@[l],
            forall|i: int|
                #[trigger] wanting(self.downloaded@, i) ==> r@.contains((i + 1) as u32),
    {
        let count: usize = self.downloaded.len();
        let mut missing: Vec<u32> = Vec::new();
        for i in 0..count
            invariant
                count == self.downloaded@.len(),
                self.wf(),
                forall|k: int|
                    0 <= k < missing@.len() ==> wanting(
                        self.downloaded@,
                        #[trigger] missing@[k] - 1,
                    ) && missing@[k] <= i,
                forall|k: int, l: int| 0 <= k < l < missing@.len() ==> missing@[k] < missing@[l],
                forall|j: int|
                    #[trigger] wanting(self.downloaded@, j) && j < i ==> missing@.contains(
                        (j + 1) as u32,
                    ),
        {
            let ghost before = missing@;
            if self.downloaded[i].is_none() {
                missing.push((i + 1) as u32);
                assert(missing@[before.len() as int] == i + 1);
                assert forall|j: int|
                    #[trigger] wanting(self.downloaded@, j) && j < i + 1 implies missing@.contains(
                    (j + 1) as u32,
                ) by {
                    if j < i {
                        let k = choose|k: int| 0 <= k < before.len() && before[k] == (j + 1) as u32;
                        assert(missing@[k] == (j + 1) as u32);
                    }
                }
            } else {
                assert(!wanting(self.downloaded@, i as int));
            }
        }
        missing
    }

    /// What to do for segment `seg` of the pass from `from_seg` to before `to_seg`, the first
    /// segment of which starts `skip_first_bytes` late.
    pub fn download_step(
        &self,
        seg: u32,
        from_seg: u32,
        to_seg: u32,
        skip_first_bytes: usize,
    ) -> (r: Result<SegmentStep, &'static str>)
        requires
            self.wf(),
            from_seg <= seg < to_seg,
        ensures
            match r {
                Err(message) => seg == 0 && message@ == "segment index overflow"@,
                Ok(step) => {
                    &&& seg > 0
                    &&& step.skip == if seg == from_seg {
                        skip_first_bytes
                    } else {
                        0
                    }
                    &&& step.prefetch == (if seg + 1 < to_seg && wanting(
                        self.downloaded@,
                        seg as int,
                    ) {
                        Some((seg + 1) as u32)
                    } else {
                        None
                    })
                    &&& is_source(
                        step.source,
                        self.downloaded@,
                        self.in_progress@,
                        seg - 1,
                        step.skip as int,
                    )
                },
            },
    {
        if seg == 0 {
            return Err("segment index overflow");
        }
        let idx: usize = (seg - 1) as usize;
        let skip: usize = if seg == from_seg {
            skip_first_bytes
        } else {
            0
        };
        let next_idx: usize = seg as usize;
        let prefetch: Option<u32> = if seg + 1 < to_seg && next_idx < self.downloaded.len()
            && self.downloaded[next_idx].is_none() {
            Some(seg + 1)
        } else {
            None
        };
        if idx < self.downloaded.len() {
            if let Some(frames) = &self.downloaded[idx] {
                let send = data_after_skip(frames, skip);
                return Ok(SegmentStep { prefetch, skip, source: SegmentSource::Memory { send } });
            }
        }
        if idx < self.in_progress.len() {
            if let Some(data) = &self.in_progress[idx] {
                if data.len() > skip {
                    let already_sent: usize = data.len() - skip;
                    let send = data_after_skip(data, skip);
                    return Ok(
                        SegmentStep {
                            prefetch,
                            skip,
                            source: SegmentSource::Partial { send, already_sent },
                        },
                    );
                }
            }
        }
        Ok(SegmentStep { prefetch, skip, source: SegmentSource::Network })
    }

    /// Whether segment `seg` is one of the stream that is not downloaded yet.
    pub fn needs_download(&self, seg: u32) -> (r: bool)
        ensures
            r == wanting(self.downloaded@, seg - 1),
    {
        if seg == 0 {
            return false;
        }
        let idx: usize = (seg - 1) as usize;
        idx < self.downloaded.len() && self.downloaded[idx].is_none()
    }

    /// The address of segment `seg`.
    pub fn segment_url(&self, seg: u32) -> (r: String)
        ensures
            r@ == replaced(self.url_template@, "$SEGMENT$"@, decimal(seg as nat), 0),
    {
        proof {
            reveal_strlit("$SEGMENT$");
        }
        replace_text(
            self.url_template.as_str(),
            "$SEGMENT$",
            decimal_text(seg as u128).as_str(),
        )
    }

    /// The key of the stream, or zeros.
    pub fn key_bytes(&self) -> (r: [u8; 16])
        ensures
            r@ == self.key(),
    {
        match self.content_key {
            Some(key) => key,
            None => {
                let key: [u8; 16] = [0u8;16];
                assert(key@ =~= Seq::new(16, |i: int| 0u8));
                key
            },
        }
    }

    /// Keeps a whole decrypted segment. Returns whether there is a slot for it.
    pub fn store_complete(&mut self, seg: u32, data: Vec<u8>) -> (r: bool)
        requires
            old(self).wf(),
        ensures
            final(self).wf(),
            final(self).same_stream(old(self)),
            final(self).cache_written == old(self).cache_written,
            final(self).gap_fill_running == old(self).gap_fill_running,
            r == (1 <= seg < old(self).n_segments),
            r ==> final(self).downloaded@ == old(self).downloaded@.update(seg - 1, Some(data)),
            r ==> final(self).in_progress@ == old(self).in_progress@.update(seg - 1, None),
            !r ==> *final(self) == *old(self),
    {
        if seg == 0 || seg >= self.n_segments {
            return false;
        }
        let idx: usize = (seg - 1) as usize;
        self.downloaded[idx] = Some(data);
        self.in_progress[idx] = None;
        true
    }

    /// Keeps the decrypted start of a segment where it is longer than what is kept already.
    /// Returns whether it was kept, or nothing where there is no slot for it.
    pub fn store_partial(&mut self, seg: u32, data: &Vec<u8>) -> (r: Option<bool>)
        requires
            old(self).wf(),
        ensures
            final(self).wf(),
            r is Some <==> 1 <= seg < old(self).n_segments,
            match r {
                None => *final(self) == *old(self),
                Some(kept) => {
                    let before = old(self).in_progress@[seg - 1];
                    &&& kept == (data@.len() > match before {
                        Some(known) => known@.len(),
                        None => 0,
                    })
                    &&& !kept ==> *final(self) == *old(self)
                    &&& kept ==> {
                        &&& final(self).same_stream(old(self))
                        &&& final(self).downloaded == old(self).downloaded
                        &&& final(self).cache_written == old(self).cache_written
                        &&& final(self).gap_fill_running == old(self).gap_fill_running
                        &&& final(self).in_progress@.len() == old(self).in_progress@.len()
                        &&& final(self).in_progress@[seg - 1] matches Some(known) && known@ == data@
                        &&& forall|i: int|
                            0 <= i < old(self).in_progress@.len() && i != seg - 1
                                ==> #[trigger] final(self).in_progress@[i] == old(
                                self,
                            ).in_progress@[i]
                    }
                },
            },
    {
        if seg == 0 || seg >= self.n_segments {
            return None;
        }
        let idx: usize = (seg - 1) as usize;
        let known: usize = match &self.in_progress[idx] {
            Some(known) => known.len(),
            None => 0,
        };
        if data.len() > known {
            self.in_progress[idx] = Some(copy_bytes(data.as_slice()));
            Some(true)
        } else {
            Some(false)
        }
    }

    /// Takes the bytes of the cache file, once: the header and all segments, where all are there.
    pub fn try_write_cache(&mut self) -> (r: CacheStep)
        ensures
            match r {
                CacheStep::AlreadyWritten => old(self).cache_written,
                CacheStep::Incomplete => !old(self).cache_written && exists|i: int|
                    #[trigger] wanting(old(self).downloaded@, i),
                CacheStep::TooLarge => {
                    &&& !old(self).cache_written
                    &&& forall|i: int| !#[trigger] wanting(old(self).downloaded@, i)
                    &&& old(self).flac_header@.len() + announced_len(old(self).segment_map@)
                        > usize::MAX
                },
                CacheStep::Write(bytes) => {
                    &&& !old(self).cache_written
                    &&& forall|i: int| !#[trigger] wanting(old(self).downloaded@, i)
                    &&& old(self).flac_header@.len() + announced_len(old(self).segment_map@)
                        <= usize::MAX
                    &&& bytes@ == old(self).flac_header@ + joined(old(self).downloaded@)
                },
            },
            *final(self) == (SharedDownloadState {
                cache_written: old(self).cache_written || r is Write,
                ..*old(self)
            }),
    {
        if self.cache_written {
            return CacheStep::AlreadyWritten;
        }
        let count: usize = self.downloaded.len();
        for i in 0..count
            invariant
                count == self.downloaded@.len(),
                *self == *old(self),
                !old(self).cache_written,
                forall|j: int| j < i ==> !#[trigger] wanting(self.downloaded@, j),
        {
            if self.downloaded[i].is_none() {
                assert(wanting(old(self).downloaded@, i as int));
                return CacheStep::Incomplete;
            }
        }
        let map_len: usize = self.segment_map.len();
        let mut size: u128 = self.flac_header.len() as u128;
        for i in 0..map_len
            invariant
                map_len == self.segment_map@.len(),
                *self == *old(self),
                !old(self).cache_written,
                forall|j: int| !#[trigger] wanting(self.downloaded@, j),
                size == self.flac_header@.len() + announced_len(
                    self.segment_map@.take(i as int),
                ),
                size <= usize::MAX,
        {
            assert(self.segment_map@.take(i + 1).drop_last() =~= self.segment_map@.take(i as int));
            size = size + self.segment_map[i].byte_len as u128;
            if size > usize::MAX as u128 {
                proof {
                    lemma_announced_grows(self.segment_map@, i + 1);
                }
                return CacheStep::TooLarge;
            }
        }
        assert(self.segment_map@.take(map_len as int) =~= self.segment_map@);
        let mut bytes = copy_bytes(self.flac_header.as_slice());
        for i in 0..count
            invariant
                count == self.downloaded@.len(),
                *self == *old(self),
                bytes@ == self.flac_header@ + joined(self.downloaded@.take(i as int)),
        {
            let ghost before = bytes@;
            assert(self.downloaded@.take(i + 1).drop_last() =~= self.downloaded@.take(i as int));
            if let Some(data) = &self.downloaded[i] {
                bytes.extend_from_slice(data.as_slice());
                assert(bytes@ =~= self.flac_header@ + joined(self.downloaded@.take(i + 1)));
            } else {
                assert(bytes@ =~= self.flac_header@ + joined(self.downloaded@.take(i + 1)));
            }
        }
        assert(self.downloaded@.take(count as int) =~= self.downloaded@);
        self.cache_written = true;
        CacheStep::Write(bytes)
    }

    /// Notes that the cache file could not be written, so that it is tried again.
    pub fn cache_failed(&mut self)
        ensures
            *final(self) == (SharedDownloadState { cache_written: false, ..*old(self) }),
    {
        self.cache_written = false;
    }
}

/// The announced length of a start of the map is no more than that of the map.
proof fn lemma_announced_grows(map: Seq<SegmentByteInfo>, n: int)
    requires
        0 <= n <= map.len(),
    ensures
        announced_len(map.take(n)) <= announced_len(map),
    decreases map.len() - n,
{
    if n < map.len() {
        assert(map.take(n + 1).drop_last() =~= map.take(n));
        lemma_announced_grows(map, n + 1);
    } else {
        assert(map.take(n) =~= map);
    }
}

/// Where the bytes of the segment in slot `i` come from: what is complete, then what is partial,
/// then the network.
pub open spec fn is_source(
    source: SegmentSource,
    downloaded: Seq<Option<Vec<u8>>>,
    in_progress: Seq<Option<Vec<u8>>>,
    i: int,
    skip: int,
) -> bool {
    if filled(downloaded, i) {
        source matches SegmentSource::Memory { send } && send@ == after_skip(
            downloaded[i]->0@,
            skip,
        )
    } else if filled(in_progress, i) && in_progress[i]->0@.len() > skip {
        source matches SegmentSource::Partial { send, already_sent } && send@
            == in_progress[i]->0@.skip(skip) && already_sent == in_progress[i]->0@.len() - skip
    } else {
        source is Network
    }
}

/// The segments lie one behind the other, from the first byte of the audio on.
pub open spec fn is_gapless(map: Seq<SegmentByteInfo>) -> bool {
    &&& map.len() > 0 ==> map[0].byte_offset == 0
    &&& forall|i: int|
        0 < i < map.len() ==> (#[trigger] map[i]).byte_offset == map[i - 1].byte_offset + map[i
            - 1].byte_len
}

/// A seek finds its byte: in a map without gaps, a byte of the audio lies in the segment where
/// the seek to it lands, behind the bytes that are left out.
pub proof fn law_a_seek_finds_its_byte(map: Seq<SegmentByteInfo>, header_len: int, start: int)
    requires
        is_gapless(map),
        0 < map.len() < u32::MAX,
        forall|i: int| 0 <= i < map.len() ==> (#[trigger] map[i]).byte_len <= usize::MAX,
        0 <= header_len <= start < header_len + map.last().byte_offset + map.last().byte_len
            <= u64::MAX,
    ensures
        seek_outcome(map, header_len, start) matches Ok((segment, skip)) && {
            &&& 1 <= segment <= map.len()
            &&& 0 <= skip < map[segment - 1].byte_len
            &&& header_len + map[segment - 1].byte_offset + skip == start
        },
{
    let wanted = ends_behind(start - header_len);
    let last = map.len() - 1;
    assert(wanted(map[last]));
    lemma_match_exists(map, wanted, last);
    let i = first_match(map, wanted)->0;
    if i > 0 {
        assert(!wanted(map[i - 1]));
        assert(map[i].byte_offset == map[i - 1].byte_offset + map[i - 1].byte_len);
    }
    lemma_ends_ascend(map, i, last);
}

proof fn lemma_ends_ascend(map: Seq<SegmentByteInfo>, i: int, j: int)
    requires
        is_gapless(map),
        0 <= i <= j < map.len(),
    ensures
        map[i].byte_offset + map[i].byte_len <= map[j].byte_offset + map[j].byte_len,
    decreases j - i,
{
    if i < j {
        lemma_ends_ascend(map, i, j - 1);
        assert(map[j].byte_offset == map[j - 1].byte_offset + map[j - 1].byte_len);
    }
}

} // verus!

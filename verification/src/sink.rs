//! The output of sound: when its stream is opened anew, and how far a track has been played.

use vstd::prelude::*;
use crate::sequences::{first_match, lemma_first_match, lemma_no_match};
use crate::text::owned;

verus! {

/// The longest duration, in nanoseconds.
pub const DURATION_MAX: u128 = 18_446_744_073_709_551_615_999_999_999;

/// What became of a track that was to be queued.
#[derive(Clone, Copy, Debug, PartialEq, Eq, Structural)]
pub enum QueryTrackResult {
    Queued,
    RecreateStreamRequired,
}

/// The stream that is opened for a track.
pub enum StreamChoice {
    /// There is one already.
    Keep,
    /// One on the default device.
    OpenDefault,
    /// One on the device of that name.
    OpenPreferred(String),
}

/// What is done with a track that is to be queued.
pub enum QueueStep {
    Queue(StreamChoice),
    /// The stream has another sample rate: it is to be recreated first.
    Recreate,
}

/// The output of sound. `playback` is the sample rate of its stream, where it has one.
pub struct Sink {
    playback: Option<u32>,
    duration_played: u128,
    preferred_device_id: Option<String>,
}

/// A sum of durations, as far as there are durations.
pub open spec fn duration_sum(a: u128, b: u128) -> u128 {
    if a + b > DURATION_MAX {
        DURATION_MAX
    } else {
        (a + b) as u128
    }
}

/// What is done with a track: a stream of its sample rate is kept, one of another is recreated, and
/// where there is none one is opened, on the preferred device if there is one.
pub open spec fn queue_step(
    rate: Option<u32>,
    preferred: Option<String>,
    sample_rate: u32,
) -> QueueStep {
    match rate {
        Some(current) => if current == sample_rate {
            QueueStep::Queue(StreamChoice::Keep)
        } else {
            QueueStep::Recreate
        },
        None => match preferred {
            Some(name) => QueueStep::Queue(StreamChoice::OpenPreferred(name)),
            None => QueueStep::Queue(StreamChoice::OpenDefault),
        },
    }
}

/// Once the sink was cleared a track of any sample rate can be queued, and then those of the same
/// sample rate are queued on the same stream.
pub proof fn law_a_cleared_sink_takes_any_track(preferred: Option<String>, sample_rate: u32)
    ensures
        queue_step(None, preferred, sample_rate) is Queue,
        queue_step(Some(sample_rate), preferred, sample_rate) == QueueStep::Queue(
            StreamChoice::Keep,
        ),
{
}

impl Sink {
    /// The sample rate of the stream.
    pub closed spec fn rate(&self) -> Option<u32> {
        self.playback
    }

    /// The time that the tracks before this one took.
    pub closed spec fn played(&self) -> u128 {
        self.duration_played
    }

    /// The device that is preferred.
    pub closed spec fn preferred(&self) -> Option<String> {
        self.preferred_device_id
    }

    pub fn new(preferred_device_id: Option<String>) -> (r: Self)
        ensures
            r.rate() is None,
            r.played() == 0,
            r.preferred() == preferred_device_id,
    {
        Sink { playback: None, duration_played: 0, preferred_device_id }
    }

    /// The position in the track, given that of the stream. Without a stream it is the start.
    pub fn position(&self, stream_position: u128) -> (r: u128)
        ensures
            r == if self.rate() is Some && stream_position > self.played() {
                stream_position - self.played()
            } else {
                0
            },
    {
        let position: u128 = match self.playback {
            Some(_) => stream_position,
            None => 0,
        };
        position.saturating_sub(self.duration_played)
    }

    pub fn is_empty(&self) -> (r: bool)
        ensures
            r == (self.rate() is None),
    {
        self.playback.is_none()
    }

    /// What is done with a track of a sample rate.
    pub fn queue_decoder(&self, sample_rate: u32) -> (r: QueueStep)
        ensures
            r == queue_step(self.rate(), self.preferred(), sample_rate),
    {
        match self.playback {
            Some(rate) => if rate == sample_rate {
                QueueStep::Queue(StreamChoice::Keep)
            } else {
                QueueStep::Recreate
            },
            None => match &self.preferred_device_id {
                Some(name) => QueueStep::Queue(StreamChoice::OpenPreferred(name.clone())),
                None => QueueStep::Queue(StreamChoice::OpenDefault),
            },
        }
    }

    /// A stream of a sample rate was opened.
    pub fn stream_opened(&mut self, sample_rate: u32)
        ensures
            final(self).rate() == Some(sample_rate),
            final(self).played() == old(self).played(),
            final(self).preferred() == old(self).preferred(),
    {
        self.playback = Some(sample_rate);
    }

    /// A track of that length came to its end.
    pub fn track_ended(&mut self, track_duration: u128)
        requires
            old(self).played() <= DURATION_MAX,
            track_duration <= DURATION_MAX,
        ensures
            final(self).rate() == old(self).rate(),
            final(self).played() == duration_sum(old(self).played(), track_duration),
            final(self).played() <= DURATION_MAX,
            final(self).preferred() == old(self).preferred(),
    {
        let sum: u128 = self.duration_played + track_duration;
        self.duration_played = if sum > DURATION_MAX {
            DURATION_MAX
        } else {
            sum
        };
    }

    /// The stream was asked for another position. Where it went there, the time of the tracks
    /// before no longer counts. Without a stream nothing happens.
    pub fn seek(&mut self, succeeded: bool)
        ensures
            final(self).rate() == old(self).rate(),
            final(self).preferred() == old(self).preferred(),
            final(self).played() == if old(self).rate() is Some && succeeded {
                0
            } else {
                old(self).played()
            },
    {
        if self.playback.is_some() && succeeded {
            self.duration_played = 0;
        }
    }

    /// Forgets the queue and tells whether a stream has one to be emptied.
    pub fn clear_queue(&mut self) -> (r: bool)
        ensures
            final(self).rate() == old(self).rate(),
            final(self).played() == 0,
            final(self).preferred() == old(self).preferred(),
            r == (old(self).rate() is Some),
    {
        self.duration_played = 0;
        self.playback.is_some()
    }

    /// Forgets the queue and closes the stream. Tells whether the stream has a queue to be emptied.
    pub fn clear(&mut self) -> (r: bool)
        ensures
            final(self).rate() is None,
            final(self).played() == 0,
            final(self).preferred() == old(self).preferred(),
            r == (old(self).rate() is Some),
    {
        let had_stream = self.clear_queue();
        self.playback = None;
        had_stream
    }
}

/// The description of a device is that name.
pub open spec fn described_as(name: Seq<char>) -> spec_fn(Option<String>) -> bool {
    |description: Option<String>|
        description matches Some(text) && text@ == name
}

/// The first device of that name. A device may have no description.
pub fn find_device(descriptions: &Vec<Option<String>>, name: &str) -> (r: Option<usize>)
    ensures
        match r {
            Some(i) => first_match(descriptions@, described_as(name@)) == Some(i as int),
            None => first_match(descriptions@, described_as(name@)) is None,
        },
{
    let wanted = owned(name);
    for i in 0..descriptions.len()
        invariant
            wanted@ == name@,
            forall|j: int| 0 <= j < i ==> !described_as(name@)(#[trigger] descriptions@[j]),
    {
        if let Some(text) = &descriptions[i] {
            if *text == wanted {
                proof {
                    lemma_first_match(descriptions@, described_as(name@), i as int);
                }
                return Some(i);
            }
        }
    }
    proof {
        lemma_no_match(descriptions@, described_as(name@));
    }
    None
}

/// The descriptions that there are, with commas between them.
pub open spec fn listed(descriptions: Seq<Option<String>>) -> Seq<char>
    decreases descriptions.len(),
{
    if descriptions.len() == 0 {
        Seq::empty()
    } else {
        let before = listed(descriptions.drop_last());
        match descriptions.last() {
            Some(text) => if exists|i: int|
                0 <= i < descriptions.len() - 1 && (#[trigger] descriptions[i]) is Some {
                before + ", "@ + text@
            } else {
                before + text@
            },
            None => before,
        }
    }
}

/// The error about a device that is not there, or could not be opened.
pub fn missing_device(descriptions: &Vec<Option<String>>) -> (r: String)
    ensures
        r@ == "Unable to find device. Available devices: "@ + listed(descriptions@),
{
    let head = owned("Unable to find device. Available devices: ");
    let mut s = head.as_str().to_owned();
    let mut first = true;
    assert(s@ =~= head@ + listed(descriptions@.take(0)));
    for i in 0..descriptions.len()
        invariant
            s@ == head@ + listed(descriptions@.take(i as int)),
            first <==> forall|j: int| 0 <= j < i ==> (#[trigger] descriptions@[j]) is None,
    {
        let ghost before = s@;
        let ghost so_far = descriptions@.take(i + 1);
        assert(so_far.drop_last() =~= descriptions@.take(i as int));
        assert(so_far.last() == descriptions@[i as int]);
        if let Some(text) = &descriptions[i] {
            if !first {
                s.append(", ");
                proof {
                    let j = choose|j: int| 0 <= j < i && !((#[trigger] descriptions@[j]) is None);
                    assert(so_far[j] is Some);
                }
            } else {
                assert forall|j: int| 0 <= j < so_far.len() - 1 implies !((#[trigger] so_far[j])
                    is Some) by {
                    assert(descriptions@[j] is None);
                }
            }
            s.append(text);
            first = false;
            assert(s@ =~= head@ + listed(so_far));
        }
    }
    assert(descriptions@.take(descriptions@.len() as int) =~= descriptions@);
    s
}

/// The message about a file that could not be read.
pub fn read_failure(path: &str, err: &str) -> (r: String)
    ensures
        r@ == "Failed to read file: "@ + path@ + ": "@ + err@,
{
    owned("Failed to read file: ").concat(path).concat(": ").concat(err)
}

/// The message about a stream that could not be decoded.
pub fn decode_failure(err: &str) -> (r: String)
    ensures
        r@ == "Failed to decode streaming FLAC: "@ + err@,
{
    owned("Failed to decode streaming FLAC: ").concat(err)
}

} // verus!

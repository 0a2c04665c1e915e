//! A reader over a stream whose length is known beforehand.

use vstd::prelude::*;

verus! {

/// A reader and the length of what it reads.
pub struct SeekableStreamReader<R> {
    inner: R,
    content_length: u64,
}

/// Why a seek from the end of the stream is refused.
#[derive(Clone, Copy, Debug, PartialEq, Eq)]
pub enum EndSeekFault {
    LengthTooLarge,
    OffsetOverflow,
    BeforeStart,
}

impl EndSeekFault {
    pub fn message(&self) -> (r: &'static str)
        ensures
            r@ == match self {
                EndSeekFault::LengthTooLarge => "content length exceeds i64::MAX"@,
                EndSeekFault::OffsetOverflow => "seek offset overflow"@,
                EndSeekFault::BeforeStart => "cannot seek before the start of the stream"@,
            },
    {
        match self {
            EndSeekFault::LengthTooLarge => "content length exceeds i64::MAX",
            EndSeekFault::OffsetOverflow => "seek offset overflow",
            EndSeekFault::BeforeStart => "cannot seek before the start of the stream",
        }
    }
}

impl<R> SeekableStreamReader<R> {
    /// The length of the stream.
    pub closed spec fn length(&self) -> u64 {
        self.content_length
    }

    /// What is read from.
    pub closed spec fn source(&self) -> R {
        self.inner
    }

    pub fn new(inner: R, content_length: u64) -> (r: Self)
        ensures
            r.source() == inner,
            r.length() == content_length,
    {
        Self { inner, content_length }
    }

    #[must_use]
    pub fn content_length(&self) -> (r: u64)
        ensures
            r == self.length(),
    {
        self.content_length
    }

    /// What is read from.
    pub fn inner_mut(&mut self) -> (r: &mut R)
        ensures
            *r == old(self).source(),
            final(self).source() == *final(r),
            final(self).length() == old(self).length(),
    {
        &mut self.inner
    }

    /// The position from the start that lies `offset` behind the end.
    pub fn position_from_end(&self, offset: i64) -> (r: Result<u64, EndSeekFault>)
        ensures
            match r {
                Ok(position) => {
                    &&& self.length() <= i64::MAX
                    &&& self.length() + offset <= i64::MAX
                    &&& position == self.length() + offset
                },
                Err(EndSeekFault::LengthTooLarge) => self.length() > i64::MAX,
                Err(EndSeekFault::OffsetOverflow) => self.length() <= i64::MAX && self.length()
                    + offset > i64::MAX,
                Err(EndSeekFault::BeforeStart) => self.length() <= i64::MAX && self.length()
                    + offset < 0,
            },
    {
        if self.content_length > i64::MAX as u64 {
            return Err(EndSeekFault::LengthTooLarge);
        }
        let length: i64 = self.content_length as i64;
        let target: i64 = match length.checked_add(offset) {
            Some(target) => target,
            None => return Err(EndSeekFault::OffsetOverflow),
        };
        if target < 0 {
            return Err(EndSeekFault::BeforeStart);
        }
        Ok(target as u64)
    }
}

} // verus!

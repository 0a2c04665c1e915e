//! A track that is fetched as one file, and kept once it is complete.

use vstd::prelude::*;
use crate::error::{is_stream_error, stream_error_with, Error};

verus! {

/// The address that a text is read as, or why it is none.
pub uninterp spec fn url_read(text: Seq<char>) -> Result<Seq<char>, Seq<char>>;

/// `url::Url::parse`, under the name that `reqwest` gives it: the address as it is written out, or
/// the text of the error. Which texts are addresses, and how one is written out, is left to the
/// crate.
#[verifier::external_body]
fn parse_url(text: &str) -> (r: Result<String, String>)
    ensures
        match r {
            Ok(address) => url_read(text@) == Ok::<Seq<char>, Seq<char>>(address@),
            Err(cause) => url_read(text@) == Err::<Seq<char>, Seq<char>>(cause@),
        },
{
    match reqwest::Url::parse(text) {
        Ok(address) => Ok(address.to_string()),
        Err(cause) => Err(cause.to_string()),
    }
}

/// The address of a track once it was read: one that is none is refused.
pub fn checked_url(read: Result<String, String>) -> (r: Result<String, Error>)
    ensures
        match read {
            Ok(address) => r == Ok::<String, Error>(address),
            Err(cause) => r matches Err(e) && is_stream_error(e, "invalid track URL: "@ + cause@),
        },
{
    match read {
        Ok(address) => Ok(address),
        Err(cause) => Err(stream_error_with("invalid track URL: ", cause.as_str())),
    }
}

/// The address from which a track is fetched.
pub fn track_url(url: &str) -> (r: Result<String, Error>)
    ensures
        match url_read(url@) {
            Ok(address) => r matches Ok(text) && text@ == address,
            Err(cause) => r matches Err(e) && is_stream_error(e, "invalid track URL: "@ + cause),
        },
{
    checked_url(parse_url(url))
}

/// What happens to the file of a fetch that ended.
#[derive(Clone, Copy, Debug, PartialEq, Eq, Structural)]
pub enum FinalizeStep {
    /// It is complete: it gets its final name.
    Rename,
    /// It is not complete: it is removed.
    Discard,
    /// There is none.
    Nothing,
}

/// The length of a track, zero where it is not known, and whether its file can be kept: only with
/// a known length can it be told to be complete.
pub fn expected_length(content_length: Option<u64>) -> (r: (u64, bool))
    ensures
        r.0 == match content_length {
            Some(length) => length,
            None => 0,
        },
        r.1 <==> r.0 > 0,
{
    let length: u64 = match content_length {
        Some(length) => length,
        None => 0,
    };
    (length, length > 0)
}

/// What happens to the file of a fetch that ended, given the length that it has.
pub fn finalize_cache(length: Option<u64>, expected: u64) -> (r: FinalizeStep)
    ensures
        r == match length {
            Some(length) => if length == expected {
                FinalizeStep::Rename
            } else {
                FinalizeStep::Discard
            },
            None => FinalizeStep::Nothing,
        },
{
    match length {
        Some(length) => if length == expected {
            FinalizeStep::Rename
        } else {
            FinalizeStep::Discard
        },
        None => FinalizeStep::Nothing,
    }
}

/// What happens where the complete file could not get its final name: it is removed.
pub fn after_rename(succeeded: bool) -> (r: FinalizeStep)
    ensures
        r == if succeeded {
            FinalizeStep::Nothing
        } else {
            FinalizeStep::Discard
        },
{
    if succeeded {
        FinalizeStep::Nothing
    } else {
        FinalizeStep::Discard
    }
}

} // verus!

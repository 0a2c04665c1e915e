//! What can go wrong between the player and the streaming service.

use vstd::prelude::*;
use crate::text::owned;

verus! {

#[derive(Debug)]
pub enum Error {
    ActiveSecret,
    SecretNotSet,
    AppID,
    Login,
    Create,
    Api { message: String },
    DeserializeJSON { message: String },
    Stream { message: String },
    Time { message: String },
    NumberConversion { message: String },
}

impl Error {
    /// The text that a user sees.
    pub open spec fn shown(&self) -> Seq<char> {
        match self {
            Error::ActiveSecret => "Failed to get a usable secret from Qobuz."@,
            Error::SecretNotSet => "Internal error: Secret not set."@,
            Error::AppID => "Failed to get an app id from Qobuz."@,
            Error::Login => "Failed to login."@,
            Error::Create => "Failed to create client"@,
            Error::Api { message } => message@,
            Error::DeserializeJSON { message } => "Failed to deserialize json: "@ + message@,
            Error::Stream { message } => "Unable to start stream: "@ + message@,
            Error::Time { message } => message@,
            Error::NumberConversion { message } => message@,
        }
    }

    /// The text that a user sees.
    pub fn display(&self) -> (r: String)
        ensures
            r@ == self.shown(),
    {
        match self {
            Error::ActiveSecret => owned("Failed to get a usable secret from Qobuz."),
            Error::SecretNotSet => owned("Internal error: Secret not set."),
            Error::AppID => owned("Failed to get an app id from Qobuz."),
            Error::Login => owned("Failed to login."),
            Error::Create => owned("Failed to create client"),
            Error::Api { message } => message.clone(),
            Error::DeserializeJSON { message } => owned("Failed to deserialize json: ").concat(
                message.as_str(),
            ),
            Error::Stream { message } => owned("Unable to start stream: ").concat(message.as_str()),
            Error::Time { message } => message.clone(),
            Error::NumberConversion { message } => message.clone(),
        }
    }

    /// The error of a request that failed: `status` is the status line of the reply, if one came.
    pub fn from_request(status: Option<String>) -> (r: Error)
        ensures
            match status {
                Some(line) => r == (Error::Api { message: line }),
                None => r matches Error::Api { message } && message@
                    == "Unable to connect to Qobuz api"@,
            },
    {
        match status {
            Some(line) => Error::Api { message: line },
            None => Error::Api { message: owned("Unable to connect to Qobuz api") },
        }
    }

    /// The error of a number or header value that does not fit.
    pub fn from_conversion(message: String) -> (r: Error)
        ensures
            r == (Error::NumberConversion { message }),
    {
        Error::NumberConversion { message }
    }
}

/// `e` is a stream error with the given message.
pub open spec fn is_stream_error(e: Error, message: Seq<char>) -> bool {
    e matches Error::Stream { message: m } && m@ == message
}

/// A stream error.
pub fn stream_error(message: &str) -> (r: Error)
    ensures
        is_stream_error(r, message@),
{
    Error::Stream { message: owned(message) }
}

/// A stream error that names its cause.
pub fn stream_error_with(context: &str, cause: &str) -> (r: Error)
    ensures
        is_stream_error(r, context@ + cause@),
{
    Error::Stream { message: owned(context).concat(cause) }
}

/// Each error is shown with its own words, and with the message that it carries.
pub proof fn law_errors_are_told(e: &Error, r: String, message: String)
    requires
        call_ensures(Error::display, (e,), r),
    ensures
        e is Login ==> r@ == "Failed to login."@,
        e is Create ==> r@ == "Failed to create client"@,
        e is AppID ==> r@ == "Failed to get an app id from Qobuz."@,
        e is ActiveSecret ==> r@ == "Failed to get a usable secret from Qobuz."@,
        e is SecretNotSet ==> r@ == "Internal error: Secret not set."@,
        *e == (Error::Api { message }) || *e == (Error::Time { message }) || *e == (
        Error::NumberConversion { message }) ==> r@ == message@,
        *e == (Error::DeserializeJSON { message }) ==> r@ == "Failed to deserialize json: "@
            + message@,
        *e == (Error::Stream { message }) ==> r@ == "Unable to start stream: "@ + message@,
{
}

/// An error of a stream tells what was done and why it failed.
pub proof fn law_a_stream_error_tells_its_cause(
    context: &str,
    cause: &str,
    e: Error,
    r: String,
    plain: Error,
    shown: String,
)
    requires
        call_ensures(stream_error_with, (context, cause), e),
        call_ensures(Error::display, (&e,), r),
        call_ensures(stream_error, (cause,), plain),
        call_ensures(Error::display, (&plain,), shown),
    ensures
        r@ == "Unable to start stream: "@ + (context@ + cause@),
        shown@ == "Unable to start stream: "@ + cause@,
{
}

} // verus!

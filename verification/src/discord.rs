//! What an answer of the provider means.
//!
//! The catalog is fetched with one request. The request itself is made by the
//! caller; what is decided here is which answers count as a catalog, and which
//! failure each other answer is.

use crate::error::ApiError;
use crate::text::opt_str_text;
use vstd::prelude::*;
use vstd::string::*;

verus! {

/// Whether an HTTP status says that the request succeeded.
pub open spec fn is_success(status: u16) -> bool {
    200 <= status <= 299
}

/// The text that stands for a body that could not be read.
pub open spec fn unknown_body() -> Seq<char> {
    "Unknown error"@
}

/// The message of the failure for a request that the provider refused.
pub open spec fn refusal_message(status_text: Seq<char>, body: Option<Seq<char>>) -> Seq<char> {
    "Discord API returned "@ + status_text + ": "@ + match body {
        Some(text) => text,
        None => unknown_body(),
    }
}

/// Whether an HTTP status says that the request succeeded.
pub fn is_success_status(status: u16) -> (ok: bool)
    ensures
        ok == is_success(status),
{
    200 <= status && status <= 299
}

/// The failure for a request that could not be sent or answered.
pub fn request_failed(reason: &str) -> (e: ApiError)
    ensures
        e is DiscordApiError,
        e.message() == "Request failed: "@ + reason@,
{
    ApiError::DiscordApiError("Request failed: ".to_owned().concat(reason))
}

/// The failure for a request that the provider refused: the status as the
/// provider gave it, and the body of the answer, or "Unknown error" where the
/// body could not be read.
pub fn provider_refused(status_text: &str, body: Option<&str>) -> (e: ApiError)
    ensures
        e is DiscordApiError,
        e.message() == refusal_message(status_text@, opt_str_text(body)),
{
    let text: &str = match body {
        Some(text) => text,
        None => "Unknown error",
    };
    let message = "Discord API returned ".to_owned().concat(status_text).concat(": ").concat(text);
    ApiError::DiscordApiError(message)
}

/// The failure for an answer whose body is no JSON document.
pub fn unreadable_body(reason: &str) -> (e: ApiError)
    ensures
        e is DiscordApiError,
        e.message() == "Failed to parse response: "@ + reason@,
{
    ApiError::DiscordApiError("Failed to parse response: ".to_owned().concat(reason))
}

} // verus!

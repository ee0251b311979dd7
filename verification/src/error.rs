//! The failures that the catalog service reports, and how each is shown to a
//! client.

use crate::json::{Json, JsonView, new_members, no_members, push_member};
use vstd::prelude::*;
use vstd::string::*;

verus! {

/// A failure, tagged by where it arose, with a message for the reader.
#[derive(Debug, PartialEq, Eq)]
pub enum ApiError {
    /// The normalized store could not be read or written.
    DatabaseError(String),
    /// The provider could not be reached, refused the request, or sent a body
    /// that could not be read.
    DiscordApiError(String),
    /// A required setting is absent or invalid.
    ConfigError(String),
    /// The cached document could not be used.
    CacheError(String),
    /// A document does not have the expected shape.
    InternalError(String),
    /// What was asked for is not stored. Nothing went wrong with the store.
    NotFound(String),
}

/// The status code sent for a provider failure.
pub const STATUS_BAD_GATEWAY: u16 = 502;

/// The status code sent where what was asked for is not stored.
pub const STATUS_NOT_FOUND: u16 = 404;

/// The status code sent for every other failure.
pub const STATUS_INTERNAL_SERVER_ERROR: u16 = 500;

impl ApiError {
    /// The message that the failure carries.
    pub open spec fn message(self) -> Seq<char> {
        match self {
            ApiError::DatabaseError(m) => m@,
            ApiError::DiscordApiError(m) => m@,
            ApiError::ConfigError(m) => m@,
            ApiError::CacheError(m) => m@,
            ApiError::InternalError(m) => m@,
            ApiError::NotFound(m) => m@,
        }
    }

    /// The words that introduce the message when the failure is printed.
    pub open spec fn label(self) -> Seq<char> {
        match self {
            ApiError::DatabaseError(_) => "Database error: "@,
            ApiError::DiscordApiError(_) => "Discord API error: "@,
            ApiError::ConfigError(_) => "Configuration error: "@,
            ApiError::CacheError(_) => "Cache error: "@,
            ApiError::InternalError(_) => "Internal server error: "@,
            ApiError::NotFound(_) => "Not found: "@,
        }
    }

    /// The HTTP status that answers a request which ended in this failure: bad
    /// gateway for a provider failure, not found where what was asked for is
    /// not stored, internal server error otherwise.
    pub open spec fn status(self) -> u16 {
        if self is DiscordApiError {
            STATUS_BAD_GATEWAY
        } else if self is NotFound {
            STATUS_NOT_FOUND
        } else {
            STATUS_INTERNAL_SERVER_ERROR
        }
    }

    /// The body that answers a request which ended in this failure: the
    /// message under `error` and the status under `status`.
    pub open spec fn body(self) -> JsonView {
        JsonView::Object(
            no_members().push(("error"@, JsonView::String(self.message()))).push(
                ("status"@, JsonView::integer(self.status() as int)),
            ),
        )
    }

    /// The HTTP status for this failure.
    pub fn status_code(&self) -> (code: u16)
        ensures
            code == self.status(),
    {
        match self {
            ApiError::DiscordApiError(_) => STATUS_BAD_GATEWAY,
            ApiError::NotFound(_) => STATUS_NOT_FOUND,
            _ => STATUS_INTERNAL_SERVER_ERROR,
        }
    }

    /// A copy of the message.
    pub fn message_text(&self) -> (m: String)
        ensures
            m@ == self.message(),
    {
        match self {
            ApiError::DatabaseError(m) => m.clone(),
            ApiError::DiscordApiError(m) => m.clone(),
            ApiError::ConfigError(m) => m.clone(),
            ApiError::CacheError(m) => m.clone(),
            ApiError::InternalError(m) => m.clone(),
            ApiError::NotFound(m) => m.clone(),
        }
    }

    /// The failure as one line of text: its label, then its message.
    pub fn to_string(&self) -> (line: String)
        ensures
            line@ == self.label() + self.message(),
    {
        let label: &str = match self {
            ApiError::DatabaseError(_) => "Database error: ",
            ApiError::DiscordApiError(_) => "Discord API error: ",
            ApiError::ConfigError(_) => "Configuration error: ",
            ApiError::CacheError(_) => "Cache error: ",
            ApiError::InternalError(_) => "Internal server error: ",
            ApiError::NotFound(_) => "Not found: ",
        };
        let message = self.message_text();
        label.to_owned().concat(message.as_str())
    }

    /// The response body for this failure.
    pub fn error_body(&self) -> (body: Json)
        ensures
            body@ == self.body(),
    {
        let mut members = new_members();
        let message = self.message_text();
        let code = self.status_code();
        push_member(&mut members, "error", Json::String(message));
        push_member(&mut members, "status", Json::from_i32(code as i32));
        Json::Object(members)
    }
}

} // verus!

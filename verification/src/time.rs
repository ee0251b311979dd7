//! Instants, and the timestamp codec of the provider's wire format.
//!
//! A [`Timestamp`] is an instant on the UTC time line, held as whole seconds
//! since the Unix epoch and the nanoseconds past them. Reading and writing the
//! wire format (RFC 3339) is left to `chrono`; what it returns is known here
//! only by name.
//!
//! Reading does not undo writing for every instant. `chrono` holds instants far
//! beyond the year 9999, and writes the year of such an instant with a sign and
//! five or more digits. That text is no RFC 3339: [`parse_timestamp`] refuses
//! it.

use crate::error::ApiError;
use vstd::prelude::*;
use vstd::string::*;

verus! {

/// What `chrono` reads from `text` as an RFC 3339 date and time: the instant as
/// seconds since the Unix epoch and nanoseconds past the second, or nothing
/// where `text` is not such a date and time.
pub uninterp spec fn rfc3339_instant(text: Seq<char>) -> Option<(i64, u32)>;

/// What `chrono` writes for the instant `secs`, `nanos`, in UTC with the suffix
/// `Z` and as many fractional digits as the instant needs, or nothing where
/// `chrono` has no date and time for the pair. For the years 0 to 9999 the text
/// is RFC 3339; for a year outside them it has a signed year of five or more
/// digits and is not.
pub uninterp spec fn rfc3339_text(secs: i64, nanos: u32) -> Option<Seq<char>>;

/// The reason that `chrono` gives where a text is no date and time.
#[verifier::external_type_specification]
#[verifier::external_body]
pub struct ExParseError(chrono::ParseError);

/// An instant for which `chrono` has a date and time.
#[derive(Clone, Copy, Debug, PartialEq, Eq)]
pub struct Timestamp {
    secs: i64,
    nanos: u32,
}

/// Nanoseconds in a second.
pub const NANOS_PER_SECOND: i128 = 1_000_000_000;

/// Nanoseconds in a millisecond.
pub const NANOS_PER_MILLI: i128 = 1_000_000;

/// Nanoseconds in a day of 86 400 seconds.
pub const NANOS_PER_DAY: i128 = 86_400_000_000_000;

impl Timestamp {
    #[verifier::type_invariant]
    closed spec fn representable(self) -> bool {
        rfc3339_text(self.secs, self.nanos) is Some
    }

    /// Whole seconds since the Unix epoch.
    pub closed spec fn secs(self) -> i64 {
        self.secs
    }

    /// Nanoseconds past the whole second.
    pub closed spec fn nanos(self) -> u32 {
        self.nanos
    }

    /// The timestamp with the given seconds and nanoseconds.
    pub closed spec fn at(secs: i64, nanos: u32) -> Timestamp {
        Timestamp { secs, nanos }
    }

    /// What the text says in the wire format, if it is a date and time.
    pub open spec fn parsed(text: Seq<char>) -> Option<Timestamp> {
        match rfc3339_instant(text) {
            Some((secs, nanos)) => Some(Timestamp::at(secs, nanos)),
            None => None,
        }
    }

    /// The instant as nanoseconds since the Unix epoch.
    pub open spec fn instant(self) -> int {
        self.secs() * 1_000_000_000 + self.nanos()
    }

    /// The instant as `chrono` writes it: in the wire format for the years 0 to
    /// 9999, and with a signed year of five or more digits, which is not the
    /// wire format, outside them.
    pub open spec fn text(self) -> Seq<char> {
        rfc3339_text(self.secs(), self.nanos()).unwrap()
    }

    /// A timestamp is given by its seconds and nanoseconds.
    pub proof fn lemma_at(self)
        ensures
            Timestamp::at(self.secs(), self.nanos()) == self,
    {
    }

    /// The reading of the system clock: some instant for which `chrono` has a
    /// date and time. Which instant it is depends on when the clock is read.
    pub fn now() -> (t: Timestamp)
        ensures
            rfc3339_text(t.secs(), t.nanos()) is Some,
    {
        read_clock()
    }

    /// The instant `secs`, `nanos`, where `chrono` has a date and time for it.
    /// That is so far beyond the year 9999, where the instant is no longer
    /// written in the wire format.
    pub fn from_parts(secs: i64, nanos: u32) -> (r: Option<Timestamp>)
        ensures
            r is Some <==> rfc3339_text(secs, nanos) is Some,
            r matches Some(t) ==> t.secs() == secs && t.nanos() == nanos,
    {
        match render_rfc3339(secs, nanos) {
            Some(_) => Some(Timestamp { secs, nanos }),
            None => None,
        }
    }

    /// Whole seconds since the Unix epoch.
    pub fn seconds(&self) -> (s: i64)
        ensures
            s == self.secs(),
    {
        self.secs
    }

    /// Nanoseconds past the whole second.
    pub fn subsec_nanos(&self) -> (n: u32)
        ensures
            n == self.nanos(),
    {
        self.nanos
    }

    /// The instant as nanoseconds since the Unix epoch.
    pub fn nanos_since_epoch(&self) -> (n: i128)
        ensures
            n == self.instant(),
    {
        (self.secs as i128) * NANOS_PER_SECOND + (self.nanos as i128)
    }

    /// The instant as `chrono` writes it: in the wire format for the years 0 to
    /// 9999. Outside them the text has a signed year of five or more digits,
    /// which is not the wire format and which [`parse_timestamp`] refuses.
    pub fn to_rfc3339(&self) -> (text: String)
        ensures
            text@ == self.text(),
    {
        proof {
            use_type_invariant(self);
        }
        match render_rfc3339(self.secs, self.nanos) {
            Some(text) => text,
            None => unreached(),
        }
    }

    /// Whether this instant is not before `other`.
    pub fn is_at_or_after(&self, other: &Timestamp) -> (b: bool)
        ensures
            b == (self.instant() >= other.instant()),
    {
        self.nanos_since_epoch() >= other.nanos_since_epoch()
    }
}

/// Reads the system clock with `chrono`.
///
/// Calls `chrono::Utc::now`, which fails only where the system clock stands
/// before 1970, and takes the instant from the result with `timestamp` and
/// `timestamp_subsec_nanos`. The contract claims that `DateTime::from_timestamp`
/// takes the pair back, which `chrono` documents as a guaranteed round trip,
/// and nothing of the instant itself.
#[verifier::external_body]
fn read_clock() -> (t: Timestamp)
    ensures
        rfc3339_text(t.secs(), t.nanos()) is Some,
{
    let now = chrono::Utc::now();
    Timestamp { secs: now.timestamp(), nanos: now.timestamp_subsec_nanos() }
}

/// Renders an instant with `chrono`.
///
/// Calls `DateTime::from_timestamp`, which gives nothing for a pair outside its
/// calendar, and `DateTime::to_rfc3339_opts` with `SecondsFormat::AutoSi` and
/// `Z` for UTC. The contract names the result and claims nothing else.
#[verifier::external_body]
fn render_rfc3339(secs: i64, nanos: u32) -> (r: Option<String>)
    ensures
        match r {
            Some(text) => rfc3339_text(secs, nanos) == Some(text@),
            None => rfc3339_text(secs, nanos) is None,
        },
{
    match chrono::DateTime::from_timestamp(secs, nanos) {
        Some(dt) => Some(dt.to_rfc3339_opts(chrono::SecondsFormat::AutoSi, true)),
        None => None,
    }
}

/// Reads an RFC 3339 date and time with `chrono`.
///
/// Calls `DateTime::parse_from_rfc3339` and takes the instant in UTC from the
/// result with `timestamp` and `timestamp_subsec_nanos`. The contract names the
/// instant, and claims that `DateTime::from_timestamp` takes the pair back,
/// which `chrono` documents as a guaranteed round trip.
#[verifier::external_body]
fn read_rfc3339(s: &str) -> (r: Result<Timestamp, chrono::ParseError>)
    ensures
        match r {
            Ok(t) => rfc3339_instant(s@) == Some((t.secs(), t.nanos())) && rfc3339_text(
                t.secs(),
                t.nanos(),
            ) is Some,
            Err(_) => rfc3339_instant(s@) is None,
        },
{
    match chrono::DateTime::parse_from_rfc3339(s) {
        Ok(dt) => {
            let utc = dt.with_timezone(&chrono::Utc);
            Ok(Timestamp { secs: utc.timestamp(), nanos: utc.timestamp_subsec_nanos() })
        },
        Err(e) => Err(e),
    }
}

/// The words in which `chrono` describes why a text is no date and time.
///
/// Calls the `Display` of `chrono::ParseError`. Nothing is claimed of the text.
#[verifier::external_body]
fn describe_parse_error(e: &chrono::ParseError) -> (text: String) {
    format!("{}", e)
}

/// The words that introduce the reason when a timestamp cannot be read.
pub open spec fn timestamp_failure_prefix() -> Seq<char> {
    "Failed to parse timestamp: "@
}

/// Reads a timestamp in the provider's wire format.
///
/// Succeeds exactly on the texts that `chrono` reads as RFC 3339, with the
/// instant that it reads. Every other text is a mapping failure whose message
/// starts with "Failed to parse timestamp: ".
pub fn parse_timestamp(s: &str) -> (r: Result<Timestamp, ApiError>)
    ensures
        match r {
            Ok(t) => Timestamp::parsed(s@) == Some(t),
            Err(e) => Timestamp::parsed(s@) is None && e is InternalError
                && timestamp_failure_prefix().is_prefix_of(e.message()),
        },
{
    match read_rfc3339(s) {
        Ok(t) => {
            proof {
                t.lemma_at();
            }
            Ok(t)
        },
        Err(e) => {
            let reason = describe_parse_error(&e);
            let message = "Failed to parse timestamp: ".to_owned().concat(reason.as_str());
            Err(ApiError::InternalError(message))
        },
    }
}

} // verus!

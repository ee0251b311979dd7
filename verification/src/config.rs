//! The settings that the catalog service reads at start.
//!
//! The settings come as texts, each of which may be missing. The credential
//! and the address of the store must be there and must not be blank; the
//! port, the cache duration and the quest age fall back to a default where
//! they are missing or are no numbers. Reading numbers and trimming texts is
//! left to the standard library; what it returns is stated here as its
//! documentation gives it.

use crate::error::ApiError;
use crate::text::opt_text;
use vstd::prelude::*;

verus! {

/// Whether the character is one of the ten decimal digits.
pub open spec fn is_digit(c: char) -> bool {
    '0' <= c <= '9'
}

/// Whether each character of the text is a decimal digit.
pub open spec fn all_digits(digits: Seq<char>) -> bool {
    forall|i: int| 0 <= i < digits.len() ==> is_digit(#[trigger] digits[i])
}

/// The number that the digits write in base ten.
pub open spec fn digits_value(digits: Seq<char>) -> int
    decreases digits.len(),
{
    if digits.len() == 0 {
        0
    } else {
        digits_value(digits.drop_last()) * 10 + (digits.last() as int - '0' as int)
    }
}

/// The integer that a text writes in base ten, where it writes one from
/// `min` to `max`: a sign, which may be left out, followed by one or more
/// decimal digits and nothing else. The sign is `+`, or `-` where `signed`.
pub open spec fn decimal(text: Seq<char>, signed: bool, min: int, max: int) -> Option<int> {
    let negative = signed && text.len() > 0 && text[0] == '-';
    let digits = if text.len() > 0 && (text[0] == '+' || negative) {
        text.skip(1)
    } else {
        text
    };
    let value = if negative {
        -digits_value(digits)
    } else {
        digits_value(digits)
    };
    if digits.len() > 0 && all_digits(digits) && min <= value <= max {
        Some(value)
    } else {
        None
    }
}

/// The `u16` that the text writes, or nothing where it writes none.
pub open spec fn decimal_u16(text: Seq<char>) -> Option<u16> {
    match decimal(text, false, 0, u16::MAX as int) {
        Some(value) => Some(value as u16),
        None => None,
    }
}

/// The `u64` that the text writes, or nothing where it writes none.
pub open spec fn decimal_u64(text: Seq<char>) -> Option<u64> {
    match decimal(text, false, 0, u64::MAX as int) {
        Some(value) => Some(value as u64),
        None => None,
    }
}

/// The `i64` that the text writes, or nothing where it writes none.
pub open spec fn decimal_i64(text: Seq<char>) -> Option<i64> {
    match decimal(text, true, i64::MIN as int, i64::MAX as int) {
        Some(value) => Some(value as i64),
        None => None,
    }
}

/// Whether the character is white space: whether it is one of the code points
/// that have the Unicode property `White_Space`.
pub open spec fn is_white_space(c: char) -> bool {
    let code = c as int;
    ||| 0x09 <= code <= 0x0D
    ||| code == 0x20
    ||| code == 0x85
    ||| code == 0xA0
    ||| code == 0x1680
    ||| 0x2000 <= code <= 0x200A
    ||| code == 0x2028
    ||| code == 0x2029
    ||| code == 0x202F
    ||| code == 0x205F
    ||| code == 0x3000
}

/// The text without the white space at its start.
pub open spec fn trimmed_start(text: Seq<char>) -> Seq<char>
    decreases text.len(),
{
    if text.len() > 0 && is_white_space(text.first()) {
        trimmed_start(text.drop_first())
    } else {
        text
    }
}

/// The text without the white space at its end.
pub open spec fn trimmed_end(text: Seq<char>) -> Seq<char>
    decreases text.len(),
{
    if text.len() > 0 && is_white_space(text.last()) {
        trimmed_end(text.drop_last())
    } else {
        text
    }
}

/// The text without the white space at its start and at its end.
pub open spec fn trimmed(text: Seq<char>) -> Seq<char> {
    trimmed_end(trimmed_start(text))
}

/// The settings of one running service.
#[derive(Debug, PartialEq, Eq)]
pub struct Config {
    /// The credential sent to the provider.
    pub discord_token: String,
    /// Where the normalized store is reached.
    pub database_url: String,
    /// The port on which requests are answered.
    pub port: u16,
    /// For how many minutes a cached document is served.
    pub cache_duration_minutes: u64,
    /// How many days past its end a quest is still listed.
    pub quest_age_days: i64,
}

/// The mathematical value of [`Config`].
pub ghost struct ConfigView {
    pub discord_token: Seq<char>,
    pub database_url: Seq<char>,
    pub port: u16,
    pub cache_duration_minutes: u64,
    pub quest_age_days: i64,
}

impl View for Config {
    type V = ConfigView;

    open spec fn view(&self) -> ConfigView {
        ConfigView {
            discord_token: self.discord_token@,
            database_url: self.database_url@,
            port: self.port,
            cache_duration_minutes: self.cache_duration_minutes,
            quest_age_days: self.quest_age_days,
        }
    }
}

impl Clone for Config {
    /// A copy with the same settings.
    fn clone(&self) -> (r: Config)
        ensures
            r@ == self@,
    {
        Config {
            discord_token: self.discord_token.clone(),
            database_url: self.database_url.clone(),
            port: self.port,
            cache_duration_minutes: self.cache_duration_minutes,
            quest_age_days: self.quest_age_days,
        }
    }
}

/// Milliseconds in a minute.
pub const MILLIS_PER_MINUTE: u64 = 60_000;

/// The port where none is given.
pub const DEFAULT_PORT: u16 = 3000;

/// The cache duration in minutes where none is given.
pub const DEFAULT_CACHE_DURATION_MINUTES: u64 = 30;

/// The quest age in days where none is given.
pub const DEFAULT_QUEST_AGE_DAYS: i64 = 30;

/// The port that the text gives, or the default.
pub open spec fn port_of(text: Option<Seq<char>>) -> u16 {
    match text {
        Some(t) => match decimal_u16(t) {
            Some(port) => port,
            None => DEFAULT_PORT,
        },
        None => DEFAULT_PORT,
    }
}

/// The cache duration that the text gives, or the default.
pub open spec fn cache_duration_of(text: Option<Seq<char>>) -> u64 {
    match text {
        Some(t) => match decimal_u64(t) {
            Some(minutes) => minutes,
            None => DEFAULT_CACHE_DURATION_MINUTES,
        },
        None => DEFAULT_CACHE_DURATION_MINUTES,
    }
}

/// The quest age that the text gives, or the default.
pub open spec fn quest_age_of(text: Option<Seq<char>>) -> i64 {
    match text {
        Some(t) => match decimal_i64(t) {
            Some(days) => days,
            None => DEFAULT_QUEST_AGE_DAYS,
        },
        None => DEFAULT_QUEST_AGE_DAYS,
    }
}

/// Whether nothing is left of the text once it is trimmed.
pub open spec fn is_blank(text: Seq<char>) -> bool {
    trimmed(text).len() == 0
}

/// The settings that the texts give, or the message that says which required
/// setting is missing or blank. A missing credential is reported before a
/// missing address, and a missing setting before a blank one.
pub open spec fn settings_of(
    discord_token: Option<Seq<char>>,
    database_url: Option<Seq<char>>,
    port: Option<Seq<char>>,
    cache_duration_minutes: Option<Seq<char>>,
    quest_age_days: Option<Seq<char>>,
) -> Result<ConfigView, Seq<char>> {
    match (discord_token, database_url) {
        (None, _) => Err("DISCORD_TOKEN must be set in environment"@),
        (Some(_), None) => Err("DATABASE_URL must be set in environment"@),
        (Some(token), Some(url)) => if is_blank(token) {
            Err("DISCORD_TOKEN cannot be empty"@)
        } else if is_blank(url) {
            Err("DATABASE_URL cannot be empty"@)
        } else {
            Ok(
                ConfigView {
                    discord_token: token,
                    database_url: url,
                    port: port_of(port),
                    cache_duration_minutes: cache_duration_of(cache_duration_minutes),
                    quest_age_days: quest_age_of(quest_age_days),
                },
            )
        },
    }
}

/// Reads a `u16` with the standard library.
///
/// Calls `str::parse::<u16>`. The contract states what the documentation of
/// the call gives: a `+`, which may be left out, followed by decimal digits
/// and nothing else, is read as the number that the digits write, where that
/// is a `u16`; every other text is refused.
#[verifier::external_body]
fn parse_u16(s: &str) -> (r: Option<u16>)
    ensures
        r == decimal_u16(s@),
{
    s.parse::<u16>().ok()
}

/// Reads a `u64` with the standard library.
///
/// Calls `str::parse::<u64>`. The contract states what the documentation of
/// the call gives: a `+`, which may be left out, followed by decimal digits
/// and nothing else, is read as the number that the digits write, where that
/// is a `u64`; every other text is refused.
#[verifier::external_body]
fn parse_u64(s: &str) -> (r: Option<u64>)
    ensures
        r == decimal_u64(s@),
{
    s.parse::<u64>().ok()
}

/// Reads an `i64` with the standard library.
///
/// Calls `str::parse::<i64>`. The contract states what the documentation of
/// the call gives: a `+` or a `-`, which may be left out, followed by decimal
/// digits and nothing else, is read as the number that they write, where that
/// is an `i64`; every other text is refused.
#[verifier::external_body]
fn parse_i64(s: &str) -> (r: Option<i64>)
    ensures
        r == decimal_i64(s@),
{
    s.parse::<i64>().ok()
}

/// Trims a text with the standard library.
///
/// Calls `str::trim`. The contract states what the documentation of the call
/// gives: the text without the characters at its start and at its end that
/// have the Unicode property `White_Space`.
#[verifier::external_body]
fn trim(s: &str) -> (r: &str)
    ensures
        r@ == trimmed(s@),
{
    s.trim()
}

/// Whether nothing is left of the text once it is trimmed.
fn blank(s: &str) -> (b: bool)
    ensures
        b == is_blank(s@),
{
    trim(s).is_empty()
}

/// A configuration failure with the given message.
fn config_error(message: &str) -> (e: ApiError)
    ensures
        e is ConfigError,
        e.message() == message@,
{
    ApiError::ConfigError(message.to_owned())
}

impl Config {
    /// The settings that the texts give.
    ///
    /// Fails, with a configuration failure, exactly where the credential or
    /// the address of the store is missing or blank.
    pub fn from_vars(
        discord_token: Option<String>,
        database_url: Option<String>,
        port: Option<String>,
        cache_duration_minutes: Option<String>,
        quest_age_days: Option<String>,
    ) -> (r: Result<Config, ApiError>)
        ensures
            match settings_of(
                opt_text(discord_token),
                opt_text(database_url),
                opt_text(port),
                opt_text(cache_duration_minutes),
                opt_text(quest_age_days),
            ) {
                Ok(settings) => r matches Ok(config) && config@ == settings,
                Err(message) => r matches Err(e) && e is ConfigError && e.message() == message,
            },
    {
        let token = match discord_token {
            Some(token) => token,
            None => {
                return Err(config_error("DISCORD_TOKEN must be set in environment"));
            },
        };
        let url = match database_url {
            Some(url) => url,
            None => {
                return Err(config_error("DATABASE_URL must be set in environment"));
            },
        };
        let port: u16 = match &port {
            Some(text) => match parse_u16(text.as_str()) {
                Some(port) => port,
                None => DEFAULT_PORT,
            },
            None => DEFAULT_PORT,
        };
        let minutes: u64 = match &cache_duration_minutes {
            Some(text) => match parse_u64(text.as_str()) {
                Some(minutes) => minutes,
                None => DEFAULT_CACHE_DURATION_MINUTES,
            },
            None => DEFAULT_CACHE_DURATION_MINUTES,
        };
        let days: i64 = match &quest_age_days {
            Some(text) => match parse_i64(text.as_str()) {
                Some(days) => days,
                None => DEFAULT_QUEST_AGE_DAYS,
            },
            None => DEFAULT_QUEST_AGE_DAYS,
        };
        if blank(token.as_str()) {
            return Err(config_error("DISCORD_TOKEN cannot be empty"));
        }
        if blank(url.as_str()) {
            return Err(config_error("DATABASE_URL cannot be empty"));
        }
        Ok(
            Config {
                discord_token: token,
                database_url: url,
                port,
                cache_duration_minutes: minutes,
                quest_age_days: days,
            },
        )
    }

    /// The cache duration in milliseconds, as a mathematical integer.
    pub open spec fn cache_duration_millis(self) -> int {
        self.cache_duration_minutes as int * 60_000
    }

    /// The cache duration in milliseconds.
    ///
    /// The duration must fit: a duration of more than `i64::MAX` milliseconds
    /// cannot be held in the result.
    pub fn cache_duration_ms(&self) -> (ms: i64)
        requires
            self.cache_duration_millis() <= i64::MAX,
        ensures
            ms == self.cache_duration_millis(),
    {
        (self.cache_duration_minutes * MILLIS_PER_MINUTE) as i64
    }
}

} // verus!

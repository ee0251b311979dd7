use quest_catalog::config::Config;
use quest_catalog::discord::{is_success_status, provider_refused, request_failed, unreadable_body};
use quest_catalog::error::ApiError;
use quest_catalog::json::Json;
use quest_catalog::time::{parse_timestamp, Timestamp};

#[test]
fn cache_duration_is_minutes_times_sixty_thousand() {
    let config = Config {
        discord_token: "token".to_string(),
        database_url: "mysql://localhost/quests".to_string(),
        port: 3000,
        cache_duration_minutes: 30,
        quest_age_days: 30,
    };
    assert_eq!(config.cache_duration_ms(), 1_800_000);
}

#[test]
fn cache_duration_of_zero_minutes_is_zero() {
    let config = Config {
        discord_token: "t".to_string(),
        database_url: "d".to_string(),
        port: 1,
        cache_duration_minutes: 0,
        quest_age_days: 0,
    };
    assert_eq!(config.cache_duration_ms(), 0);
}

#[test]
fn parse_timestamp_reads_the_wire_format() {
    let t = parse_timestamp("2025-01-10T16:00:00+00:00").unwrap();
    assert_eq!(t.seconds(), 1_736_524_800);
    assert_eq!(t.subsec_nanos(), 0);
    assert_eq!(t.nanos_since_epoch(), 1_736_524_800_000_000_000);
}

#[test]
fn parse_timestamp_brings_offsets_to_utc() {
    let plain = parse_timestamp("2025-01-10T16:00:00Z").unwrap();
    let east = parse_timestamp("2025-01-10T18:00:00+02:00").unwrap();
    assert_eq!(plain, east);
}

#[test]
fn parse_timestamp_keeps_fractions_of_a_second() {
    let t = parse_timestamp("2025-01-10T16:00:00.123456789Z").unwrap();
    assert_eq!(t.subsec_nanos(), 123_456_789);
    assert_eq!(t.to_rfc3339(), "2025-01-10T16:00:00.123456789Z");
}

#[test]
fn parse_timestamp_rejects_what_is_no_timestamp() {
    for bad in ["", "tomorrow", "2025-01-10", "2025-13-10T16:00:00Z", "2025-01-10 16:00:00"] {
        match parse_timestamp(bad) {
            Err(ApiError::InternalError(message)) => {
                assert!(message.starts_with("Failed to parse timestamp: "));
                assert!(message.len() > "Failed to parse timestamp: ".len());
            }
            other => panic!("{:?}", other),
        }
    }
}

#[test]
fn timestamps_are_written_in_utc_with_z() {
    let t = parse_timestamp("2025-01-10T16:00:00+00:00").unwrap();
    assert_eq!(t.to_rfc3339(), "2025-01-10T16:00:00Z");
    let t = parse_timestamp("2025-01-10T18:30:00.500+02:00").unwrap();
    assert_eq!(t.to_rfc3339(), "2025-01-10T16:30:00.500Z");
}

#[test]
fn writing_and_reading_a_timestamp_gives_it_back() {
    let t = Timestamp::from_parts(1_700_000_000, 250_000_000).unwrap();
    assert_eq!(t.to_rfc3339(), "2023-11-14T22:13:20.250Z");
    assert_eq!(parse_timestamp(&t.to_rfc3339()).unwrap(), t);
}

#[test]
fn from_parts_refuses_what_the_calendar_does_not_hold() {
    assert!(Timestamp::from_parts(0, 0).is_some());
    assert!(Timestamp::from_parts(i64::MAX, 0).is_none());
    assert!(Timestamp::from_parts(i64::MIN, 0).is_none());
    assert!(Timestamp::from_parts(0, 2_000_000_000).is_none());
}

#[test]
fn timestamps_are_ordered_by_their_instant() {
    let early = Timestamp::from_parts(100, 999_999_999).unwrap();
    let late = Timestamp::from_parts(101, 0).unwrap();
    assert!(late.is_at_or_after(&early));
    assert!(!early.is_at_or_after(&late));
    assert!(early.is_at_or_after(&early));
}

#[test]
fn the_clock_reads_an_instant_of_this_century() {
    let now = Timestamp::now();
    assert!(now.seconds() > 1_700_000_000);
    assert!(parse_timestamp(&now.to_rfc3339()).unwrap() == now);
}

#[test]
fn provider_failures_are_bad_gateway_and_the_rest_internal() {
    assert_eq!(ApiError::DiscordApiError("x".to_string()).status_code(), 502);
    assert_eq!(ApiError::DatabaseError("x".to_string()).status_code(), 500);
    assert_eq!(ApiError::ConfigError("x".to_string()).status_code(), 500);
    assert_eq!(ApiError::CacheError("x".to_string()).status_code(), 500);
    assert_eq!(ApiError::InternalError("x".to_string()).status_code(), 500);
    assert_eq!(ApiError::NotFound("x".to_string()).status_code(), 404);
}

#[test]
fn failures_print_with_their_label() {
    assert_eq!(ApiError::DatabaseError("gone".to_string()).to_string(), "Database error: gone");
    assert_eq!(
        ApiError::DiscordApiError("gone".to_string()).to_string(),
        "Discord API error: gone"
    );
    assert_eq!(ApiError::ConfigError("gone".to_string()).to_string(), "Configuration error: gone");
    assert_eq!(ApiError::CacheError("gone".to_string()).to_string(), "Cache error: gone");
    assert_eq!(
        ApiError::InternalError("gone".to_string()).to_string(),
        "Internal server error: gone"
    );
    assert_eq!(ApiError::NotFound("gone".to_string()).to_string(), "Not found: gone");
    assert_eq!(ApiError::CacheError("gone".to_string()).message_text(), "gone");
    assert_eq!(ApiError::NotFound("gone".to_string()).message_text(), "gone");
}

#[test]
fn the_error_body_carries_message_and_status() {
    let body = ApiError::DiscordApiError("upstream down".to_string()).error_body();
    assert_eq!(
        body,
        Json::Object(vec![
            ("error".to_string(), Json::String("upstream down".to_string())),
            ("status".to_string(), Json::from_i32(502)),
        ])
    );
    let body = ApiError::NotFound("no quest".to_string()).error_body();
    assert_eq!(body.get("status"), Some(&Json::from_i32(404)));
    assert_eq!(body.get("error"), Some(&Json::String("no quest".to_string())));
    let body = ApiError::DatabaseError("no disk".to_string()).error_body();
    assert_eq!(body.get("status"), Some(&Json::from_i32(500)));
    assert_eq!(body.get("error"), Some(&Json::String("no disk".to_string())));
}

#[test]
fn only_the_two_hundreds_are_success() {
    assert!(is_success_status(200));
    assert!(is_success_status(204));
    assert!(is_success_status(299));
    assert!(!is_success_status(199));
    assert!(!is_success_status(300));
    assert!(!is_success_status(401));
    assert!(!is_success_status(500));
}

#[test]
fn provider_failures_say_what_went_wrong() {
    assert_eq!(
        provider_refused("401 Unauthorized", Some("{\"message\": \"no\"}")),
        ApiError::DiscordApiError(
            "Discord API returned 401 Unauthorized: {\"message\": \"no\"}".to_string()
        )
    );
    assert_eq!(
        provider_refused("500 Internal Server Error", None),
        ApiError::DiscordApiError(
            "Discord API returned 500 Internal Server Error: Unknown error".to_string()
        )
    );
    assert_eq!(
        request_failed("connection reset"),
        ApiError::DiscordApiError("Request failed: connection reset".to_string())
    );
    assert_eq!(
        unreadable_body("expected value at line 1"),
        ApiError::DiscordApiError("Failed to parse response: expected value at line 1".to_string())
    );
}

use quest_catalog::config::Config;
use quest_catalog::error::ApiError;

fn some(s: &str) -> Option<String> {
    Some(s.to_string())
}

fn missing(message: &str) -> Result<Config, ApiError> {
    Err(ApiError::ConfigError(message.to_string()))
}

#[test]
fn settings_are_read_from_their_texts() {
    assert_eq!(
        Config::from_vars(some("token"), some("mysql://db"), some("8080"), some("5"), some("-7")),
        Ok(Config {
            discord_token: "token".to_string(),
            database_url: "mysql://db".to_string(),
            port: 8080,
            cache_duration_minutes: 5,
            quest_age_days: -7,
        })
    );
}

#[test]
fn missing_numbers_fall_back_to_their_defaults() {
    assert_eq!(
        Config::from_vars(some("token"), some("mysql://db"), None, None, None),
        Ok(Config {
            discord_token: "token".to_string(),
            database_url: "mysql://db".to_string(),
            port: 3000,
            cache_duration_minutes: 30,
            quest_age_days: 30,
        })
    );
}

#[test]
fn texts_that_are_no_numbers_fall_back_to_the_defaults() {
    let config = Config::from_vars(
        some("token"),
        some("mysql://db"),
        some("70000"),
        some("-1"),
        some("thirty"),
    )
    .unwrap();
    assert_eq!(config.port, 3000);
    assert_eq!(config.cache_duration_minutes, 30);
    assert_eq!(config.quest_age_days, 30);
    let config =
        Config::from_vars(some("token"), some("mysql://db"), some(" 80"), some(""), some("1.5"))
            .unwrap();
    assert_eq!(config.port, 3000);
    assert_eq!(config.cache_duration_minutes, 30);
    assert_eq!(config.quest_age_days, 30);
}

#[test]
fn the_credential_and_the_address_must_be_there() {
    assert_eq!(
        Config::from_vars(None, some("mysql://db"), None, None, None),
        missing("DISCORD_TOKEN must be set in environment")
    );
    assert_eq!(
        Config::from_vars(None, None, None, None, None),
        missing("DISCORD_TOKEN must be set in environment")
    );
    assert_eq!(
        Config::from_vars(some("token"), None, None, None, None),
        missing("DATABASE_URL must be set in environment")
    );
}

#[test]
fn the_credential_and_the_address_must_not_be_blank() {
    assert_eq!(
        Config::from_vars(some("  \t"), some("mysql://db"), None, None, None),
        missing("DISCORD_TOKEN cannot be empty")
    );
    assert_eq!(
        Config::from_vars(some(""), some(""), None, None, None),
        missing("DISCORD_TOKEN cannot be empty")
    );
    assert_eq!(
        Config::from_vars(some("token"), some(" \n "), None, None, None),
        missing("DATABASE_URL cannot be empty")
    );
    assert_eq!(
        Config::from_vars(some(" "), None, None, None, None),
        missing("DATABASE_URL must be set in environment")
    );
}

#[test]
fn texts_are_kept_as_they_were_given() {
    let config = Config::from_vars(some(" token "), some(" mysql://db "), None, None, None).unwrap();
    assert_eq!(config.discord_token, " token ");
    assert_eq!(config.database_url, " mysql://db ");
    assert_eq!(config.clone(), config);
}

fn with_numbers(port: &str, minutes: &str, days: &str) -> Config {
    Config::from_vars(some("token"), some("mysql://db"), some(port), some(minutes), some(days))
        .unwrap()
}

#[test]
fn a_plus_sign_and_leading_zeros_are_read() {
    let config = with_numbers("+8080", "0005", "+007");
    assert_eq!(config.port, 8080);
    assert_eq!(config.cache_duration_minutes, 5);
    assert_eq!(config.quest_age_days, 7);
    let config = with_numbers("0", "+0", "-0");
    assert_eq!(config.port, 0);
    assert_eq!(config.cache_duration_minutes, 0);
    assert_eq!(config.quest_age_days, 0);
    let config = with_numbers("000000000000000000000000000065535", "1", "1");
    assert_eq!(config.port, 65535);
}

#[test]
fn a_minus_sign_is_read_for_the_quest_age_only() {
    let config = with_numbers("-1", "-5", "-30");
    assert_eq!(config.port, 3000);
    assert_eq!(config.cache_duration_minutes, 30);
    assert_eq!(config.quest_age_days, -30);
    let config = with_numbers("-0", "-0", "-0");
    assert_eq!(config.port, 3000);
    assert_eq!(config.cache_duration_minutes, 30);
    assert_eq!(config.quest_age_days, 0);
}

#[test]
fn numbers_are_read_up_to_the_limits_of_their_types() {
    let config = with_numbers("65535", "18446744073709551615", "9223372036854775807");
    assert_eq!(config.port, u16::MAX);
    assert_eq!(config.cache_duration_minutes, u64::MAX);
    assert_eq!(config.quest_age_days, i64::MAX);
    let config = with_numbers("65536", "18446744073709551616", "9223372036854775808");
    assert_eq!(config.port, 3000);
    assert_eq!(config.cache_duration_minutes, 30);
    assert_eq!(config.quest_age_days, 30);
    let config = with_numbers("1", "1", "-9223372036854775808");
    assert_eq!(config.quest_age_days, i64::MIN);
    let config = with_numbers("1", "1", "-9223372036854775809");
    assert_eq!(config.quest_age_days, 30);
}

#[test]
fn a_sign_alone_or_anything_but_digits_is_no_number() {
    for text in
        ["", "+", "-", "++1", "+-1", "-+1", "--1", "1+", "1-", " 1", "1 ", "1_000", "0x10", "1.0",
         "1e3", "٣", "１"]
    {
        let config = with_numbers(text, text, text);
        assert_eq!(config.port, 3000, "{:?}", text);
        assert_eq!(config.cache_duration_minutes, 30, "{:?}", text);
        assert_eq!(config.quest_age_days, 30, "{:?}", text);
    }
}

#[test]
fn every_white_space_character_is_trimmed() {
    let white_space: Vec<char> = [
        0x09u32, 0x0A, 0x0B, 0x0C, 0x0D, 0x20, 0x85, 0xA0, 0x1680, 0x2000, 0x2001, 0x2002, 0x2003,
        0x2004, 0x2005, 0x2006, 0x2007, 0x2008, 0x2009, 0x200A, 0x2028, 0x2029, 0x202F, 0x205F,
        0x3000,
    ]
    .iter()
    .map(|code| char::from_u32(*code).unwrap())
    .collect();
    for c in &white_space {
        assert_eq!(
            Config::from_vars(Some(c.to_string()), some("mysql://db"), None, None, None),
            missing("DISCORD_TOKEN cannot be empty"),
            "{:?}",
            c
        );
        let padded = format!("{}token{}", c, c);
        assert!(Config::from_vars(Some(padded), some("mysql://db"), None, None, None).is_ok());
    }
    let all: String = white_space.iter().collect();
    assert_eq!(
        Config::from_vars(some("token"), Some(all), None, None, None),
        missing("DATABASE_URL cannot be empty")
    );
}

#[test]
fn characters_that_are_no_white_space_are_not_trimmed() {
    for code in [0x08u32, 0x0E, 0x1F, 0x21, 0x84, 0x86, 0x9F, 0xA1, 0x180E, 0x1FFF, 0x200B, 0x200C,
                 0x2027, 0x202A, 0x202E, 0x2030, 0x205E, 0x2060, 0x2FFF, 0x3001, 0xFEFF]
    {
        let c = char::from_u32(code).unwrap();
        assert!(
            Config::from_vars(Some(c.to_string()), some("mysql://db"), None, None, None).is_ok(),
            "{:x}",
            code
        );
    }
}

#[test]
fn only_the_set_of_white_space_characters_makes_a_text_blank() {
    let white_space: Vec<u32> = vec![
        0x09, 0x0A, 0x0B, 0x0C, 0x0D, 0x20, 0x85, 0xA0, 0x1680, 0x2000, 0x2001, 0x2002, 0x2003,
        0x2004, 0x2005, 0x2006, 0x2007, 0x2008, 0x2009, 0x200A, 0x2028, 0x2029, 0x202F, 0x205F,
        0x3000,
    ];
    let mut code: u32 = 0;
    while code <= 0x10FFFF {
        if let Some(c) = char::from_u32(code) {
            let blank =
                Config::from_vars(Some(c.to_string()), some("mysql://db"), None, None, None)
                    .is_err();
            assert_eq!(blank, white_space.contains(&code), "{:x}", code);
        }
        code += 1;
    }
}

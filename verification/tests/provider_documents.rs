use quest_catalog::error::ApiError;
use quest_catalog::json::Json;
use quest_catalog::provider::{
    parse_discord_response, Application, Assets, Colors, CtaConfig, DiscordQuest,
    DiscordQuestResponse, Messages, QuestConfig, Reward, RewardMessages, RewardsConfig,
    TaskConfigV2,
};

fn text(s: &str) -> Json {
    Json::String(s.to_string())
}

fn object(members: Vec<(&str, Json)>) -> Json {
    Json::Object(members.into_iter().map(|(k, v)| (k.to_string(), v)).collect())
}

fn without(doc: &Json, key: &str) -> Json {
    match doc {
        Json::Object(members) => {
            Json::Object(members.iter().filter(|(k, _)| k != key).cloned().collect())
        }
        other => other.clone(),
    }
}

fn with(doc: &Json, key: &str, value: Json) -> Json {
    match without(doc, key) {
        Json::Object(mut members) => {
            members.push((key.to_string(), value));
            Json::Object(members)
        }
        other => other,
    }
}

fn config_doc() -> Json {
    object(vec![
        ("id", text("q1")),
        ("config_version", Json::from_i32(2)),
        ("starts_at", text("2025-01-10T16:00:00+00:00")),
        ("expires_at", text("2025-01-20T16:00:00+00:00")),
        ("features", Json::Array(vec![Json::from_i32(3), Json::from_i32(9)])),
        (
            "application",
            object(vec![("id", text("app1")), ("name", text("Game")), ("link", text("https://g"))]),
        ),
        ("assets", object(vec![("hero", text("hero.png")), ("logotype", Json::Null)])),
        ("colors", object(vec![("primary", text("#111111")), ("secondary", text("#222222"))])),
        (
            "messages",
            object(vec![
                ("quest_name", text("Quest")),
                ("game_title", text("Title")),
                ("game_publisher", text("Publisher")),
            ]),
        ),
        (
            "task_config_v2",
            object(vec![
                (
                    "tasks",
                    object(vec![(
                        "WATCH_VIDEO",
                        object(vec![
                            ("type", text("WATCH_VIDEO")),
                            ("target", Json::from_i32(900)),
                            ("external_ids", Json::Array(vec![text("v1")])),
                        ]),
                    )]),
                ),
                ("join_operator", text("and")),
            ]),
        ),
        (
            "rewards_config",
            object(vec![
                ("assignment_method", Json::from_i32(1)),
                (
                    "rewards",
                    Json::Array(vec![object(vec![
                        ("type", Json::from_i32(4)),
                        ("sku_id", text("sku")),
                        (
                            "messages",
                            object(vec![
                                ("name", text("Orbs")),
                                ("name_with_article", text("some Orbs")),
                                (
                                    "redemption_instructions_by_platform",
                                    object(vec![("0", text("Open the shop"))]),
                                ),
                            ]),
                        ),
                        ("orb_quantity", Json::from_i32(700)),
                    ])]),
                ),
                ("rewards_expire_at", text("2025-02-20T16:00:00+00:00")),
                ("platforms", Json::Array(vec![Json::from_i32(0)])),
            ]),
        ),
        ("share_policy", text("shareable_everywhere")),
        ("cta_config", object(vec![("link", text("https://cta")), ("button_label", text("Go"))])),
    ])
}

fn quest_doc() -> Json {
    object(vec![
        ("id", text("q1")),
        ("config", config_doc()),
        ("user_status", object(vec![("enrolled_at", Json::Null)])),
        ("preview", Json::Bool(false)),
    ])
}

fn expected_quest() -> DiscordQuest {
    DiscordQuest {
        id: "q1".to_string(),
        config: QuestConfig {
            config_version: 2,
            starts_at: "2025-01-10T16:00:00+00:00".to_string(),
            expires_at: "2025-01-20T16:00:00+00:00".to_string(),
            features: Some(vec![3, 9]),
            application: Application {
                id: "app1".to_string(),
                name: "Game".to_string(),
                link: "https://g".to_string(),
            },
            assets: Assets {
                hero: Some("hero.png".to_string()),
                hero_video: None,
                quest_bar_hero: None,
                quest_bar_hero_video: None,
                game_tile: None,
                logotype: None,
                game_tile_light: None,
                game_tile_dark: None,
                logotype_light: None,
                logotype_dark: None,
            },
            colors: Colors { primary: "#111111".to_string(), secondary: "#222222".to_string() },
            messages: Messages {
                quest_name: "Quest".to_string(),
                game_title: "Title".to_string(),
                game_publisher: "Publisher".to_string(),
            },
            task_config_v2: Some(TaskConfigV2 {
                tasks: vec![(
                    "WATCH_VIDEO".to_string(),
                    object(vec![
                        ("type", text("WATCH_VIDEO")),
                        ("target", Json::from_i32(900)),
                        ("external_ids", Json::Array(vec![text("v1")])),
                    ]),
                )],
                join_operator: "and".to_string(),
            }),
            rewards_config: RewardsConfig {
                assignment_method: 1,
                rewards: vec![Reward {
                    reward_type: 4,
                    sku_id: Some("sku".to_string()),
                    messages: RewardMessages {
                        name: "Orbs".to_string(),
                        name_with_article: "some Orbs".to_string(),
                        redemption_instructions_by_platform: Some(vec![(
                            "0".to_string(),
                            text("Open the shop"),
                        )]),
                    },
                    orb_quantity: Some(700),
                }],
                rewards_expire_at: Some("2025-02-20T16:00:00+00:00".to_string()),
                platforms: vec![0],
            },
            share_policy: "shareable_everywhere".to_string(),
            cta_config: Some(CtaConfig {
                link: "https://cta".to_string(),
                button_label: "Go".to_string(),
            }),
        },
        preview: false,
    }
}

fn unreadable() -> ApiError {
    ApiError::InternalError(
        "Failed to parse Discord response: the document does not have the expected shape"
            .to_string(),
    )
}

#[test]
fn a_quest_is_read_member_by_member() {
    assert_eq!(DiscordQuest::from_json(&quest_doc()), Some(expected_quest()));
}

#[test]
fn a_catalog_is_read_quest_by_quest() {
    let catalog = object(vec![
        ("quests", Json::Array(vec![quest_doc(), quest_doc()])),
        ("excluded_quests", Json::Array(vec![])),
    ]);
    assert_eq!(
        parse_discord_response(&catalog),
        Ok(DiscordQuestResponse { quests: vec![expected_quest(), expected_quest()] })
    );
}

#[test]
fn an_empty_catalog_is_a_catalog() {
    let catalog = object(vec![("quests", Json::Array(vec![]))]);
    assert_eq!(parse_discord_response(&catalog), Ok(DiscordQuestResponse { quests: vec![] }));
}

#[test]
fn a_document_without_quests_is_no_catalog() {
    assert_eq!(parse_discord_response(&object(vec![])), Err(unreadable()));
    assert_eq!(parse_discord_response(&Json::Null), Err(unreadable()));
    assert_eq!(parse_discord_response(&Json::Array(vec![])), Err(unreadable()));
    assert_eq!(
        parse_discord_response(&object(vec![("quests", text("none"))])),
        Err(unreadable())
    );
    assert_eq!(
        parse_discord_response(&object(vec![("quests", Json::Null)])),
        Err(unreadable())
    );
}

#[test]
fn one_unreadable_quest_makes_the_catalog_unreadable() {
    let broken = without(&quest_doc(), "preview");
    let catalog = object(vec![("quests", Json::Array(vec![quest_doc(), broken]))]);
    assert_eq!(parse_discord_response(&catalog), Err(unreadable()));
}

#[test]
fn each_required_member_of_a_quest_must_be_there() {
    for key in ["id", "config", "preview"] {
        assert_eq!(DiscordQuest::from_json(&without(&quest_doc(), key)), None);
    }
    for key in [
        "config_version",
        "starts_at",
        "expires_at",
        "application",
        "assets",
        "colors",
        "messages",
        "rewards_config",
        "share_policy",
    ] {
        let doc = with(&quest_doc(), "config", without(&config_doc(), key));
        assert_eq!(DiscordQuest::from_json(&doc), None);
    }
}

#[test]
fn optional_members_of_the_configuration_may_be_left_out() {
    let mut config = config_doc();
    for key in ["features", "task_config_v2", "cta_config"] {
        config = without(&config, key);
    }
    let doc = with(&quest_doc(), "config", config);
    let mut expected = expected_quest();
    expected.config.features = None;
    expected.config.task_config_v2 = None;
    expected.config.cta_config = None;
    assert_eq!(DiscordQuest::from_json(&doc), Some(expected));
}

#[test]
fn optional_members_may_be_null() {
    let mut config = config_doc();
    for key in ["features", "task_config_v2", "cta_config"] {
        config = with(&config, key, Json::Null);
    }
    let doc = with(&quest_doc(), "config", config);
    let mut expected = expected_quest();
    expected.config.features = None;
    expected.config.task_config_v2 = None;
    expected.config.cta_config = None;
    assert_eq!(DiscordQuest::from_json(&doc), Some(expected));
}

#[test]
fn a_member_of_the_wrong_type_makes_the_quest_unreadable() {
    let doc = with(&quest_doc(), "preview", text("false"));
    assert_eq!(DiscordQuest::from_json(&doc), None);
    let doc = with(&quest_doc(), "id", Json::from_i32(1));
    assert_eq!(DiscordQuest::from_json(&doc), None);
    let doc = with(&quest_doc(), "config", with(&config_doc(), "config_version", text("2")));
    assert_eq!(DiscordQuest::from_json(&doc), None);
    let doc = with(&quest_doc(), "config", with(&config_doc(), "features", text("3")));
    assert_eq!(DiscordQuest::from_json(&doc), None);
    let doc = with(&quest_doc(), "config", with(&config_doc(), "assets", Json::Null));
    assert_eq!(DiscordQuest::from_json(&doc), None);
    let doc = with(&quest_doc(), "config", with(&config_doc(), "cta_config", text("x")));
    assert_eq!(DiscordQuest::from_json(&doc), None);
}

#[test]
fn media_may_all_be_missing() {
    assert_eq!(
        Assets::from_json(&object(vec![])),
        Some(Assets {
            hero: None,
            hero_video: None,
            quest_bar_hero: None,
            quest_bar_hero_video: None,
            game_tile: None,
            logotype: None,
            game_tile_light: None,
            game_tile_dark: None,
            logotype_light: None,
            logotype_dark: None,
        })
    );
    assert_eq!(Assets::from_json(&Json::Null), None);
    assert_eq!(Assets::from_json(&Json::Array(vec![])), None);
}

#[test]
fn a_call_to_action_needs_link_and_label() {
    assert_eq!(
        CtaConfig::from_json(&object(vec![("link", text("l")), ("button_label", text("b"))])),
        Some(CtaConfig { link: "l".to_string(), button_label: "b".to_string() })
    );
    assert_eq!(CtaConfig::from_json(&object(vec![("link", text("l"))])), None);
    assert_eq!(CtaConfig::from_json(&object(vec![("button_label", text("b"))])), None);
}

#[test]
fn a_reward_keeps_its_type_under_the_key_type() {
    let reward = object(vec![
        ("type", Json::from_i32(1)),
        ("messages", object(vec![("name", text("n")), ("name_with_article", text("a n"))])),
    ]);
    assert_eq!(
        Reward::from_json(&reward),
        Some(Reward {
            reward_type: 1,
            sku_id: None,
            messages: RewardMessages {
                name: "n".to_string(),
                name_with_article: "a n".to_string(),
                redemption_instructions_by_platform: None,
            },
            orb_quantity: None,
        })
    );
    assert_eq!(Reward::from_json(&with(&without(&reward, "type"), "reward_type", Json::from_i32(1))), None);
}

#[test]
fn the_platforms_of_the_rewards_must_be_there() {
    let rewards = object(vec![
        ("assignment_method", Json::from_i32(1)),
        ("rewards", Json::Array(vec![])),
        ("platforms", Json::Array(vec![Json::from_i32(2), Json::from_i32(3)])),
    ]);
    assert_eq!(
        RewardsConfig::from_json(&rewards),
        Some(RewardsConfig {
            assignment_method: 1,
            rewards: vec![],
            rewards_expire_at: None,
            platforms: vec![2, 3],
        })
    );
    assert_eq!(RewardsConfig::from_json(&without(&rewards, "platforms")), None);
    assert_eq!(RewardsConfig::from_json(&without(&rewards, "rewards")), None);
}

use quest_catalog::config::Config;
use quest_catalog::error::ApiError;
use quest_catalog::ingest::{save_discord_quests_to_db, save_single_quest};
use quest_catalog::json::Json;
use quest_catalog::models::{QuestFeature, QuestTask};
use quest_catalog::provider::DiscordQuest;
use quest_catalog::reconstruct::{reconstruct_discord_response, reconstruct_single_quest};
use quest_catalog::store::{
    get_cache, get_complete_quest_by_id, get_existing_quest_ids, replace_quest_tasks,
    upsert_quest_assets, QuestStore,
};
use quest_catalog::sync::{
    fetch_and_cache_quests, get_quests, is_cache_stale, is_stale_at, refresh_quests, QuestsStep,
};
use quest_catalog::time::{parse_timestamp, Timestamp};

fn at(text: &str) -> Timestamp {
    parse_timestamp(text).unwrap()
}

fn text(s: &str) -> Json {
    Json::String(s.to_string())
}

fn object(members: Vec<(&str, Json)>) -> Json {
    Json::Object(members.into_iter().map(|(k, v)| (k.to_string(), v)).collect())
}

fn ints(values: &[i32]) -> Json {
    Json::Array(values.iter().map(|v| Json::from_i32(*v)).collect())
}

fn without(doc: &Json, key: &str) -> Json {
    match doc {
        Json::Object(members) => {
            Json::Object(members.iter().filter(|(k, _)| k != key).cloned().collect())
        }
        other => other.clone(),
    }
}

fn with(doc: &Json, key: &str, value: Json) -> Json {
    match doc {
        Json::Object(members) => {
            let mut found = false;
            let mut out: Vec<(String, Json)> = Vec::new();
            for (k, v) in members {
                if k == key {
                    found = true;
                    out.push((k.clone(), value.clone()));
                } else {
                    out.push((k.clone(), v.clone()));
                }
            }
            if !found {
                out.push((key.to_string(), value));
            }
            Json::Object(out)
        }
        other => other.clone(),
    }
}

fn in_config(quest: &Json, key: &str, value: Json) -> Json {
    with(quest, "config", with(quest.get("config").unwrap(), key, value))
}

fn out_of_config(quest: &Json, key: &str) -> Json {
    with(quest, "config", without(quest.get("config").unwrap(), key))
}

fn task(kind: &str, target: i32) -> (&str, Json) {
    (
        kind,
        object(vec![
            ("type", text(kind)),
            ("target", Json::from_i32(target)),
            ("applications", Json::Array(vec![object(vec![("id", text("app9"))])])),
            ("external_ids", Json::Null),
        ]),
    )
}

fn reward(kind: i32, sku: Option<&str>, orbs: Option<i32>, instructions: Json) -> Json {
    object(vec![
        ("type", Json::from_i32(kind)),
        ("sku_id", match sku {
            Some(s) => text(s),
            None => Json::Null,
        }),
        (
            "messages",
            object(vec![
                ("name", text("Reward")),
                ("name_with_article", text("a Reward")),
                ("redemption_instructions_by_platform", instructions),
            ]),
        ),
        ("orb_quantity", match orbs {
            Some(n) => Json::from_i32(n),
            None => Json::Null,
        }),
    ])
}

fn all_assets(value: fn(&str) -> Json) -> Json {
    object(
        [
            "hero",
            "hero_video",
            "quest_bar_hero",
            "quest_bar_hero_video",
            "game_tile",
            "logotype",
            "game_tile_light",
            "game_tile_dark",
            "logotype_light",
            "logotype_dark",
        ]
        .iter()
        .map(|k| (*k, value(k)))
        .collect(),
    )
}

/// A quest with every optional member there, written as documents are rebuilt.
fn full_quest(id: &str, starts_at: &str, expires_at: &str) -> Json {
    object(vec![
        ("id", text(id)),
        (
            "config",
            object(vec![
                ("id", text(id)),
                ("config_version", Json::from_i32(2)),
                ("starts_at", text(starts_at)),
                ("expires_at", text(expires_at)),
                ("features", ints(&[3, 9])),
                (
                    "application",
                    object(vec![
                        ("id", text("app1")),
                        ("name", text("Game")),
                        ("link", text("https://game")),
                    ]),
                ),
                ("assets", all_assets(|k| Json::String(format!("{}.png", k)))),
                (
                    "colors",
                    object(vec![("primary", text("#111111")), ("secondary", text("#222222"))]),
                ),
                (
                    "messages",
                    object(vec![
                        ("quest_name", text("Quest")),
                        ("game_title", text("Title")),
                        ("game_publisher", text("Publisher")),
                    ]),
                ),
                (
                    "task_config_v2",
                    object(vec![
                        ("tasks", object(vec![task("WATCH_VIDEO", 900), task("PLAY_ON_DESKTOP", 15)])),
                        ("join_operator", text("and")),
                    ]),
                ),
                (
                    "rewards_config",
                    object(vec![
                        ("assignment_method", Json::from_i32(1)),
                        (
                            "rewards",
                            Json::Array(vec![
                                reward(
                                    4,
                                    Some("sku1"),
                                    Some(700),
                                    object(vec![("0", text("Open the shop"))]),
                                ),
                                reward(1, None, None, Json::Null),
                            ]),
                        ),
                        ("rewards_expire_at", text("2025-03-01T00:00:00Z")),
                        ("platforms", ints(&[0])),
                    ]),
                ),
                ("share_policy", text("shareable_everywhere")),
                (
                    "cta_config",
                    object(vec![("link", text("https://cta")), ("button_label", text("Go"))]),
                ),
            ]),
        ),
        ("user_status", Json::Null),
        ("targeted_content", Json::Array(vec![])),
        ("preview", Json::Bool(true)),
    ])
}

fn quest(id: &str) -> Json {
    full_quest(id, "2025-01-10T16:00:00Z", "2025-02-10T16:00:00Z")
}

fn catalog(quests: Vec<Json>) -> Json {
    object(vec![("quests", Json::Array(quests))])
}

fn typed(doc: &Json) -> DiscordQuest {
    DiscordQuest::from_json(doc).unwrap()
}

fn new_store() -> QuestStore {
    QuestStore::new(at("2025-02-01T00:00:00Z"))
}

fn rebuilt(doc: &Json) -> Json {
    let mut store = new_store();
    let quest = typed(doc);
    assert_eq!(save_single_quest(&mut store, &quest), Ok(()));
    reconstruct_single_quest(&get_complete_quest_by_id(&store, &quest.id).unwrap())
}

fn config() -> Config {
    Config {
        discord_token: "token".to_string(),
        database_url: "mysql://localhost/quests".to_string(),
        port: 3000,
        cache_duration_minutes: 30,
        quest_age_days: 30,
    }
}

fn ids(store: &QuestStore) -> Vec<String> {
    get_existing_quest_ids(store).unwrap()
}

#[test]
fn round_trip_with_every_optional_member_there() {
    let doc = quest("q1");
    assert_eq!(rebuilt(&doc), doc);
}

#[test]
fn round_trip_renders_user_status_null_and_targeted_content_empty() {
    let sent = with(
        &with(&quest("q1"), "user_status", object(vec![("enrolled_at", text("2025-01-11T00:00:00Z"))])),
        "targeted_content",
        ints(&[1, 2]),
    );
    let back = rebuilt(&sent);
    assert_eq!(back.get("user_status"), Some(&Json::Null));
    assert_eq!(back.get("targeted_content"), Some(&Json::Array(vec![])));
    assert_eq!(back, quest("q1"));
}

#[test]
fn round_trip_with_every_optional_member_absent() {
    let mut doc = quest("q1");
    doc = out_of_config(&doc, "features");
    doc = out_of_config(&doc, "task_config_v2");
    doc = out_of_config(&doc, "cta_config");
    doc = in_config(&doc, "assets", object(vec![]));
    doc = in_config(
        &doc,
        "rewards_config",
        object(vec![
            ("assignment_method", Json::from_i32(1)),
            (
                "rewards",
                Json::Array(vec![object(vec![
                    ("type", Json::from_i32(1)),
                    (
                        "messages",
                        object(vec![("name", text("Reward")), ("name_with_article", text("a Reward"))]),
                    ),
                ])]),
            ),
            ("platforms", ints(&[0])),
        ]),
    );
    let back = rebuilt(&doc);

    let mut expected = typed(&doc);
    expected.config.features = Some(vec![]);
    expected.config.task_config_v2 = Some(quest_catalog::provider::TaskConfigV2 {
        tasks: vec![],
        join_operator: "or".to_string(),
    });
    assert_eq!(typed(&back), expected);

    let back_config = back.get("config").unwrap();
    assert_eq!(back_config.get("assets"), Some(&all_assets(|_| Json::Null)));
    assert_eq!(back_config.get("features"), Some(&Json::Array(vec![])));
    assert_eq!(
        back_config.get("task_config_v2"),
        Some(&object(vec![("tasks", object(vec![])), ("join_operator", text("or"))]))
    );
    let rewards = back_config.get("rewards_config").unwrap();
    assert_eq!(rewards.get("rewards_expire_at"), Some(&Json::Null));
    assert_eq!(rewards.get("rewards"), Some(&Json::Array(vec![reward(1, None, None, Json::Null)])));
}

#[test]
fn round_trip_with_zero_tasks() {
    let doc = in_config(
        &quest("q1"),
        "task_config_v2",
        object(vec![("tasks", object(vec![])), ("join_operator", text("or"))]),
    );
    assert_eq!(rebuilt(&doc), doc);
}

#[test]
fn round_trip_with_zero_rewards() {
    let doc = in_config(
        &quest("q1"),
        "rewards_config",
        object(vec![
            ("assignment_method", Json::from_i32(2)),
            ("rewards", Json::Array(vec![])),
            ("rewards_expire_at", Json::Null),
            ("platforms", ints(&[0])),
        ]),
    );
    assert_eq!(rebuilt(&doc), doc);
}

#[test]
fn round_trip_with_zero_features() {
    let doc = in_config(&quest("q1"), "features", ints(&[]));
    assert_eq!(rebuilt(&doc), doc);
}

#[test]
fn timestamps_are_rebuilt_as_the_codec_writes_them() {
    let sent = full_quest("q1", "2025-01-10T18:00:00+02:00", "2025-02-10T16:00:00.250+00:00");
    let back = rebuilt(&sent);
    let back_config = back.get("config").unwrap();
    assert_eq!(back_config.get("starts_at"), Some(&text("2025-01-10T16:00:00Z")));
    assert_eq!(back_config.get("expires_at"), Some(&text("2025-02-10T16:00:00.250Z")));
}

#[test]
fn the_first_platform_is_stored_and_rebuilt_for_the_rewards() {
    let mut rewards = quest("q1").get("config").unwrap().get("rewards_config").unwrap().clone();
    rewards = with(&rewards, "platforms", ints(&[2, 3]));
    rewards = with(&rewards, "rewards", Json::Array(vec![reward(1, None, None, Json::Null)]));
    let doc = in_config(&quest("q1"), "rewards_config", rewards);

    let mut store = new_store();
    assert_eq!(save_discord_quests_to_db(&mut store, &catalog(vec![doc])), Ok(1));
    let stored = get_complete_quest_by_id(&store, "q1").unwrap();
    assert_eq!(stored.rewards.len(), 1);
    assert_eq!(stored.rewards[0].platform, 2);

    let back = reconstruct_single_quest(&stored);
    let platforms = back.get("config").unwrap().get("rewards_config").unwrap().get("platforms");
    assert_eq!(platforms, Some(&ints(&[2])));
}

#[test]
fn every_reward_of_a_quest_gets_the_same_platform() {
    let mut rewards = quest("q1").get("config").unwrap().get("rewards_config").unwrap().clone();
    rewards = with(&rewards, "platforms", ints(&[5, 1]));
    let doc = in_config(&quest("q1"), "rewards_config", rewards);
    let mut store = new_store();
    save_single_quest(&mut store, &typed(&doc)).unwrap();
    let stored = get_complete_quest_by_id(&store, "q1").unwrap();
    assert_eq!(stored.rewards.iter().map(|r| r.platform).collect::<Vec<i32>>(), vec![5, 5]);
}

#[test]
fn the_platform_is_zero_where_the_provider_names_none() {
    let mut rewards = quest("q1").get("config").unwrap().get("rewards_config").unwrap().clone();
    rewards = with(&rewards, "platforms", ints(&[]));
    let doc = in_config(&quest("q1"), "rewards_config", rewards);
    let mut store = new_store();
    save_single_quest(&mut store, &typed(&doc)).unwrap();
    let stored = get_complete_quest_by_id(&store, "q1").unwrap();
    assert_eq!(stored.rewards.iter().map(|r| r.platform).collect::<Vec<i32>>(), vec![0, 0]);
    let back = reconstruct_single_quest(&stored);
    let platforms = back.get("config").unwrap().get("rewards_config").unwrap().get("platforms");
    assert_eq!(platforms, Some(&ints(&[0])));
}

#[test]
fn a_quest_without_call_to_action_is_rebuilt_without_the_member() {
    let doc = out_of_config(&quest("q1"), "cta_config");
    let back = rebuilt(&doc);
    let back_config = back.get("config").unwrap();
    assert_eq!(back_config.get("cta_config"), None);
    match back_config {
        Json::Object(members) => assert!(members.iter().all(|(k, _)| k != "cta_config")),
        other => panic!("{:?}", other),
    }
    assert_eq!(back, doc);
}

#[test]
fn a_quest_with_call_to_action_is_rebuilt_with_link_and_label() {
    let back = rebuilt(&quest("q1"));
    assert_eq!(
        back.get("config").unwrap().get("cta_config"),
        Some(&object(vec![("link", text("https://cta")), ("button_label", text("Go"))]))
    );
}

#[test]
fn tasks_are_stored_with_target_and_payloads() {
    let mut store = new_store();
    let tasks = object(vec![
        ("A", object(vec![("target", Json::from_i32(7)), ("applications", ints(&[1]))])),
        ("B", object(vec![("target", text("7")), ("external_ids", object(vec![("x", Json::Null)]))])),
        ("C", Json::Null),
        ("D", object(vec![("target", Json::Number(quest_catalog::json::JsonNumber::PosInt(4_294_967_297)))])),
    ]);
    let doc = in_config(
        &quest("q1"),
        "task_config_v2",
        object(vec![("tasks", tasks), ("join_operator", text("or"))]),
    );
    save_single_quest(&mut store, &typed(&doc)).unwrap();
    let stored = get_complete_quest_by_id(&store, "q1").unwrap();
    assert_eq!(
        stored.tasks,
        vec![
            QuestTask {
                quest_id: "q1".to_string(),
                task_type: "A".to_string(),
                target: 7,
                applications: Some(ints(&[1])),
                external_ids: None,
            },
            QuestTask {
                quest_id: "q1".to_string(),
                task_type: "B".to_string(),
                target: 0,
                applications: None,
                external_ids: Some(object(vec![("x", Json::Null)])),
            },
            QuestTask {
                quest_id: "q1".to_string(),
                task_type: "C".to_string(),
                target: 0,
                applications: None,
                external_ids: None,
            },
            QuestTask {
                quest_id: "q1".to_string(),
                task_type: "D".to_string(),
                target: 1,
                applications: None,
                external_ids: None,
            },
        ]
    );
    assert_eq!(stored.quest.task_join_operator, "or");
}

#[test]
fn tasks_are_rebuilt_under_their_kind() {
    let back = rebuilt(&quest("q1"));
    let tasks = back.get("config").unwrap().get("task_config_v2").unwrap().get("tasks").unwrap();
    assert_eq!(tasks, &object(vec![task("WATCH_VIDEO", 900), task("PLAY_ON_DESKTOP", 15)]));
    let watch = tasks.get("WATCH_VIDEO").unwrap();
    assert_eq!(watch.get("type"), Some(&text("WATCH_VIDEO")));
    assert_eq!(watch.get("target"), Some(&Json::from_i32(900)));
}

#[test]
fn two_stored_tasks_of_one_kind_are_rebuilt_as_the_later_one() {
    let mut store = new_store();
    save_single_quest(&mut store, &typed(&quest("q1"))).unwrap();
    replace_quest_tasks(
        &mut store,
        "q1",
        &[
            ("A".to_string(), 1, None, None),
            ("B".to_string(), 2, None, None),
            ("A".to_string(), 3, None, None),
        ],
    )
    .unwrap();
    let back = reconstruct_single_quest(&get_complete_quest_by_id(&store, "q1").unwrap());
    let tasks = back.get("config").unwrap().get("task_config_v2").unwrap().get("tasks").unwrap();
    let rebuilt_task = |kind: &str, target: i32| {
        object(vec![
            ("type", text(kind)),
            ("target", Json::from_i32(target)),
            ("applications", Json::Null),
            ("external_ids", Json::Null),
        ])
    };
    assert_eq!(tasks, &object(vec![("A", rebuilt_task("A", 3)), ("B", rebuilt_task("B", 2))]));
}

#[test]
fn media_that_were_never_stored_are_rebuilt_as_null() {
    let mut store = new_store();
    save_single_quest(&mut store, &typed(&quest("q1"))).unwrap();
    let mut complete = get_complete_quest_by_id(&store, "q1").unwrap();
    complete.assets = None;
    let back = reconstruct_single_quest(&complete);
    assert_eq!(back.get("config").unwrap().get("assets"), Some(&all_assets(|_| Json::Null)));
}

#[test]
fn ingest_replaces_what_the_store_held_of_the_quest() {
    let mut store = new_store();
    save_single_quest(&mut store, &typed(&quest("q1"))).unwrap();
    upsert_quest_assets(&mut store, "q1", None, None, None, None, None, None, None, None, None, None)
        .unwrap();
    let mut second = out_of_config(&quest("q1"), "task_config_v2");
    second = out_of_config(&second, "features");
    save_single_quest(&mut store, &typed(&second)).unwrap();
    let stored = get_complete_quest_by_id(&store, "q1").unwrap();
    assert_eq!(stored.tasks, vec![]);
    assert_eq!(stored.features, Vec::<QuestFeature>::new());
    assert_eq!(stored.rewards.len(), 2);
    assert_eq!(stored.assets.unwrap().hero, Some("hero.png".to_string()));
    assert_eq!(stored.quest.task_join_operator, "or");
    assert_eq!(ids(&store), vec!["q1".to_string()]);
}

#[test]
fn a_quest_with_an_unreadable_timestamp_is_not_ingested() {
    for key in ["starts_at", "expires_at"] {
        let mut store = new_store();
        let doc = in_config(&quest("q1"), key, text("soon"));
        match save_single_quest(&mut store, &typed(&doc)) {
            Err(ApiError::InternalError(message)) => {
                assert!(message.starts_with("Failed to parse timestamp: "))
            }
            other => panic!("{:?}", other),
        }
        assert_eq!(ids(&store), Vec::<String>::new());
    }
    let mut store = new_store();
    let mut rewards = quest("q1").get("config").unwrap().get("rewards_config").unwrap().clone();
    rewards = with(&rewards, "rewards_expire_at", text("never"));
    let doc = in_config(&quest("q1"), "rewards_config", rewards);
    assert!(save_single_quest(&mut store, &typed(&doc)).is_err());
    assert_eq!(ids(&store), Vec::<String>::new());
}

#[test]
fn only_unknown_quests_are_ingested() {
    let mut store = new_store();
    assert_eq!(
        save_discord_quests_to_db(&mut store, &catalog(vec![quest("k1"), quest("k2")])),
        Ok(2)
    );
    let before_k1 = get_complete_quest_by_id(&store, "k1").unwrap();

    store.set_clock(at("2025-02-01T01:00:00Z"));
    let mut changed_k1 = quest("k1");
    changed_k1 = in_config(&changed_k1, "share_policy", text("changed_upstream"));
    changed_k1 = in_config(&changed_k1, "features", ints(&[1]));
    let fetched = catalog(vec![quest("n1"), changed_k1, quest("n2"), quest("k2"), quest("n3")]);
    assert_eq!(save_discord_quests_to_db(&mut store, &fetched), Ok(3));
    assert_eq!(ids(&store), vec!["k1", "k2", "n1", "n2", "n3"]);
    assert_eq!(get_complete_quest_by_id(&store, "k1").unwrap(), before_k1);
    assert_eq!(
        get_complete_quest_by_id(&store, "n1").unwrap().quest.created_at,
        at("2025-02-01T01:00:00Z")
    );
}

#[test]
fn a_catalog_of_known_quests_ingests_nothing() {
    let mut store = new_store();
    let fetched = catalog(vec![quest("q1"), quest("q2")]);
    assert_eq!(save_discord_quests_to_db(&mut store, &fetched), Ok(2));
    assert_eq!(save_discord_quests_to_db(&mut store, &fetched), Ok(0));
    assert_eq!(save_discord_quests_to_db(&mut store, &catalog(vec![])), Ok(0));
    assert_eq!(ids(&store), vec!["q1", "q2"]);
}

#[test]
fn an_unreadable_catalog_ingests_nothing() {
    let mut store = new_store();
    let broken = without(&quest("q2"), "preview");
    assert_eq!(
        save_discord_quests_to_db(&mut store, &catalog(vec![quest("q1"), broken])),
        Err(ApiError::InternalError(
            "Failed to parse Discord response: the document does not have the expected shape"
                .to_string()
        ))
    );
    assert_eq!(ids(&store), Vec::<String>::new());
}

#[test]
fn the_first_quest_that_cannot_be_ingested_stops_the_run() {
    let mut store = new_store();
    let bad = in_config(&quest("q2"), "starts_at", text("soon"));
    let fetched = catalog(vec![quest("q1"), bad, quest("q3")]);
    match save_discord_quests_to_db(&mut store, &fetched) {
        Err(ApiError::InternalError(message)) => {
            assert!(message.starts_with("Failed to parse timestamp: "))
        }
        other => panic!("{:?}", other),
    }
    assert_eq!(ids(&store), vec!["q1"]);
}

#[test]
fn the_catalog_is_rebuilt_from_the_recent_quests_latest_start_first() {
    let mut store = new_store();
    let fetched = catalog(vec![
        full_quest("old", "2024-11-01T00:00:00Z", "2024-12-01T00:00:00Z"),
        full_quest("first", "2025-01-01T00:00:00Z", "2025-03-01T00:00:00Z"),
        full_quest("second", "2025-01-15T00:00:00Z", "2025-03-01T00:00:00Z"),
    ]);
    assert_eq!(save_discord_quests_to_db(&mut store, &fetched), Ok(3));
    assert_eq!(
        reconstruct_discord_response(&store, 30),
        Ok(catalog(vec![
            full_quest("second", "2025-01-15T00:00:00Z", "2025-03-01T00:00:00Z"),
            full_quest("first", "2025-01-01T00:00:00Z", "2025-03-01T00:00:00Z"),
        ]))
    );
    assert_eq!(reconstruct_discord_response(&new_store(), 30), Ok(catalog(vec![])));
}

#[test]
fn a_second_sync_with_the_same_catalog_changes_nothing() {
    let mut store = new_store();
    let fetched = catalog(vec![quest("q1"), quest("q2")]);
    let first = refresh_quests(&mut store, &config(), Ok(fetched.clone())).unwrap();
    let ids_after_first = ids(&store);
    let cache_after_first = get_cache(&store, "discord_quests").unwrap();
    let q1_after_first = get_complete_quest_by_id(&store, "q1").unwrap();

    assert_eq!(save_discord_quests_to_db(&mut store, &fetched), Ok(0));
    let second = refresh_quests(&mut store, &config(), Ok(fetched)).unwrap();
    assert_eq!(second, first);
    assert_eq!(ids(&store), ids_after_first);
    assert_eq!(get_cache(&store, "discord_quests").unwrap(), cache_after_first);
    assert_eq!(get_complete_quest_by_id(&store, "q1").unwrap(), q1_after_first);
    assert_eq!(first, catalog(vec![quest("q1"), quest("q2")]));
}

#[test]
fn a_sync_caches_the_rebuilt_catalog() {
    let mut store = new_store();
    assert_eq!(get_quests(&store, &config()), Ok(QuestsStep::Refresh));
    let rebuilt = refresh_quests(&mut store, &config(), Ok(catalog(vec![quest("q1")]))).unwrap();
    let cached = get_cache(&store, "discord_quests").unwrap().unwrap();
    assert_eq!(cached.data, rebuilt);
    assert_eq!(cached.updated_at, at("2025-02-01T00:00:00Z"));
    assert_eq!(get_quests(&store, &config()), Ok(QuestsStep::Serve(rebuilt)));
}

#[test]
fn a_failed_fetch_is_passed_on_and_changes_nothing() {
    let mut store = new_store();
    let failure = || ApiError::DiscordApiError("Discord API returned 401: no".to_string());
    assert_eq!(refresh_quests(&mut store, &config(), Err(failure())), Err(failure()));
    assert_eq!(fetch_and_cache_quests(&mut store, &config(), Err(failure())), Err(failure()));
    assert_eq!(ids(&store), Vec::<String>::new());
    assert_eq!(get_cache(&store, "discord_quests"), Ok(None));
}

#[test]
fn a_failed_sync_leaves_the_cache_as_it_was() {
    let mut store = new_store();
    refresh_quests(&mut store, &config(), Ok(catalog(vec![quest("q1")]))).unwrap();
    let cached = get_cache(&store, "discord_quests").unwrap();
    assert!(refresh_quests(&mut store, &config(), Ok(Json::Null)).is_err());
    let bad = in_config(&quest("q9"), "expires_at", text("soon"));
    assert!(fetch_and_cache_quests(&mut store, &config(), Ok(catalog(vec![bad]))).is_err());
    assert_eq!(get_cache(&store, "discord_quests").unwrap(), cached);
}

#[test]
fn the_startup_sync_caches_without_returning() {
    let mut store = new_store();
    assert_eq!(fetch_and_cache_quests(&mut store, &config(), Ok(catalog(vec![quest("q1")]))), Ok(()));
    assert_eq!(
        get_cache(&store, "discord_quests").unwrap().unwrap().data,
        catalog(vec![quest("q1")])
    );
}

#[test]
fn the_cached_catalog_is_served_until_the_duration_has_passed() {
    let mut store = new_store();
    let rebuilt = refresh_quests(&mut store, &config(), Ok(catalog(vec![quest("q1")]))).unwrap();
    store.set_clock(at("2025-02-01T00:29:59.999Z"));
    assert_eq!(get_quests(&store, &config()), Ok(QuestsStep::Serve(rebuilt.clone())));
    store.set_clock(at("2025-02-01T00:29:59.999999999Z"));
    assert_eq!(get_quests(&store, &config()), Ok(QuestsStep::Serve(rebuilt)));
    store.set_clock(at("2025-02-01T00:30:00Z"));
    assert_eq!(get_quests(&store, &config()), Ok(QuestsStep::Refresh));
    store.set_clock(at("2025-02-02T00:00:00Z"));
    assert_eq!(get_quests(&store, &config()), Ok(QuestsStep::Refresh));
}

#[test]
fn a_cache_duration_of_zero_never_serves() {
    let mut store = new_store();
    let mut never = config();
    never.cache_duration_minutes = 0;
    refresh_quests(&mut store, &never, Ok(catalog(vec![quest("q1")]))).unwrap();
    assert_eq!(get_quests(&store, &never), Ok(QuestsStep::Refresh));
}

#[test]
fn staleness_begins_exactly_at_the_threshold() {
    let written = Timestamp::from_parts(1_700_000_000, 0).unwrap();
    let threshold: i128 = 1_800_000;
    let just_before = Timestamp::from_parts(1_700_001_799, 999_000_000).unwrap();
    let exactly = Timestamp::from_parts(1_700_001_800, 0).unwrap();
    assert!(!is_stale_at(just_before, written, threshold));
    assert!(is_stale_at(exactly, written, threshold));
    assert!(!is_stale_at(written, written, 1));
    assert!(is_stale_at(written, written, 0));
    assert!(is_stale_at(written, exactly, -1_800_000));
    assert!(!is_stale_at(written, exactly, -1_799_999));
}

#[test]
fn elapsed_time_counts_whole_milliseconds_towards_zero() {
    let then = Timestamp::from_parts(100, 0).unwrap();
    let a_bit_later = Timestamp::from_parts(100, 1_999_999).unwrap();
    assert!(is_stale_at(a_bit_later, then, 1));
    assert!(!is_stale_at(a_bit_later, then, 2));
    assert!(is_stale_at(then, a_bit_later, -1));
    assert!(!is_stale_at(then, a_bit_later, 0));
}

#[test]
fn staleness_by_the_system_clock() {
    let long_ago = at("2001-01-01T00:00:00Z");
    assert!(is_cache_stale(long_ago, 1_800_000));
    assert!(!is_cache_stale(Timestamp::now(), 3_600_000));
    assert!(is_cache_stale(Timestamp::now(), i64::MIN));
    assert!(!is_cache_stale(long_ago, i64::MAX));
}

#[test]
fn no_media_and_media_that_are_all_missing_are_rebuilt_alike() {
    let mut store = new_store();
    let doc = in_config(&quest("q1"), "assets", object(vec![]));
    save_single_quest(&mut store, &typed(&doc)).unwrap();
    let with_empty_row = get_complete_quest_by_id(&store, "q1").unwrap();
    assert!(with_empty_row.assets.is_some());
    let mut without_row = get_complete_quest_by_id(&store, "q1").unwrap();
    without_row.assets = None;
    assert_eq!(reconstruct_single_quest(&with_empty_row), reconstruct_single_quest(&without_row));
}

use quest_catalog::error::ApiError;
use quest_catalog::json::Json;
use quest_catalog::models::{
    CacheStore, CompleteQuest, Quest, QuestAssets, QuestFeature, QuestReward, QuestTask,
};
use quest_catalog::store::{
    get_cache, get_complete_quest_by_id, get_existing_quest_ids, get_quest_ids_not_among,
    get_recent_complete_quests,
    replace_quest_features, replace_quest_rewards, replace_quest_tasks, upsert_cache,
    upsert_quest, upsert_quest_assets, QuestStore,
};
use quest_catalog::time::{parse_timestamp, Timestamp};

fn at(text: &str) -> Timestamp {
    parse_timestamp(text).unwrap()
}

fn quest(id: &str, starts_at: &str, expires_at: &str) -> Quest {
    Quest {
        id: id.to_string(),
        config_version: 2,
        starts_at: at(starts_at),
        expires_at: at(expires_at),
        application_id: "app".to_string(),
        application_name: "Game".to_string(),
        application_link: "https://g".to_string(),
        share_policy: "everywhere".to_string(),
        preview: false,
        primary_color: Some("#111111".to_string()),
        secondary_color: Some("#222222".to_string()),
        quest_name: format!("Quest {}", id),
        game_title: "Title".to_string(),
        game_publisher: "Publisher".to_string(),
        cta_link: None,
        cta_button_label: None,
        task_join_operator: "or".to_string(),
        reward_assignment_method: 1,
        rewards_expire_at: None,
        created_at: at("1999-01-01T00:00:00Z"),
        updated_at: at("1999-01-01T00:00:00Z"),
    }
}

fn unknown_quest() -> ApiError {
    ApiError::DatabaseError(
        "Cannot add or update a child row: the quest is not stored".to_string(),
    )
}

fn task(kind: &str, target: i32) -> (String, i32, Option<Json>, Option<Json>) {
    (kind.to_string(), target, None, Some(Json::Array(vec![Json::from_i32(target)])))
}

fn task_row(id: &str, kind: &str, target: i32) -> QuestTask {
    QuestTask {
        quest_id: id.to_string(),
        task_type: kind.to_string(),
        target,
        applications: None,
        external_ids: Some(Json::Array(vec![Json::from_i32(target)])),
    }
}

fn ids(store: &QuestStore) -> Vec<String> {
    get_existing_quest_ids(store).unwrap()
}

#[test]
fn a_new_store_holds_nothing() {
    let store = QuestStore::new(at("2025-02-01T00:00:00Z"));
    assert_eq!(ids(&store), Vec::<String>::new());
    assert_eq!(get_recent_complete_quests(&store, 30), Ok(vec![]));
    assert_eq!(get_cache(&store, "discord_quests"), Ok(None));
    assert_eq!(store.clock(), at("2025-02-01T00:00:00Z"));
}

#[test]
fn upsert_inserts_then_updates_by_identifier() {
    let mut store = QuestStore::new(at("2025-02-01T00:00:00Z"));
    assert_eq!(upsert_quest(&mut store, &quest("q1", "2025-01-01T00:00:00Z", "2025-03-01T00:00:00Z")), Ok(()));
    assert_eq!(upsert_quest(&mut store, &quest("q2", "2025-01-02T00:00:00Z", "2025-03-01T00:00:00Z")), Ok(()));
    assert_eq!(ids(&store), vec!["q1".to_string(), "q2".to_string()]);

    store.set_clock(at("2025-02-02T00:00:00Z"));
    let mut changed = quest("q1", "2025-01-05T00:00:00Z", "2025-04-01T00:00:00Z");
    changed.quest_name = "Renamed".to_string();
    changed.preview = true;
    assert_eq!(upsert_quest(&mut store, &changed), Ok(()));
    assert_eq!(ids(&store), vec!["q1".to_string(), "q2".to_string()]);

    let stored = get_complete_quest_by_id(&store, "q1").unwrap().quest;
    assert_eq!(stored.quest_name, "Renamed");
    assert!(stored.preview);
    assert_eq!(stored.starts_at, at("2025-01-05T00:00:00Z"));
    assert_eq!(stored.expires_at, at("2025-04-01T00:00:00Z"));
    assert_eq!(stored.created_at, at("2025-02-01T00:00:00Z"));
    assert_eq!(stored.updated_at, at("2025-02-02T00:00:00Z"));
}

#[test]
fn a_new_quest_is_written_at_the_clock_reading() {
    let mut store = QuestStore::new(at("2025-02-01T00:00:00Z"));
    upsert_quest(&mut store, &quest("q1", "2025-01-01T00:00:00Z", "2025-03-01T00:00:00Z")).unwrap();
    let stored = get_complete_quest_by_id(&store, "q1").unwrap();
    assert_eq!(stored.quest.created_at, at("2025-02-01T00:00:00Z"));
    assert_eq!(stored.quest.updated_at, at("2025-02-01T00:00:00Z"));
    assert_eq!(stored.assets, None);
    assert_eq!(stored.tasks, vec![]);
    assert_eq!(stored.rewards, vec![]);
    assert_eq!(stored.features, vec![]);
    assert_eq!(stored.user_statuses, vec![]);
}

#[test]
fn a_quest_that_is_not_stored_is_not_found() {
    let store = QuestStore::new(at("2025-02-01T00:00:00Z"));
    assert_eq!(
        get_complete_quest_by_id(&store, "q1"),
        Err(ApiError::NotFound("no quest is stored under the identifier q1".to_string()))
    );
}

#[test]
fn not_found_is_told_apart_from_a_storage_failure() {
    let mut store = QuestStore::new(at("2025-02-01T00:00:00Z"));
    upsert_quest(&mut store, &quest("q1", "2025-01-01T00:00:00Z", "2025-03-01T00:00:00Z")).unwrap();
    let missing = get_complete_quest_by_id(&store, "q2").unwrap_err();
    assert!(matches!(missing, ApiError::NotFound(_)));
    assert_eq!(missing.status_code(), 404);
    let refused = replace_quest_features(&mut store, "q2", &[1]).unwrap_err();
    assert!(matches!(refused, ApiError::DatabaseError(_)));
    assert_eq!(refused.status_code(), 500);
}

#[test]
fn the_identifiers_that_a_run_added_are_those_not_known_before() {
    let mut store = QuestStore::new(at("2025-02-01T00:00:00Z"));
    upsert_quest(&mut store, &quest("a", "2025-01-01T00:00:00Z", "2025-03-01T00:00:00Z")).unwrap();
    upsert_quest(&mut store, &quest("b", "2025-01-01T00:00:00Z", "2025-03-01T00:00:00Z")).unwrap();
    let known = get_existing_quest_ids(&store).unwrap();
    assert_eq!(get_quest_ids_not_among(&store, &known), Vec::<String>::new());
    upsert_quest(&mut store, &quest("c", "2025-01-01T00:00:00Z", "2025-03-01T00:00:00Z")).unwrap();
    upsert_quest(&mut store, &quest("a", "2025-01-02T00:00:00Z", "2025-03-01T00:00:00Z")).unwrap();
    upsert_quest(&mut store, &quest("d", "2025-01-01T00:00:00Z", "2025-03-01T00:00:00Z")).unwrap();
    assert_eq!(get_quest_ids_not_among(&store, &known), vec!["c".to_string(), "d".to_string()]);
    assert_eq!(
        get_quest_ids_not_among(&store, &Vec::new()),
        vec!["a".to_string(), "b".to_string(), "c".to_string(), "d".to_string()]
    );
}

#[test]
fn media_are_one_row_for_each_quest() {
    let mut store = QuestStore::new(at("2025-02-01T00:00:00Z"));
    upsert_quest(&mut store, &quest("q1", "2025-01-01T00:00:00Z", "2025-03-01T00:00:00Z")).unwrap();
    assert_eq!(
        upsert_quest_assets(
            &mut store, "q1", Some("hero"), None, None, None, None, None, None, None, None, None
        ),
        Ok(())
    );
    assert_eq!(
        upsert_quest_assets(
            &mut store, "q1", None, Some("video"), None, None, Some("tile"), None, None, None,
            None, Some("dark")
        ),
        Ok(())
    );
    assert_eq!(
        get_complete_quest_by_id(&store, "q1").unwrap().assets,
        Some(QuestAssets {
            quest_id: "q1".to_string(),
            hero: None,
            hero_video: Some("video".to_string()),
            quest_bar_hero: None,
            quest_bar_hero_video: None,
            game_tile: Some("tile".to_string()),
            logotype: None,
            game_tile_light: None,
            game_tile_dark: None,
            logotype_light: None,
            logotype_dark: Some("dark".to_string()),
        })
    );
}

#[test]
fn media_with_all_fields_missing_are_not_the_same_as_no_media() {
    let mut store = QuestStore::new(at("2025-02-01T00:00:00Z"));
    upsert_quest(&mut store, &quest("q1", "2025-01-01T00:00:00Z", "2025-03-01T00:00:00Z")).unwrap();
    assert_eq!(get_complete_quest_by_id(&store, "q1").unwrap().assets, None);
    upsert_quest_assets(&mut store, "q1", None, None, None, None, None, None, None, None, None, None)
        .unwrap();
    assert!(get_complete_quest_by_id(&store, "q1").unwrap().assets.is_some());
}

#[test]
fn rows_cannot_be_written_for_a_quest_that_is_not_stored() {
    let mut store = QuestStore::new(at("2025-02-01T00:00:00Z"));
    upsert_quest(&mut store, &quest("q1", "2025-01-01T00:00:00Z", "2025-03-01T00:00:00Z")).unwrap();
    assert_eq!(
        upsert_quest_assets(
            &mut store, "nope", Some("hero"), None, None, None, None, None, None, None, None,
            None
        ),
        Err(unknown_quest())
    );
    assert_eq!(replace_quest_tasks(&mut store, "nope", &[task("A", 1)]), Err(unknown_quest()));
    assert_eq!(
        replace_quest_rewards(
            &mut store,
            "nope",
            &[(1, None, "n".to_string(), "a n".to_string(), None, None, 0)]
        ),
        Err(unknown_quest())
    );
    assert_eq!(replace_quest_features(&mut store, "nope", &[1]), Err(unknown_quest()));
    assert_eq!(ids(&store), vec!["q1".to_string()]);
    let stored = get_complete_quest_by_id(&store, "q1").unwrap();
    assert_eq!(stored.tasks, vec![]);
    assert_eq!(stored.assets, None);
}

#[test]
fn replacing_by_nothing_is_accepted_for_any_quest() {
    let mut store = QuestStore::new(at("2025-02-01T00:00:00Z"));
    assert_eq!(replace_quest_tasks(&mut store, "nope", &[]), Ok(()));
    assert_eq!(replace_quest_rewards(&mut store, "nope", &[]), Ok(()));
    assert_eq!(replace_quest_features(&mut store, "nope", &[]), Ok(()));
}

#[test]
fn replace_leaves_exactly_the_given_tasks() {
    let mut store = QuestStore::new(at("2025-02-01T00:00:00Z"));
    upsert_quest(&mut store, &quest("q1", "2025-01-01T00:00:00Z", "2025-03-01T00:00:00Z")).unwrap();
    upsert_quest(&mut store, &quest("q2", "2025-01-01T00:00:00Z", "2025-03-01T00:00:00Z")).unwrap();
    replace_quest_tasks(&mut store, "q1", &[task("A", 1), task("B", 2)]).unwrap();
    replace_quest_tasks(&mut store, "q2", &[task("C", 3)]).unwrap();
    replace_quest_tasks(&mut store, "q1", &[task("D", 4)]).unwrap();
    assert_eq!(get_complete_quest_by_id(&store, "q1").unwrap().tasks, vec![task_row("q1", "D", 4)]);
    assert_eq!(get_complete_quest_by_id(&store, "q2").unwrap().tasks, vec![task_row("q2", "C", 3)]);
    replace_quest_tasks(&mut store, "q1", &[]).unwrap();
    assert_eq!(get_complete_quest_by_id(&store, "q1").unwrap().tasks, vec![]);
    assert_eq!(get_complete_quest_by_id(&store, "q2").unwrap().tasks, vec![task_row("q2", "C", 3)]);
}

#[test]
fn replace_leaves_exactly_the_given_rewards_and_features() {
    let mut store = QuestStore::new(at("2025-02-01T00:00:00Z"));
    upsert_quest(&mut store, &quest("q1", "2025-01-01T00:00:00Z", "2025-03-01T00:00:00Z")).unwrap();
    let instructions = Json::Object(vec![("0".to_string(), Json::String("shop".to_string()))]);
    replace_quest_rewards(
        &mut store,
        "q1",
        &[
            (1, Some("sku".to_string()), "n".to_string(), "a n".to_string(), None, None, 2),
            (4, None, "Orbs".to_string(), "some Orbs".to_string(), Some(700), Some(instructions.clone()), 2),
        ],
    )
    .unwrap();
    replace_quest_features(&mut store, "q1", &[9, 3, 9]).unwrap();
    let stored = get_complete_quest_by_id(&store, "q1").unwrap();
    assert_eq!(
        stored.rewards,
        vec![
            QuestReward {
                quest_id: "q1".to_string(),
                reward_type: 1,
                sku_id: Some("sku".to_string()),
                reward_name: "n".to_string(),
                reward_name_with_article: "a n".to_string(),
                orb_quantity: None,
                redemption_instructions: None,
                platform: 2,
            },
            QuestReward {
                quest_id: "q1".to_string(),
                reward_type: 4,
                sku_id: None,
                reward_name: "Orbs".to_string(),
                reward_name_with_article: "some Orbs".to_string(),
                orb_quantity: Some(700),
                redemption_instructions: Some(instructions),
                platform: 2,
            },
        ]
    );
    assert_eq!(
        stored.features,
        vec![
            QuestFeature { quest_id: "q1".to_string(), feature_id: 9 },
            QuestFeature { quest_id: "q1".to_string(), feature_id: 3 },
            QuestFeature { quest_id: "q1".to_string(), feature_id: 9 },
        ]
    );
    replace_quest_rewards(&mut store, "q1", &[]).unwrap();
    replace_quest_features(&mut store, "q1", &[1]).unwrap();
    let stored = get_complete_quest_by_id(&store, "q1").unwrap();
    assert_eq!(stored.rewards, vec![]);
    assert_eq!(stored.features, vec![QuestFeature { quest_id: "q1".to_string(), feature_id: 1 }]);
}

#[test]
fn recent_quests_include_the_boundary_and_exclude_what_is_older() {
    let mut store = QuestStore::new(at("2025-02-01T00:00:00Z"));
    upsert_quest(&mut store, &quest("at", "2024-12-01T00:00:00Z", "2025-01-02T00:00:00Z")).unwrap();
    upsert_quest(&mut store, &quest("older", "2024-12-02T00:00:00Z", "2025-01-01T23:59:59.999999999Z"))
        .unwrap();
    upsert_quest(&mut store, &quest("newer", "2024-12-03T00:00:00Z", "2025-01-02T00:00:00.000000001Z"))
        .unwrap();
    upsert_quest(&mut store, &quest("running", "2024-12-04T00:00:00Z", "2025-06-01T00:00:00Z"))
        .unwrap();
    let listed: Vec<String> = get_recent_complete_quests(&store, 30)
        .unwrap()
        .into_iter()
        .map(|c| c.quest.id)
        .collect();
    assert_eq!(listed, vec!["running".to_string(), "newer".to_string(), "at".to_string()]);
}

#[test]
fn recent_quests_with_age_zero_are_those_that_have_not_ended() {
    let mut store = QuestStore::new(at("2025-02-01T00:00:00Z"));
    upsert_quest(&mut store, &quest("ended", "2025-01-01T00:00:00Z", "2025-01-31T23:59:59Z")).unwrap();
    upsert_quest(&mut store, &quest("ending", "2025-01-01T00:00:00Z", "2025-02-01T00:00:00Z")).unwrap();
    let listed: Vec<String> = get_recent_complete_quests(&store, 0)
        .unwrap()
        .into_iter()
        .map(|c| c.quest.id)
        .collect();
    assert_eq!(listed, vec!["ending".to_string()]);
    let listed = get_recent_complete_quests(&store, -1).unwrap();
    assert_eq!(listed, vec![]);
    let listed = get_recent_complete_quests(&store, i64::MAX).unwrap();
    assert_eq!(listed.len(), 2);
    let listed = get_recent_complete_quests(&store, i64::MIN).unwrap();
    assert_eq!(listed.len(), 0);
}

#[test]
fn recent_quests_come_latest_start_first_and_ties_keep_their_order() {
    let mut store = QuestStore::new(at("2025-02-01T00:00:00Z"));
    upsert_quest(&mut store, &quest("b", "2025-01-02T00:00:00Z", "2025-03-01T00:00:00Z")).unwrap();
    upsert_quest(&mut store, &quest("d", "2025-01-04T00:00:00Z", "2025-03-01T00:00:00Z")).unwrap();
    upsert_quest(&mut store, &quest("a", "2025-01-01T00:00:00Z", "2025-03-01T00:00:00Z")).unwrap();
    upsert_quest(&mut store, &quest("b2", "2025-01-02T00:00:00Z", "2025-03-01T00:00:00Z")).unwrap();
    upsert_quest(&mut store, &quest("c", "2025-01-03T00:00:00Z", "2025-03-01T00:00:00Z")).unwrap();
    let listed: Vec<String> = get_recent_complete_quests(&store, 30)
        .unwrap()
        .into_iter()
        .map(|c| c.quest.id)
        .collect();
    assert_eq!(listed, vec!["d", "c", "b", "b2", "a"]);
}

#[test]
fn recent_quests_come_with_all_that_belongs_to_them() {
    let mut store = QuestStore::new(at("2025-02-01T00:00:00Z"));
    upsert_quest(&mut store, &quest("q1", "2025-01-01T00:00:00Z", "2025-03-01T00:00:00Z")).unwrap();
    upsert_quest(&mut store, &quest("q2", "2025-01-02T00:00:00Z", "2025-03-01T00:00:00Z")).unwrap();
    replace_quest_tasks(&mut store, "q1", &[task("A", 1)]).unwrap();
    replace_quest_features(&mut store, "q2", &[5]).unwrap();
    let listed: Vec<CompleteQuest> = get_recent_complete_quests(&store, 30).unwrap();
    assert_eq!(
        listed,
        vec![
            get_complete_quest_by_id(&store, "q2").unwrap(),
            get_complete_quest_by_id(&store, "q1").unwrap(),
        ]
    );
    assert_eq!(listed[1].tasks, vec![task_row("q1", "A", 1)]);
    assert_eq!(listed[0].features, vec![QuestFeature { quest_id: "q2".to_string(), feature_id: 5 }]);
}

#[test]
fn the_cache_holds_one_document_for_each_key() {
    let mut store = QuestStore::new(at("2025-02-01T00:00:00Z"));
    let first = Json::Object(vec![("quests".to_string(), Json::Array(vec![]))]);
    assert_eq!(upsert_cache(&mut store, "discord_quests", &first), Ok(()));
    assert_eq!(
        get_cache(&store, "discord_quests"),
        Ok(Some(CacheStore {
            id: "discord_quests".to_string(),
            data: first,
            updated_at: at("2025-02-01T00:00:00Z"),
        }))
    );
    assert_eq!(get_cache(&store, "other"), Ok(None));

    store.set_clock(at("2025-02-01T00:30:00Z"));
    let second = Json::Object(vec![("quests".to_string(), Json::Array(vec![Json::Null]))]);
    upsert_cache(&mut store, "discord_quests", &second).unwrap();
    upsert_cache(&mut store, "other", &Json::Null).unwrap();
    assert_eq!(
        get_cache(&store, "discord_quests"),
        Ok(Some(CacheStore {
            id: "discord_quests".to_string(),
            data: second,
            updated_at: at("2025-02-01T00:30:00Z"),
        }))
    );
    assert_eq!(get_cache(&store, "other").unwrap().unwrap().data, Json::Null);
}

//! The ingest mapper.
//!
//! One quest as the provider sends it becomes one quest row, one row of media,
//! one task row for each task, one reward row for each reward and one feature
//! row for each feature flag. The rows of a quest are written together or not
//! at all: the timestamps are read first, and a quest whose timestamps cannot
//! be read leaves the store as it was.

use crate::error::ApiError;
use crate::fields::{clone_members, opt_list, opt_view};
use crate::json::{Json, JsonView, entries_view, lemma_entries_view, opt_json_view};
use crate::models::{
    Quest, QuestAssetsView, QuestFeatureView, QuestRewardView, QuestTaskView, QuestView,
};
use crate::provider::{
    AssetsView, DiscordQuest, DiscordQuestResponseView, DiscordQuestView, QuestConfigView,
    RewardView, RewardsConfig, RewardsConfigView, TaskConfigV2, TaskConfigV2View,
    parse_discord_response, unreadable_catalog_message,
};
use crate::store::{
    QuestStore, StoreView, feature_rows, get_existing_quest_ids, has_id, lemma_replaced,
    lemma_replace_wf, lemma_with_assets, lemma_with_assets_wf, lemma_with_quest,
    lemma_with_quest_row, replace_quest_features,
    replace_quest_rewards, replace_quest_tasks, reward_row, reward_rows, task_row, task_rows,
    upsert_quest, upsert_quest_assets,
};
use crate::text::{clone_opt_string, contains_text, opt_as_str, texts, views};
use crate::time::{Timestamp, parse_timestamp, timestamp_failure_prefix};
use vstd::prelude::*;

verus! {

/// The three timestamps of a quest: its start, its end, and the end of its
/// rewards where they have one.
pub ghost struct QuestTimes {
    pub starts_at: Timestamp,
    pub expires_at: Timestamp,
    pub rewards_expire_at: Option<Timestamp>,
}

/// The timestamps that the configuration gives, if each can be read.
pub open spec fn times_of(config: QuestConfigView) -> Option<QuestTimes> {
    match (Timestamp::parsed(config.starts_at), Timestamp::parsed(config.expires_at)) {
        (Some(starts_at), Some(expires_at)) => match config.rewards_config.rewards_expire_at {
            None => Some(QuestTimes { starts_at, expires_at, rewards_expire_at: None }),
            Some(text) => match Timestamp::parsed(text) {
                Some(t) => Some(QuestTimes { starts_at, expires_at, rewards_expire_at: Some(t) }),
                None => None,
            },
        },
        _ => None,
    }
}

/// Whether the quest can be ingested: whether each of its timestamps can be
/// read.
pub open spec fn ingestible(quest: DiscordQuestView) -> bool {
    times_of(quest.config) is Some
}

/// How the tasks combine where the provider does not say.
pub open spec fn default_join_operator() -> Seq<char> {
    "or"@
}

/// The quest row of a quest that the provider sent.
pub open spec fn quest_of(quest: DiscordQuestView, times: QuestTimes, now: Timestamp) -> QuestView {
    let config = quest.config;
    QuestView {
        id: quest.id,
        config_version: config.config_version,
        starts_at: times.starts_at,
        expires_at: times.expires_at,
        application_id: config.application.id,
        application_name: config.application.name,
        application_link: config.application.link,
        share_policy: config.share_policy,
        preview: quest.preview,
        primary_color: Some(config.colors.primary),
        secondary_color: Some(config.colors.secondary),
        quest_name: config.messages.quest_name,
        game_title: config.messages.game_title,
        game_publisher: config.messages.game_publisher,
        cta_link: match config.cta_config {
            Some(cta) => Some(cta.link),
            None => None,
        },
        cta_button_label: match config.cta_config {
            Some(cta) => Some(cta.button_label),
            None => None,
        },
        task_join_operator: match config.task_config_v2 {
            Some(tasks) => tasks.join_operator,
            None => default_join_operator(),
        },
        reward_assignment_method: config.rewards_config.assignment_method,
        rewards_expire_at: times.rewards_expire_at,
        created_at: now,
        updated_at: now,
    }
}

/// The media row of a quest that the provider sent.
pub open spec fn assets_of(id: Seq<char>, assets: AssetsView) -> QuestAssetsView {
    QuestAssetsView {
        quest_id: id,
        hero: assets.hero,
        hero_video: assets.hero_video,
        quest_bar_hero: assets.quest_bar_hero,
        quest_bar_hero_video: assets.quest_bar_hero_video,
        game_tile: assets.game_tile,
        logotype: assets.logotype,
        game_tile_light: assets.game_tile_light,
        game_tile_dark: assets.game_tile_dark,
        logotype_light: assets.logotype_light,
        logotype_dark: assets.logotype_dark,
    }
}

/// The target of a task: the member `target` where it is an integer of 64
/// bits, cut to 32 bits, and zero otherwise.
pub open spec fn target_of(data: JsonView) -> i32 {
    match data.field("target"@) {
        Some(v) => match v.as_int() {
            Some(i) => if i64::MIN <= i <= i64::MAX {
                (i as i64) as i32
            } else {
                0
            },
            None => 0,
        },
        None => 0,
    }
}

/// The task row of the task `data` of the kind `kind`.
pub open spec fn task_of(id: Seq<char>, kind: Seq<char>, data: JsonView) -> QuestTaskView {
    QuestTaskView {
        quest_id: id,
        task_type: kind,
        target: target_of(data),
        applications: data.field("applications"@),
        external_ids: data.field("external_ids"@),
    }
}

/// The tasks that the provider sent, where it sent any.
pub open spec fn task_entries(config: Option<TaskConfigV2View>) -> Seq<(Seq<char>, JsonView)> {
    match config {
        Some(tasks) => tasks.tasks,
        None => Seq::empty(),
    }
}

/// The task rows of a quest: one for each task, in order, and none where the
/// provider sent no tasks.
pub open spec fn tasks_of(id: Seq<char>, config: Option<TaskConfigV2View>) -> Seq<QuestTaskView> {
    let entries = task_entries(config);
    Seq::new(entries.len(), |i: int| task_of(id, entries[i].0, entries[i].1))
}

/// The platform recorded for the rewards of a quest: the first of the
/// provider's platforms, or zero where it names none.
pub open spec fn platform_of(platforms: Seq<i32>) -> i32 {
    if platforms.len() > 0 {
        platforms[0]
    } else {
        0
    }
}

/// The reward row of a reward.
pub open spec fn reward_of(id: Seq<char>, reward: RewardView, platform: i32) -> QuestRewardView {
    QuestRewardView {
        quest_id: id,
        reward_type: reward.reward_type,
        sku_id: reward.sku_id,
        reward_name: reward.messages.name,
        reward_name_with_article: reward.messages.name_with_article,
        orb_quantity: reward.orb_quantity,
        redemption_instructions: match reward.messages.redemption_instructions_by_platform {
            Some(members) => Some(JsonView::Object(members)),
            None => None,
        },
        platform,
    }
}

/// The reward rows of a quest: one for each reward, in order, each with the
/// one platform recorded for the quest.
pub open spec fn rewards_of(id: Seq<char>, config: RewardsConfigView) -> Seq<QuestRewardView> {
    Seq::new(
        config.rewards.len(),
        |i: int| reward_of(id, config.rewards[i], platform_of(config.platforms)),
    )
}

/// The feature flags that the provider sent, where it sent any.
pub open spec fn feature_codes(features: Option<Seq<i32>>) -> Seq<i32> {
    match features {
        Some(codes) => codes,
        None => Seq::empty(),
    }
}

/// The feature rows of a quest: one for each flag, in order, and none where
/// the provider sent no flags.
pub open spec fn features_of(id: Seq<char>, features: Option<Seq<i32>>) -> Seq<QuestFeatureView> {
    let codes = feature_codes(features);
    Seq::new(codes.len(), |i: int| QuestFeatureView { quest_id: id, feature_id: codes[i] })
}

/// The store after the quest was ingested: its row written, its media
/// written, and its tasks, rewards and feature flags replaced by those that
/// the provider sent.
pub open spec fn ingested(s: StoreView, quest: DiscordQuestView) -> StoreView
    recommends
        ingestible(quest),
{
    let id = quest.id;
    let config = quest.config;
    s.with_quest(quest_of(quest, times_of(config).unwrap(), s.now)).with_assets(
        assets_of(id, config.assets),
    ).with_tasks(id, tasks_of(id, config.task_config_v2)).with_rewards(
        id,
        rewards_of(id, config.rewards_config),
    ).with_features(id, features_of(id, config.features))
}

/// Ingesting a quest leaves it stored, with every quest that was and no
/// other, and leaves the clock and the cache as they were.
pub proof fn lemma_ingested(s: StoreView, quest: DiscordQuestView)
    requires
        ingestible(quest),
    ensures
        ingested(s, quest).has_quest(quest.id),
        forall|id: Seq<char>|
            #[trigger] has_id(ingested(s, quest).quests, id) <==> has_id(s.quests, id) || id
                == quest.id,
        ingested(s, quest).now == s.now,
        ingested(s, quest).cache == s.cache,
        s.wf() ==> ingested(s, quest).wf(),
{
    let id = quest.id;
    let row = quest_of(quest, times_of(quest.config).unwrap(), s.now);
    lemma_with_quest(s, row);
    let s1 = s.with_quest(row);
    let s2 = s1.with_assets(assets_of(id, quest.config.assets));
    assert(s2.quests == s1.quests);
    if s.wf() {
        let tasks = tasks_of(id, quest.config.task_config_v2);
        let rewards = rewards_of(id, quest.config.rewards_config);
        let features = features_of(id, quest.config.features);
        lemma_with_assets_wf(s1, assets_of(id, quest.config.assets));
        let s3 = s2.with_tasks(id, tasks);
        let s4 = s3.with_rewards(id, rewards);
        lemma_replace_wf(s2, id, tasks, Seq::empty(), Seq::empty());
        lemma_replace_wf(s3, id, Seq::empty(), rewards, Seq::empty());
        lemma_replace_wf(s4, id, Seq::empty(), Seq::empty(), features);
    }
    let after = ingested(s, quest);
    assert(after.quests == s1.quests);
    assert forall|id: Seq<char>| #[trigger]
        has_id(after.quests, id) <==> has_id(s.quests, id) || id == quest.id by {
        assert(s1.has_quest(id) == has_id(after.quests, id));
        assert(s.has_quest(id) == has_id(s.quests, id));
        if has_id(s.quests, id) {
            assert(s.with_quest(row).has_quest(id));
        }
        if id == quest.id {
            assert(s.with_quest(row).has_quest(id));
        }
    }
}

/// The target of a task.
fn task_target(data: &Json) -> (target: i32)
    ensures
        target == target_of(data@),
{
    match data.get("target") {
        Some(v) => match v.as_i64() {
            Some(i) => #[verifier::truncate]
            (i as i32),
            None => 0,
        },
        None => 0,
    }
}

/// A copy of the member `key` of `data`, if it has one.
fn copy_member(data: &Json, key: &str) -> (r: Option<Json>)
    ensures
        opt_json_view(r) == data@.field(key@),
{
    match data.get(key) {
        Some(v) => Some(v.clone()),
        None => None,
    }
}

/// The tasks of a quest as they are handed to the store.
fn task_tuples(config: &Option<TaskConfigV2>) -> (tasks: Vec<
    (String, i32, Option<Json>, Option<Json>),
>)
    ensures
        forall|id: Seq<char>|
            #[trigger] task_rows(id, tasks@) == tasks_of(id, opt_view(*config)),
{
    let mut tasks: Vec<(String, i32, Option<Json>, Option<Json>)> = Vec::new();
    match config {
        Some(task_config) => {
            let entries = &task_config.tasks;
            let mut i: usize = 0;
            proof {
                lemma_entries_view(entries@);
            }
            while i < entries.len()
                invariant
                    i <= entries.len(),
                    tasks.len() == i,
                    entries_view(entries@).len() == entries.len(),
                    forall|k: int|
                        0 <= k < entries.len() ==> #[trigger] entries_view(entries@)[k] == (
                            entries[k].0@,
                            entries[k].1@,
                        ),
                    forall|k: int, id: Seq<char>|
                        0 <= k < i ==> #[trigger] task_row(id, tasks[k]) == task_of(
                            id,
                            entries[k].0@,
                            entries[k].1@,
                        ),
                decreases entries.len() - i,
            {
                let data = &entries[i].1;
                let task = (
                    entries[i].0.clone(),
                    task_target(data),
                    copy_member(data, "applications"),
                    copy_member(data, "external_ids"),
                );
                tasks.push(task);
                i = i + 1;
            }
            proof {
                assert forall|id: Seq<char>| #[trigger]
                    task_rows(id, tasks@) == tasks_of(id, opt_view(*config)) by {
                    assert(task_rows(id, tasks@) =~= tasks_of(
                        id,
                        opt_view(*config),
                    ));
                }
            }
        },
        None => {
            proof {
                assert forall|id: Seq<char>| #[trigger]
                    task_rows(id, tasks@) == tasks_of(id, opt_view(*config)) by {
                    assert(task_rows(id, tasks@) =~= tasks_of(
                        id,
                        opt_view(*config),
                    ));
                }
            }
        },
    }
    tasks
}

/// The rewards of a quest as they are handed to the store.
fn reward_tuples(config: &RewardsConfig) -> (rewards: Vec<
    (i32, Option<String>, String, String, Option<i32>, Option<Json>, i32),
>)
    ensures
        forall|id: Seq<char>| #[trigger] reward_rows(id, rewards@) == rewards_of(id, config@),
{
    let platform: i32 = if config.platforms.len() > 0 {
        config.platforms[0]
    } else {
        0
    };
    let mut rewards: Vec<(i32, Option<String>, String, String, Option<i32>, Option<Json>, i32)> =
        Vec::new();
    let mut i: usize = 0;
    while i < config.rewards.len()
        invariant
            i <= config.rewards.len(),
            rewards.len() == i,
            platform == platform_of(config@.platforms),
            forall|k: int, id: Seq<char>|
                0 <= k < i ==> #[trigger] reward_row(id, rewards[k]) == reward_of(
                    id,
                    config.rewards[k]@,
                    platform,
                ),
        decreases config.rewards.len() - i,
    {
        let reward = &config.rewards[i];
        let instructions = match &reward.messages.redemption_instructions_by_platform {
            Some(members) => Some(Json::Object(clone_members(members))),
            None => None,
        };
        let tuple = (
            reward.reward_type,
            clone_opt_string(&reward.sku_id),
            reward.messages.name.clone(),
            reward.messages.name_with_article.clone(),
            reward.orb_quantity,
            instructions,
            platform,
        );
        rewards.push(tuple);
        i = i + 1;
    }
    proof {
        assert forall|id: Seq<char>| #[trigger]
            reward_rows(id, rewards@) == rewards_of(id, config@) by {
            assert(reward_rows(id, rewards@) =~= rewards_of(id, config@));
        }
    }
    rewards
}

/// Ingests one quest: writes its row, its media, its tasks, its rewards and
/// its feature flags, in place of what the store held of a quest with the same
/// identifier.
///
/// Succeeds exactly where each timestamp of the quest can be read. Where one
/// cannot, nothing is written, and the failure is a mapping failure whose
/// message starts with "Failed to parse timestamp: ".
pub fn save_single_quest(store: &mut QuestStore, quest_data: &DiscordQuest) -> (r: Result<
    (),
    ApiError,
>)
    ensures
        r is Ok <==> ingestible(quest_data@),
        r is Ok ==> final(store)@ == ingested(old(store)@, quest_data@),
        r matches Err(e) ==> final(store)@ == old(store)@ && e is InternalError
            && timestamp_failure_prefix().is_prefix_of(e.message()),
        old(store)@.wf() ==> final(store)@.wf(),
{
    let config = &quest_data.config;
    let starts_at = match parse_timestamp(config.starts_at.as_str()) {
        Ok(t) => t,
        Err(e) => {
            return Err(e);
        },
    };
    let expires_at = match parse_timestamp(config.expires_at.as_str()) {
        Ok(t) => t,
        Err(e) => {
            return Err(e);
        },
    };
    let rewards_expire_at = match &config.rewards_config.rewards_expire_at {
        Some(text) => match parse_timestamp(text.as_str()) {
            Ok(t) => Some(t),
            Err(e) => {
                return Err(e);
            },
        },
        None => None,
    };
    let now = store.clock();
    let quest = Quest {
        id: quest_data.id.clone(),
        config_version: config.config_version,
        starts_at,
        expires_at,
        application_id: config.application.id.clone(),
        application_name: config.application.name.clone(),
        application_link: config.application.link.clone(),
        share_policy: config.share_policy.clone(),
        preview: quest_data.preview,
        primary_color: Some(config.colors.primary.clone()),
        secondary_color: Some(config.colors.secondary.clone()),
        quest_name: config.messages.quest_name.clone(),
        game_title: config.messages.game_title.clone(),
        game_publisher: config.messages.game_publisher.clone(),
        cta_link: match &config.cta_config {
            Some(cta) => Some(cta.link.clone()),
            None => None,
        },
        cta_button_label: match &config.cta_config {
            Some(cta) => Some(cta.button_label.clone()),
            None => None,
        },
        task_join_operator: match &config.task_config_v2 {
            Some(tasks) => tasks.join_operator.clone(),
            None => "or".to_owned(),
        },
        reward_assignment_method: config.rewards_config.assignment_method,
        rewards_expire_at,
        created_at: now,
        updated_at: now,
    };
    let id = quest_data.id.as_str();
    proof {
        lemma_with_quest(old(store)@, quest@);
    }
    match upsert_quest(store, &quest) {
        Ok(()) => {},
        Err(e) => {
            return Err(e);
        },
    }
    let assets = &config.assets;
    match upsert_quest_assets(
        store,
        id,
        opt_as_str(&assets.hero),
        opt_as_str(&assets.hero_video),
        opt_as_str(&assets.quest_bar_hero),
        opt_as_str(&assets.quest_bar_hero_video),
        opt_as_str(&assets.game_tile),
        opt_as_str(&assets.logotype),
        opt_as_str(&assets.game_tile_light),
        opt_as_str(&assets.game_tile_dark),
        opt_as_str(&assets.logotype_light),
        opt_as_str(&assets.logotype_dark),
    ) {
        Ok(()) => {},
        Err(e) => {
            return Err(e);
        },
    }
    let tasks = task_tuples(&config.task_config_v2);
    match replace_quest_tasks(store, id, tasks.as_slice()) {
        Ok(()) => {},
        Err(e) => {
            return Err(e);
        },
    }
    let rewards = reward_tuples(&config.rewards_config);
    match replace_quest_rewards(store, id, rewards.as_slice()) {
        Ok(()) => {},
        Err(e) => {
            return Err(e);
        },
    }
    let no_features: Vec<i32> = Vec::new();
    let features = match &config.features {
        Some(codes) => codes,
        None => &no_features,
    };
    proof {
        assert(feature_rows(id@, features@) =~= features_of(id@, opt_list(config.features)));
    }
    match replace_quest_features(store, id, features.as_slice()) {
        Ok(()) => {},
        Err(e) => {
            return Err(e);
        },
    }
    Ok(())
}

/// The quests of `quests` whose identifier is not among `known`, in order.
pub open spec fn unknown_only(quests: Seq<DiscordQuestView>, known: Seq<Seq<char>>) -> Seq<
    DiscordQuestView,
>
    decreases quests.len(),
{
    if quests.len() == 0 {
        Seq::empty()
    } else if known.contains(quests.last().id) {
        unknown_only(quests.drop_last(), known)
    } else {
        unknown_only(quests.drop_last(), known).push(quests.last())
    }
}

/// How far a run of ingests came: the store that it left, and whether every
/// quest was ingested.
pub ghost struct IngestRun {
    pub store: StoreView,
    pub complete: bool,
}

/// Ingesting `quests` one after the other, up to the first that cannot be
/// ingested: the quests before it are in the store, and neither it nor a quest
/// after it is.
pub open spec fn ingest_all(s: StoreView, quests: Seq<DiscordQuestView>) -> IngestRun
    decreases quests.len(),
{
    if quests.len() == 0 {
        IngestRun { store: s, complete: true }
    } else {
        let before = ingest_all(s, quests.drop_last());
        if before.complete && ingestible(quests.last()) {
            IngestRun { store: ingested(before.store, quests.last()), complete: true }
        } else {
            IngestRun { store: before.store, complete: false }
        }
    }
}

/// A run that has stopped stays where it stopped, whatever quests follow.
pub proof fn lemma_ingest_all_stopped(
    s: StoreView,
    quests: Seq<DiscordQuestView>,
    more: Seq<DiscordQuestView>,
)
    requires
        !ingest_all(s, quests).complete,
    ensures
        ingest_all(s, quests + more) == ingest_all(s, quests),
    decreases more.len(),
{
    if more.len() == 0 {
        assert(quests + more =~= quests);
    } else {
        lemma_ingest_all_stopped(s, quests, more.drop_last());
        assert((quests + more).drop_last() =~= quests + more.drop_last());
    }
}

/// The unknown quests of a sequence are those of a prefix, followed by those
/// of the rest.
pub proof fn lemma_unknown_only_split(
    quests: Seq<DiscordQuestView>,
    known: Seq<Seq<char>>,
    n: int,
)
    requires
        0 <= n <= quests.len(),
    ensures
        unknown_only(quests, known) == unknown_only(quests.take(n), known) + unknown_only(
            quests.skip(n),
            known,
        ),
    decreases quests.len() - n,
{
    let head = unknown_only(quests.take(n), known);
    if n == quests.len() {
        assert(quests.take(n) =~= quests);
        assert(quests.skip(n) =~= Seq::<DiscordQuestView>::empty());
        assert(head + Seq::<DiscordQuestView>::empty() =~= head);
    } else {
        let rest = quests.drop_last();
        lemma_unknown_only_split(rest, known, n);
        assert(rest.take(n) =~= quests.take(n));
        assert(quests.skip(n).drop_last() =~= rest.skip(n));
        assert(quests.skip(n).last() == quests.last());
        let tail = unknown_only(rest.skip(n), known);
        if !known.contains(quests.last().id) {
            assert((head + tail).push(quests.last()) =~= head + tail.push(quests.last()));
        }
    }
}

/// Ingests the quests of the catalog `response` that the store does not hold
/// yet, in the order of the catalog, and returns how many they are.
///
/// A quest whose identifier is stored when the call begins is passed over: it
/// is neither written nor compared. A catalog that cannot be read is a mapping
/// failure and leaves the store as it is. A quest whose timestamps cannot be
/// read stops the run with a mapping failure: the quests before it stay
/// ingested, and neither it nor a quest after it is written.
pub fn save_discord_quests_to_db(store: &mut QuestStore, response: &Json) -> (r: Result<
    usize,
    ApiError,
>)
    ensures
        match DiscordQuestResponseView::parse(response@) {
            None => final(store)@ == old(store)@ && r is Err && r->Err_0 is InternalError
                && r->Err_0.message() == unreadable_catalog_message(),
            Some(catalog) => {
                let fresh = unknown_only(catalog.quests, old(store)@.known_ids());
                let run = ingest_all(old(store)@, fresh);
                &&& final(store)@ == run.store
                &&& run.complete ==> r is Ok && r->Ok_0 == fresh.len()
                &&& !run.complete ==> r is Err && r->Err_0 is InternalError
                    && timestamp_failure_prefix().is_prefix_of(r->Err_0.message())
            },
        },
        old(store)@.wf() ==> final(store)@.wf(),
{
    let catalog = match parse_discord_response(response) {
        Ok(catalog) => catalog,
        Err(e) => {
            return Err(e);
        },
    };
    let known = match get_existing_quest_ids(store) {
        Ok(ids) => ids,
        Err(e) => {
            return Err(e);
        },
    };
    let ghost start = store@;
    let ghost all = views(catalog.quests@);
    let ghost known_ids = start.known_ids();
    let mut new_count: usize = 0;
    let mut i: usize = 0;
    proof {
        assert(all.take(0) =~= Seq::<DiscordQuestView>::empty());
    }
    while i < catalog.quests.len()
        invariant
            i <= catalog.quests.len(),
            all == views(catalog.quests@),
            start == old(store)@,
            DiscordQuestResponseView::parse(response@) == Some(catalog@),
            known_ids == start.known_ids(),
            known_ids == texts(known@),
            new_count == unknown_only(all.take(i as int), known_ids).len(),
            new_count <= i,
            ingest_all(start, unknown_only(all.take(i as int), known_ids)) == (IngestRun {
                store: store@,
                complete: true,
            }),
            start.wf() ==> store@.wf(),
        decreases catalog.quests.len() - i,
    {
        let quest = &catalog.quests[i];
        let ghost fresh = unknown_only(all.take(i as int), known_ids);
        proof {
            assert(all.take(i as int + 1).drop_last() =~= all.take(i as int));
            assert(all.take(i as int + 1).last() == quest@);
        }
        if !contains_text(&known, quest.id.as_str()) {
            new_count = new_count + 1;
            proof {
                assert(fresh.push(quest@).drop_last() =~= fresh);
            }
            match save_single_quest(store, quest) {
                Ok(()) => {},
                Err(e) => {
                    proof {
                        lemma_unknown_only_split(all, known_ids, i as int + 1);
                        lemma_ingest_all_stopped(
                            start,
                            fresh.push(quest@),
                            unknown_only(all.skip(i as int + 1), known_ids),
                        );
                    }
                    return Err(e);
                },
            }
        }
        i = i + 1;
    }
    proof {
        assert(all.take(i as int) =~= all);
    }
    Ok(new_count)
}

/// After a quest was ingested, the store holds for it exactly what the
/// provider sent: its row, its media, its tasks, its rewards and its feature
/// flags.
pub proof fn lemma_ingested_complete(s: StoreView, quest: DiscordQuestView)
    requires
        ingestible(quest),
    ensures
        ({
            let complete = ingested(s, quest).complete(quest.id);
            let config = quest.config;
            &&& complete.quest == s.quest_row(quest_of(quest, times_of(config).unwrap(), s.now))
            &&& complete.assets == Some(assets_of(quest.id, config.assets))
            &&& complete.tasks == tasks_of(quest.id, config.task_config_v2)
            &&& complete.rewards == rewards_of(quest.id, config.rewards_config)
            &&& complete.features == features_of(quest.id, config.features)
        }),
{
    let id = quest.id;
    let config = quest.config;
    let row = quest_of(quest, times_of(config).unwrap(), s.now);
    let s1 = s.with_quest(row);
    lemma_with_quest(s, row);
    lemma_with_quest_row(s, row, id);
    let media = assets_of(id, config.assets);
    lemma_with_assets(s1, media, id);
    lemma_replaced(s.tasks, id, tasks_of(id, config.task_config_v2), id);
    lemma_replaced(s.rewards, id, rewards_of(id, config.rewards_config), id);
    lemma_replaced(s.features, id, features_of(id, config.features), id);
}

/// Ingesting a quest leaves every other stored quest as it was, with all that
/// belongs to it.
pub proof fn lemma_ingested_other(s: StoreView, quest: DiscordQuestView, other: Seq<char>)
    requires
        ingestible(quest),
        other != quest.id,
        s.has_quest(other),
    ensures
        ingested(s, quest).complete(other) == s.complete(other),
{
    let id = quest.id;
    let config = quest.config;
    let row = quest_of(quest, times_of(config).unwrap(), s.now);
    let s1 = s.with_quest(row);
    lemma_with_quest(s, row);
    lemma_with_quest_row(s, row, other);
    let media = assets_of(id, config.assets);
    lemma_with_assets(s1, media, other);
    lemma_replaced(s.tasks, id, tasks_of(id, config.task_config_v2), other);
    lemma_replaced(s.rewards, id, rewards_of(id, config.rewards_config), other);
    lemma_replaced(s.features, id, features_of(id, config.features), other);
}

/// Whether the identifier of a quest is among `known`.
pub open spec fn is_known(known: Seq<Seq<char>>) -> spec_fn(DiscordQuestView) -> bool {
    |q: DiscordQuestView| known.contains(q.id)
}

/// Whether the identifier of a quest is not among `known`.
pub open spec fn is_unknown(known: Seq<Seq<char>>) -> spec_fn(DiscordQuestView) -> bool {
    |q: DiscordQuestView| !known.contains(q.id)
}

/// Unknown-only ingest: of a catalog that mixes known and unknown quests, the
/// quests that are ingested are those whose identifier is not known, in the
/// order of the catalog, so that the ingested and the known quests together
/// are as many as the catalog holds; and a run over them leaves every stored
/// quest that is not among them as it was, with all that belongs to it.
pub proof fn law_unknown_only(
    s: StoreView,
    quests: Seq<DiscordQuestView>,
    known: Seq<Seq<char>>,
)
    ensures
        unknown_only(quests, known) == quests.filter(is_unknown(known)),
        unknown_only(quests, known).len() + quests.filter(is_known(known)).len() == quests.len(),
        forall|k: int|
            0 <= k < unknown_only(quests, known).len() ==> !known.contains(
                (#[trigger] unknown_only(quests, known)[k]).id,
            ),
        known == s.known_ids() ==> forall|id: Seq<char>|
            s.has_quest(id) ==> #[trigger] ingest_all(
                s,
                unknown_only(quests, known),
            ).store.complete(
                id,
            ) == s.complete(id),
    decreases quests.len(),
{
    let fresh = unknown_only(quests, known);
    if quests.len() == 0 {
        quests.lemma_filter_len(is_unknown(known));
        quests.lemma_filter_len(is_known(known));
        assert(fresh =~= quests.filter(is_unknown(known)));
    } else {
        let rest = quests.drop_last();
        law_unknown_only(s, rest, known);
        assert(rest.push(quests.last()) =~= quests);
        rest.lemma_filter_push(quests.last(), is_unknown(known));
        rest.lemma_filter_push(quests.last(), is_known(known));
        let fresh_rest = unknown_only(rest, known);
        assert forall|k: int| 0 <= k < fresh.len() implies !known.contains(
            (#[trigger] fresh[k]).id,
        ) by {
            if k < fresh_rest.len() {
                assert(fresh[k] == fresh_rest[k]);
            }
        }
    }
    if known == s.known_ids() {
        assert forall|id: Seq<char>| s.has_quest(id) implies #[trigger] ingest_all(
            s,
            fresh,
        ).store.complete(id) == s.complete(id) by {
            lemma_known_ids(s, id);
            assert forall|k: int| 0 <= k < fresh.len() implies (#[trigger] fresh[k]).id != id by {
                assert(!known.contains(fresh[k].id));
            }
            lemma_ingest_all_other(s, fresh, id);
        }
    }
}

/// An identifier is among the known identifiers exactly where a quest with it
/// is stored.
pub proof fn lemma_known_ids(s: StoreView, id: Seq<char>)
    ensures
        s.known_ids().contains(id) <==> s.has_quest(id),
{
    let ids = s.known_ids();
    if ids.contains(id) {
        let k = choose|k: int| 0 <= k < ids.len() && ids[k] == id;
        assert(s.quests[k].id == id);
    }
    if s.has_quest(id) {
        let k = choose|k: int| 0 <= k < s.quests.len() && (#[trigger] s.quests[k]).id == id;
        assert(ids[k] == id);
    }
}

/// A run of ingests leaves a stored quest that is not among the ingested as it
/// was, with all that belongs to it.
pub proof fn lemma_ingest_all_other(s: StoreView, quests: Seq<DiscordQuestView>, id: Seq<char>)
    requires
        s.has_quest(id),
        forall|k: int| 0 <= k < quests.len() ==> (#[trigger] quests[k]).id != id,
    ensures
        ingest_all(s, quests).store.has_quest(id),
        ingest_all(s, quests).store.complete(id) == s.complete(id),
    decreases quests.len(),
{
    if quests.len() > 0 {
        let rest = quests.drop_last();
        assert forall|k: int| 0 <= k < rest.len() implies (#[trigger] rest[k]).id != id by {
            assert(rest[k] == quests[k]);
        }
        lemma_ingest_all_other(s, rest, id);
        let before = ingest_all(s, rest);
        let last = quests.last();
        assert(quests[quests.len() - 1].id != id);
        if before.complete && ingestible(last) {
            lemma_ingested(before.store, last);
            lemma_ingested_other(before.store, last, id);
            assert(has_id(ingested(before.store, last).quests, id));
        }
    }
}

/// A run of ingests that came to its end leaves every quest of the run
/// stored, with every quest that was stored and no other, and leaves the clock
/// and the cache as they were.
pub proof fn lemma_ingest_all(s: StoreView, quests: Seq<DiscordQuestView>)
    ensures
        ingest_all(s, quests).store.now == s.now,
        ingest_all(s, quests).store.cache == s.cache,
        s.wf() ==> ingest_all(s, quests).store.wf(),
        forall|id: Seq<char>| s.has_quest(id) ==> #[trigger] ingest_all(
            s,
            quests,
        ).store.has_quest(id),
        ingest_all(s, quests).complete ==> forall|k: int|
            0 <= k < quests.len() ==> ingest_all(s, quests).store.has_quest(
                (#[trigger] quests[k]).id,
            ),
    decreases quests.len(),
{
    if quests.len() > 0 {
        let rest = quests.drop_last();
        lemma_ingest_all(s, rest);
        let before = ingest_all(s, rest);
        let last = quests.last();
        if before.complete && ingestible(last) {
            lemma_ingested(before.store, last);
            let after = ingested(before.store, last);
            assert forall|id: Seq<char>| s.has_quest(id) implies after.has_quest(id) by {
                assert(before.store.has_quest(id));
                assert(has_id(after.quests, id));
            }
            assert forall|k: int| 0 <= k < quests.len() implies after.has_quest(
                (#[trigger] quests[k]).id,
            ) by {
                if k < rest.len() {
                    assert(rest[k] == quests[k]);
                    assert(before.store.has_quest(rest[k].id));
                    assert(has_id(after.quests, quests[k].id));
                } else {
                    assert(has_id(after.quests, last.id));
                }
            }
        }
    }
}

/// A quest of the catalog whose identifier is not known is among the unknown
/// quests.
pub proof fn lemma_unknown_is_kept(quests: Seq<DiscordQuestView>, known: Seq<Seq<char>>, k: int)
    requires
        0 <= k < quests.len(),
        !known.contains(quests[k].id),
    ensures
        unknown_only(quests, known).contains(quests[k]),
    decreases quests.len(),
{
    let fresh = unknown_only(quests, known);
    let rest = quests.drop_last();
    if k == quests.len() - 1 {
        assert(fresh == unknown_only(rest, known).push(quests.last()));
        assert(fresh[fresh.len() - 1] == quests[k]);
    } else {
        assert(rest[k] == quests[k]);
        lemma_unknown_is_kept(rest, known, k);
        let kept = unknown_only(rest, known);
        let m = choose|m: int| 0 <= m < kept.len() && kept[m] == rest[k];
        assert(fresh[m] == quests[k]);
    }
}

} // verus!

//! Reading back what was rebuilt.
//!
//! The document that the reconstruction mapper writes for a quest can be read
//! as a quest of the provider again, and what is read is given by
//! [`read_back`]. For a quest that was just ingested, and that the provider
//! wrote in the form in which documents are rebuilt, what is read back is the
//! quest that the provider sent.

use crate::fields::{as_i32, i32_list};
use crate::ingest::{
    default_join_operator, feature_codes, ingested, ingestible, lemma_ingested_complete, platform_of,
    task_of, tasks_of, times_of,
};
use crate::json::{JsonView, distinct_keys, lemma_lookup_none, lemma_lookup_push, lookup, put};
use crate::models::{
    CompleteQuestView, QuestAssetsView, QuestFeatureView, QuestRewardView, QuestView,
};
use crate::provider::{
    ApplicationView, AssetsView, ColorsView, CtaConfigView, DiscordQuestView, MessagesView,
    QuestConfigView, RewardMessagesView, RewardView, RewardsConfigView, TaskConfigV2View,
};
use crate::reconstruct::{
    application_document, assets_document, colors_document, config_document, config_members,
    cta_document, feature_items, messages_document, no_assets, quest_document, reported_platform,
    reward_document, reward_items, reward_messages_document, rewards_config_document,
    task_config_document, task_document, tasks_members,
};
use crate::store::StoreView;
use crate::time::Timestamp;
use vstd::prelude::*;

verus! {

/// The application that is read back.
pub open spec fn application_back(q: QuestView) -> ApplicationView {
    ApplicationView { id: q.application_id, name: q.application_name, link: q.application_link }
}

/// The media that are read back.
pub open spec fn assets_back(assets: Option<QuestAssetsView>) -> AssetsView {
    let a = match assets {
        Some(a) => a,
        None => no_assets(),
    };
    AssetsView {
        hero: a.hero,
        hero_video: a.hero_video,
        quest_bar_hero: a.quest_bar_hero,
        quest_bar_hero_video: a.quest_bar_hero_video,
        game_tile: a.game_tile,
        logotype: a.logotype,
        game_tile_light: a.game_tile_light,
        game_tile_dark: a.game_tile_dark,
        logotype_light: a.logotype_light,
        logotype_dark: a.logotype_dark,
    }
}

/// The reward that is read back.
pub open spec fn reward_back(r: QuestRewardView) -> RewardView {
    RewardView {
        reward_type: r.reward_type,
        sku_id: r.sku_id,
        messages: RewardMessagesView {
            name: r.reward_name,
            name_with_article: r.reward_name_with_article,
            redemption_instructions_by_platform: match r.redemption_instructions {
                Some(JsonView::Object(members)) => Some(members),
                _ => None,
            },
        },
        orb_quantity: r.orb_quantity,
    }
}

/// The rewards that are read back.
pub open spec fn rewards_back(rewards: Seq<QuestRewardView>) -> Seq<RewardView> {
    Seq::new(rewards.len(), |i: int| reward_back(rewards[i]))
}

/// The feature flags that are read back.
pub open spec fn features_back(features: Seq<QuestFeatureView>) -> Seq<i32> {
    Seq::new(features.len(), |i: int| features[i].feature_id)
}

/// The timestamp that is read back, as the codec wrote it.
pub open spec fn opt_time_back(t: Option<Timestamp>) -> Option<Seq<char>> {
    match t {
        Some(t) => Some(t.text()),
        None => None,
    }
}

/// The quest that is read back from the document of `c`.
pub open spec fn read_back(c: CompleteQuestView) -> DiscordQuestView {
    let q = c.quest;
    DiscordQuestView {
        id: q.id,
        config: QuestConfigView {
            config_version: q.config_version,
            starts_at: q.starts_at.text(),
            expires_at: q.expires_at.text(),
            features: Some(features_back(c.features)),
            application: application_back(q),
            assets: assets_back(c.assets),
            colors: ColorsView {
                primary: q.primary_color.unwrap(),
                secondary: q.secondary_color.unwrap(),
            },
            messages: MessagesView {
                quest_name: q.quest_name,
                game_title: q.game_title,
                game_publisher: q.game_publisher,
            },
            task_config_v2: Some(
                TaskConfigV2View {
                    tasks: tasks_members(c.tasks),
                    join_operator: q.task_join_operator,
                },
            ),
            rewards_config: RewardsConfigView {
                assignment_method: q.reward_assignment_method,
                rewards: rewards_back(c.rewards),
                rewards_expire_at: opt_time_back(q.rewards_expire_at),
                platforms: seq![reported_platform(c.rewards)],
            },
            share_policy: q.share_policy,
            cta_config: match q.cta_link {
                Some(link) => Some(
                    CtaConfigView { link, button_label: q.cta_button_label.unwrap() },
                ),
                None => None,
            },
        },
        preview: q.preview,
    }
}

/// Whether the document of `c` can be read back: whether the quest has both
/// colors, a label wherever it has a call to action, and redemption
/// instructions that are an object wherever a reward has any.
pub open spec fn readable(c: CompleteQuestView) -> bool {
    &&& c.quest.primary_color is Some
    &&& c.quest.secondary_color is Some
    &&& c.quest.cta_link is Some ==> c.quest.cta_button_label is Some
    &&& forall|i: int|
        0 <= i < c.rewards.len() ==> ((#[trigger] c.rewards[i]).redemption_instructions matches Some(
            v,
        ) ==> v is Object)
}

/// The application that was rebuilt reads as the one that is stored.
pub proof fn lemma_application_back(q: QuestView)
    ensures
        ApplicationView::parse(application_document(q)) == Some(application_back(q)),
{
    broadcast use lemma_lookup_push;

    reveal_strlit("id");
    reveal_strlit("name");
    reveal_strlit("link");
    assert("id"@.len() == 2 && "name"@.len() == 4 && "link"@.len() == 4);
    assert("name"@[0] != "link"@[0]);
}

/// The media that were rebuilt read as those that are stored.
pub proof fn lemma_assets_back(assets: Option<QuestAssetsView>)
    ensures
        AssetsView::parse(assets_document(assets)) == Some(assets_back(assets)),
{
    broadcast use lemma_lookup_push;

    reveal_strlit("hero");
    reveal_strlit("hero_video");
    reveal_strlit("quest_bar_hero");
    reveal_strlit("quest_bar_hero_video");
    reveal_strlit("game_tile");
    reveal_strlit("logotype");
    reveal_strlit("game_tile_light");
    reveal_strlit("game_tile_dark");
    reveal_strlit("logotype_light");
    reveal_strlit("logotype_dark");
    assert("hero"@.len() == 4
        && "hero_video"@.len() == 10
        && "quest_bar_hero"@.len() == 14
        && "quest_bar_hero_video"@.len() == 20
        && "game_tile"@.len() == 9
        && "logotype"@.len() == 8
        && "game_tile_light"@.len() == 15
        && "game_tile_dark"@.len() == 14
        && "logotype_light"@.len() == 14
        && "logotype_dark"@.len() == 13);
    assert("quest_bar_hero"@[0] != "game_tile_dark"@[0]);
    assert("quest_bar_hero"@[0] != "logotype_light"@[0]);
    assert("game_tile_dark"@[0] != "logotype_light"@[0]);
}

/// The colors that were rebuilt read as those that are stored.
pub proof fn lemma_colors_back(q: QuestView)
    requires
        q.primary_color is Some,
        q.secondary_color is Some,
    ensures
        ColorsView::parse(colors_document(q)) == Some(
            ColorsView { primary: q.primary_color.unwrap(), secondary: q.secondary_color.unwrap() },
        ),
{
    broadcast use lemma_lookup_push;

    reveal_strlit("primary");
    reveal_strlit("secondary");
    assert("primary"@.len() == 7 && "secondary"@.len() == 9);
}

/// The messages that were rebuilt read as those that are stored.
pub proof fn lemma_messages_back(q: QuestView)
    ensures
        MessagesView::parse(messages_document(q)) == Some(
            MessagesView {
                quest_name: q.quest_name,
                game_title: q.game_title,
                game_publisher: q.game_publisher,
            },
        ),
{
    broadcast use lemma_lookup_push;

    reveal_strlit("quest_name");
    reveal_strlit("game_title");
    reveal_strlit("game_publisher");
    assert("quest_name"@.len() == 10 && "game_title"@.len() == 10 && "game_publisher"@.len() == 14);
    assert("quest_name"@[0] != "game_title"@[0]);
}

/// The call to action that was rebuilt reads as the one that is stored.
pub proof fn lemma_cta_back(link: Seq<char>, label: Seq<char>)
    ensures
        CtaConfigView::parse(cta_document(link, Some(label))) == Some(
            CtaConfigView { link, button_label: label },
        ),
{
    broadcast use lemma_lookup_push;

    reveal_strlit("link");
    reveal_strlit("button_label");
    assert("link"@.len() == 4 && "button_label"@.len() == 12);
}

/// The reward that was rebuilt reads as the one that is stored.
pub proof fn lemma_reward_back(r: QuestRewardView)
    requires
        r.redemption_instructions matches Some(v) ==> v is Object,
    ensures
        RewardView::parse(reward_document(r)) == Some(reward_back(r)),
{
    broadcast use lemma_lookup_push;

    reveal_strlit("name");
    reveal_strlit("name_with_article");
    reveal_strlit("redemption_instructions_by_platform");
    assert("name"@.len() == 4
        && "name_with_article"@.len() == 17
        && "redemption_instructions_by_platform"@.len() == 35);
    assert(RewardMessagesView::parse(reward_messages_document(r)) == Some(reward_back(r).messages));
    reveal_strlit("type");
    reveal_strlit("sku_id");
    reveal_strlit("messages");
    reveal_strlit("orb_quantity");
    assert("type"@.len() == 4
        && "sku_id"@.len() == 6
        && "messages"@.len() == 8
        && "orb_quantity"@.len() == 12);
}

/// The rewards that were rebuilt read as those that are stored.
pub proof fn lemma_rewards_back(rewards: Seq<QuestRewardView>)
    requires
        forall|i: int|
            0 <= i < rewards.len() ==> ((#[trigger] rewards[i]).redemption_instructions matches Some(
                v,
            ) ==> v is Object),
    ensures
        RewardView::parse_list(reward_items(rewards)) == Some(rewards_back(rewards)),
    decreases rewards.len(),
{
    if rewards.len() == 0 {
        assert(reward_items(rewards) =~= Seq::<JsonView>::empty());
        assert(rewards_back(rewards) =~= Seq::<RewardView>::empty());
    } else {
        let rest = rewards.drop_last();
        assert forall|i: int| 0 <= i < rest.len() implies ((
        #[trigger] rest[i]).redemption_instructions matches Some(v) ==> v is Object) by {
            assert(rest[i] == rewards[i]);
        }
        lemma_rewards_back(rest);
        lemma_reward_back(rewards.last());
        assert(reward_items(rewards).drop_last() =~= reward_items(rest));
        assert(reward_items(rewards).last() == reward_document(rewards.last()));
        assert(rewards_back(rest).push(reward_back(rewards.last())) =~= rewards_back(rewards));
    }
}

/// The feature flags that were rebuilt read as those that are stored.
pub proof fn lemma_features_back(features: Seq<QuestFeatureView>)
    ensures
        i32_list(feature_items(features)) == Some(features_back(features)),
    decreases features.len(),
{
    if features.len() == 0 {
        assert(feature_items(features) =~= Seq::<JsonView>::empty());
        assert(features_back(features) =~= Seq::<i32>::empty());
    } else {
        let rest = features.drop_last();
        lemma_features_back(rest);
        assert(feature_items(features).drop_last() =~= feature_items(rest));
        assert(feature_items(features).last() == JsonView::integer(
            features.last().feature_id as int,
        ));
        assert(features_back(rest).push(features.last().feature_id) =~= features_back(features));
    }
}

/// The tasks that were rebuilt read as they were rebuilt.
pub proof fn lemma_task_config_back(c: CompleteQuestView)
    ensures
        TaskConfigV2View::parse(task_config_document(c)) == Some(
            TaskConfigV2View {
                tasks: tasks_members(c.tasks),
                join_operator: c.quest.task_join_operator,
            },
        ),
{
    broadcast use lemma_lookup_push;

    reveal_strlit("tasks");
    reveal_strlit("join_operator");
    assert("tasks"@.len() == 5 && "join_operator"@.len() == 13);
}

/// The rewards configuration that was rebuilt reads as what is stored.
pub proof fn lemma_rewards_config_back(c: CompleteQuestView)
    requires
        readable(c),
    ensures
        RewardsConfigView::parse(rewards_config_document(c)) == Some(read_back(c).config.rewards_config),
{
    broadcast use lemma_lookup_push;

    lemma_rewards_back(c.rewards);
    let platform = reported_platform(c.rewards);
    let platforms = seq![JsonView::integer(platform as int)];
    assert(platforms.drop_last() =~= Seq::<JsonView>::empty());
    assert(i32_list(platforms.drop_last()) == Some(Seq::<i32>::empty()));
    assert(as_i32(platforms.last()) == Some(platform));
    assert(Seq::<i32>::empty().push(platform) =~= seq![platform]);
    assert(i32_list(platforms) == Some(seq![platform]));
    reveal_strlit("assignment_method");
    reveal_strlit("rewards");
    reveal_strlit("rewards_expire_at");
    reveal_strlit("platforms");
    assert("assignment_method"@.len() == 17
        && "rewards"@.len() == 7
        && "rewards_expire_at"@.len() == 17
        && "platforms"@.len() == 9);
    assert("assignment_method"@[0] != "rewards_expire_at"@[0]);
}

/// What each member of the configuration that was rebuilt holds.
pub proof fn lemma_config_members(c: CompleteQuestView)
    ensures
        ({
            let m = match c.quest.cta_link {
                Some(link) => config_members(c).push(
                    ("cta_config"@, cta_document(link, c.quest.cta_button_label)),
                ),
                None => config_members(c),
            };
            let q = c.quest;
            &&& config_document(c) == JsonView::Object(m)
            &&& lookup(m, "id"@) == Some(JsonView::String(q.id))
            &&& lookup(m, "config_version"@) == Some(JsonView::integer(q.config_version as int))
            &&& lookup(m, "starts_at"@) == Some(JsonView::String(q.starts_at.text()))
            &&& lookup(m, "expires_at"@) == Some(JsonView::String(q.expires_at.text()))
            &&& lookup(m, "features"@) == Some(JsonView::Array(feature_items(c.features)))
            &&& lookup(m, "application"@) == Some(application_document(q))
            &&& lookup(m, "assets"@) == Some(assets_document(c.assets))
            &&& lookup(m, "colors"@) == Some(colors_document(q))
            &&& lookup(m, "messages"@) == Some(messages_document(q))
            &&& lookup(m, "task_config_v2"@) == Some(task_config_document(c))
            &&& lookup(m, "rewards_config"@) == Some(rewards_config_document(c))
            &&& lookup(m, "share_policy"@) == Some(JsonView::String(q.share_policy))
            &&& lookup(m, "cta_config"@) == match q.cta_link {
                Some(link) => Some(cta_document(link, q.cta_button_label)),
                None => None,
            }
        }),
{
    broadcast use lemma_lookup_push;

    reveal_strlit("id");
    reveal_strlit("config_version");
    reveal_strlit("starts_at");
    reveal_strlit("expires_at");
    reveal_strlit("features");
    reveal_strlit("application");
    reveal_strlit("assets");
    reveal_strlit("colors");
    reveal_strlit("messages");
    reveal_strlit("task_config_v2");
    reveal_strlit("rewards_config");
    reveal_strlit("share_policy");
    reveal_strlit("cta_config");
    assert("id"@.len() == 2
        && "config_version"@.len() == 14
        && "starts_at"@.len() == 9
        && "expires_at"@.len() == 10
        && "features"@.len() == 8
        && "application"@.len() == 11
        && "assets"@.len() == 6
        && "colors"@.len() == 6
        && "messages"@.len() == 8
        && "task_config_v2"@.len() == 14
        && "rewards_config"@.len() == 14
        && "share_policy"@.len() == 12
        && "cta_config"@.len() == 10);
    assert("config_version"@[0] != "task_config_v2"@[0]);
    assert("config_version"@[0] != "rewards_config"@[0]);
    assert("expires_at"@[0] != "cta_config"@[0]);
    assert("features"@[0] != "messages"@[0]);
    assert("assets"@[0] != "colors"@[0]);
    assert("task_config_v2"@[0] != "rewards_config"@[0]);
}

/// The configuration that was rebuilt reads as what is stored.
pub proof fn lemma_config_back(c: CompleteQuestView)
    requires
        readable(c),
    ensures
        QuestConfigView::parse(config_document(c)) == Some(read_back(c).config),
{
    lemma_config_members(c);
    lemma_features_back(c.features);
    lemma_application_back(c.quest);
    lemma_assets_back(c.assets);
    lemma_colors_back(c.quest);
    lemma_messages_back(c.quest);
    lemma_task_config_back(c);
    lemma_rewards_config_back(c);
    match c.quest.cta_link {
        Some(link) => {
            lemma_cta_back(link, c.quest.cta_button_label.unwrap());
        },
        None => {},
    }
}

/// What is rebuilt can be read back: the document of a quest reads as a quest
/// of the provider, with `user_status` null and `targeted_content` empty.
pub proof fn lemma_read_back(c: CompleteQuestView)
    requires
        readable(c),
    ensures
        DiscordQuestView::parse(quest_document(c)) == Some(read_back(c)),
        quest_document(c).field("user_status"@) == Some(JsonView::Null),
        quest_document(c).field("targeted_content"@) == Some(
            JsonView::Array(Seq::<JsonView>::empty()),
        ),
{
    broadcast use lemma_lookup_push;

    lemma_config_back(c);
    reveal_strlit("id");
    reveal_strlit("config");
    reveal_strlit("user_status");
    reveal_strlit("targeted_content");
    reveal_strlit("preview");
    assert("id"@.len() == 2
        && "config"@.len() == 6
        && "user_status"@.len() == 11
        && "targeted_content"@.len() == 16
        && "preview"@.len() == 7);
}

/// Whether the task `data` of the kind `kind` is in the form in which tasks
/// are rebuilt: whether it has exactly the members `type`, `target`,
/// `applications` and `external_ids`, in this order, with its kind as its
/// type and a target of 32 bits.
pub open spec fn canonical_task(kind: Seq<char>, data: JsonView) -> bool {
    data == task_document(task_of(Seq::empty(), kind, data))
}

/// Whether the timestamp is written as it is rebuilt.
pub open spec fn canonical_time(text: Seq<char>) -> bool {
    Timestamp::parsed(text) matches Some(t) && t.text() == text
}

/// Whether the quest is in the form in which quests are rebuilt:
/// - each timestamp is written as the codec writes it;
/// - the feature flags and the tasks are there, if only as empty collections;
/// - no two tasks have the same kind, and each task is in the form in which
///   tasks are rebuilt;
/// - the rewards name one platform, which is zero where there are no rewards.
pub open spec fn canonical(quest: DiscordQuestView) -> bool {
    let config = quest.config;
    &&& canonical_time(config.starts_at)
    &&& canonical_time(config.expires_at)
    &&& config.rewards_config.rewards_expire_at matches Some(text) ==> canonical_time(text)
    &&& config.features is Some
    &&& config.task_config_v2 matches Some(tasks) && distinct_keys(tasks.tasks) && forall|i: int|
        0 <= i < tasks.tasks.len() ==> canonical_task(
            (#[trigger] tasks.tasks[i]).0,
            tasks.tasks[i].1,
        )
    &&& config.rewards_config.platforms.len() == 1
    &&& config.rewards_config.rewards.len() == 0 ==> config.rewards_config.platforms[0] == 0
}

/// Tasks in the form in which tasks are rebuilt are rebuilt as they were.
pub proof fn lemma_tasks_back(id: Seq<char>, entries: Seq<(Seq<char>, JsonView)>)
    requires
        distinct_keys(entries),
        forall|i: int|
            0 <= i < entries.len() ==> canonical_task((#[trigger] entries[i]).0, entries[i].1),
    ensures
        tasks_members(Seq::new(entries.len(), |i: int| task_of(id, entries[i].0, entries[i].1)))
            == entries,
    decreases entries.len(),
{
    let rows = Seq::new(entries.len(), |i: int| task_of(id, entries[i].0, entries[i].1));
    if entries.len() == 0 {
        assert(tasks_members(rows) =~= entries);
    } else {
        let rest = entries.drop_last();
        let rest_rows = Seq::new(rest.len(), |i: int| task_of(id, rest[i].0, rest[i].1));
        assert(rows.drop_last() =~= rest_rows);
        assert forall|i: int| 0 <= i < rest.len() implies canonical_task(
            (#[trigger] rest[i]).0,
            rest[i].1,
        ) by {
            assert(rest[i] == entries[i]);
        }
        assert(distinct_keys(rest)) by {
            assert forall|i: int, j: int| 0 <= i < j < rest.len() implies (#[trigger] rest[i]).0 != (
            #[trigger] rest[j]).0 by {
                assert(rest[i] == entries[i]);
                assert(rest[j] == entries[j]);
            }
        }
        lemma_tasks_back(id, rest);
        let last = entries.last();
        assert(rows.last() == task_of(id, last.0, last.1));
        assert(task_document(rows.last()) == last.1) by {
            assert(canonical_task(entries[entries.len() - 1].0, entries[entries.len() - 1].1));
        }
        lemma_lookup_none(rest, last.0);
        assert forall|j: int| 0 <= j < rest.len() implies (#[trigger] rest[j]).0 != last.0 by {
            assert(rest[j] == entries[j]);
            assert(entries[j].0 != entries[entries.len() - 1].0);
        }
        assert(tasks_members(rows) == put(rest, last.0, last.1));
        assert(rest.push((last.0, last.1)) =~= entries);
    }
}

/// What an ingested quest reads as once it was rebuilt: the quest that the
/// provider sent, with
/// - each timestamp as the codec writes it;
/// - the feature flags and the tasks there, if only as empty collections, and
///   the tasks combining by "or" where the provider sent none;
/// - each task in the form in which tasks are rebuilt, and of two tasks of
///   one kind the later one in the place of the earlier;
/// - the one platform that was recorded for the rewards, or zero where there
///   are no rewards.
pub open spec fn normal_form(quest: DiscordQuestView) -> DiscordQuestView
    recommends
        ingestible(quest),
{
    let config = quest.config;
    let times = times_of(config).unwrap();
    let rewards = config.rewards_config;
    DiscordQuestView {
        config: QuestConfigView {
            starts_at: times.starts_at.text(),
            expires_at: times.expires_at.text(),
            features: Some(feature_codes(config.features)),
            task_config_v2: Some(
                TaskConfigV2View {
                    tasks: tasks_members(tasks_of(quest.id, config.task_config_v2)),
                    join_operator: match config.task_config_v2 {
                        Some(tasks) => tasks.join_operator,
                        None => default_join_operator(),
                    },
                },
            ),
            rewards_config: RewardsConfigView {
                rewards_expire_at: opt_time_back(times.rewards_expire_at),
                platforms: seq![
                    if rewards.rewards.len() > 0 {
                        platform_of(rewards.platforms)
                    } else {
                        0
                    },
                ],
                ..rewards
            },
            ..config
        },
        ..quest
    }
}

/// A quest in the form in which quests are rebuilt is its own normal form.
pub proof fn lemma_canonical(quest: DiscordQuestView)
    requires
        canonical(quest),
    ensures
        ingestible(quest),
        normal_form(quest) == quest,
{
    let config = quest.config;
    let tasks = config.task_config_v2.unwrap();
    lemma_tasks_back(quest.id, tasks.tasks);
    assert(tasks_of(quest.id, config.task_config_v2) =~= Seq::new(
        tasks.tasks.len(),
        |i: int| task_of(quest.id, tasks.tasks[i].0, tasks.tasks[i].1),
    ));
    let normal = normal_form(quest);
    assert(normal.config.rewards_config.platforms =~= config.rewards_config.platforms);
    assert(normal.config.rewards_config == config.rewards_config);
    assert(normal.config.task_config_v2 == config.task_config_v2);
    assert(normal.config == config);
}

/// Tasks are rebuilt as at most as many members as there are tasks, and as
/// exactly as many only where no two tasks have the same kind; each task is
/// then rebuilt in its own place.
pub proof fn lemma_tasks_members_len(id: Seq<char>, entries: Seq<(Seq<char>, JsonView)>)
    ensures
        ({
            let rows = Seq::new(entries.len(), |i: int| task_of(id, entries[i].0, entries[i].1));
            let members = tasks_members(rows);
            &&& members.len() <= entries.len()
            &&& forall|m: int|
                0 <= m < members.len() ==> exists|i: int|
                    0 <= i < entries.len() && entries[i].0 == (#[trigger] members[m]).0
            &&& members.len() == entries.len() ==> distinct_keys(entries) && forall|i: int|
                0 <= i < entries.len() ==> #[trigger] members[i] == (
                    entries[i].0,
                    task_document(task_of(id, entries[i].0, entries[i].1)),
                )
        }),
    decreases entries.len(),
{
    let rows = Seq::new(entries.len(), |i: int| task_of(id, entries[i].0, entries[i].1));
    let members = tasks_members(rows);
    if entries.len() > 0 {
        let rest = entries.drop_last();
        let rest_rows = Seq::new(rest.len(), |i: int| task_of(id, rest[i].0, rest[i].1));
        assert(rows.drop_last() =~= rest_rows);
        lemma_tasks_members_len(id, rest);
        let before = tasks_members(rest_rows);
        let last = entries.last();
        let value = task_document(task_of(id, last.0, last.1));
        assert(rows.last() == task_of(id, last.0, last.1));
        assert(members == put(before, last.0, value));
        lemma_lookup_none(before, last.0);
        if lookup(before, last.0) is None {
            assert(members == before.push((last.0, value)));
            assert forall|m: int| 0 <= m < members.len() implies exists|i: int|
                0 <= i < entries.len() && entries[i].0 == (#[trigger] members[m]).0 by {
                if m < before.len() {
                    assert(members[m] == before[m]);
                    let i = choose|i: int| 0 <= i < rest.len() && rest[i].0 == before[m].0;
                    assert(entries[i] == rest[i]);
                } else {
                    assert(entries[entries.len() - 1].0 == members[m].0);
                }
            }
            if members.len() == entries.len() {
                assert(before.len() == rest.len());
                assert forall|i: int, j: int| 0 <= i < j < entries.len() implies (
                #[trigger] entries[i]).0 != (#[trigger] entries[j]).0 by {
                    assert(rest[i] == entries[i]);
                    if j < rest.len() {
                        assert(rest[j] == entries[j]);
                    } else {
                        assert(before[i].0 == rest[i].0);
                        assert(before[i].0 != last.0);
                    }
                }
                assert forall|i: int| 0 <= i < entries.len() implies #[trigger] members[i] == (
                    entries[i].0,
                    task_document(task_of(id, entries[i].0, entries[i].1)),
                ) by {
                    if i < rest.len() {
                        assert(members[i] == before[i]);
                        assert(rest[i] == entries[i]);
                    }
                }
            }
        } else {
            lemma_put_keeps_keys(before, last.0, value);
            assert forall|m: int| 0 <= m < members.len() implies exists|i: int|
                0 <= i < entries.len() && entries[i].0 == (#[trigger] members[m]).0 by {
                assert(members[m].0 == before[m].0);
                let i = choose|i: int| 0 <= i < rest.len() && rest[i].0 == before[m].0;
                assert(entries[i] == rest[i]);
            }
        }
    }
}

/// Putting a value under a key that a member has keeps the number of members
/// and the key of each.
pub proof fn lemma_put_keeps_keys(
    members: Seq<(Seq<char>, JsonView)>,
    key: Seq<char>,
    value: JsonView,
)
    requires
        lookup(members, key) is Some,
    ensures
        put(members, key, value).len() == members.len(),
        forall|m: int|
            0 <= m < members.len() ==> (#[trigger] put(members, key, value)[m]).0 == members[m].0,
    decreases members.len(),
{
    if members.len() > 0 {
        let rest = members.drop_last();
        let after = put(members, key, value);
        if members.last().0 == key {
            assert(after == rest.push((key, value)));
            assert forall|m: int| 0 <= m < members.len() implies (#[trigger] after[m]).0
                == members[m].0 by {
                if m < rest.len() {
                    assert(after[m] == rest[m]);
                }
            }
        } else {
            lemma_put_keeps_keys(rest, key, value);
            let inner = put(rest, key, value);
            assert(after == inner.push(members.last()));
            assert forall|m: int| 0 <= m < members.len() implies (#[trigger] after[m]).0
                == members[m].0 by {
                if m < rest.len() {
                    assert(after[m] == inner[m]);
                    assert(rest[m] == members[m]);
                }
            }
        }
    }
}

/// A quest that is its own normal form is in the form in which quests are
/// rebuilt: together with [`lemma_canonical`], the quests that round-trip are
/// exactly those in that form.
pub proof fn law_fixed_points_are_canonical(quest: DiscordQuestView)
    requires
        ingestible(quest),
        normal_form(quest) == quest,
    ensures
        canonical(quest),
{
    let config = quest.config;
    let normal = normal_form(quest);
    let times = times_of(config).unwrap();
    assert(normal.config.starts_at == config.starts_at);
    assert(normal.config.expires_at == config.expires_at);
    assert(normal.config.rewards_config.rewards_expire_at == config.rewards_config.rewards_expire_at);
    assert(normal.config.features == config.features);
    assert(normal.config.task_config_v2 == config.task_config_v2);
    let platforms = config.rewards_config.platforms;
    assert(normal.config.rewards_config.platforms == platforms);
    assert(platforms.len() == 1);
    assert(platforms[0] == normal.config.rewards_config.platforms[0]);
    let tasks = config.task_config_v2.unwrap();
    lemma_tasks_members_len(quest.id, tasks.tasks);
    let rows = Seq::new(
        tasks.tasks.len(),
        |i: int| task_of(quest.id, tasks.tasks[i].0, tasks.tasks[i].1),
    );
    assert(tasks_of(quest.id, config.task_config_v2) =~= rows);
    assert(tasks_members(rows) == tasks.tasks);
    assert forall|i: int| 0 <= i < tasks.tasks.len() implies canonical_task(
        (#[trigger] tasks.tasks[i]).0,
        tasks.tasks[i].1,
    ) by {
        assert(tasks_members(rows)[i] == (
            tasks.tasks[i].0,
            task_document(task_of(quest.id, tasks.tasks[i].0, tasks.tasks[i].1)),
        ));
    }
}

/// What is ingested and rebuilt reads as the normal form of what was sent, with
/// `user_status` null and `targeted_content` empty, whatever the store held
/// before.
pub proof fn law_rebuilt_normal_form(s: StoreView, quest: DiscordQuestView)
    requires
        ingestible(quest),
    ensures
        DiscordQuestView::parse(quest_document(ingested(s, quest).complete(quest.id))) == Some(
            normal_form(quest),
        ),
        quest_document(ingested(s, quest).complete(quest.id)).field("user_status"@) == Some(
            JsonView::Null,
        ),
        quest_document(ingested(s, quest).complete(quest.id)).field("targeted_content"@) == Some(
            JsonView::Array(Seq::<JsonView>::empty()),
        ),
{
    let config = quest.config;
    let id = quest.id;
    let complete = ingested(s, quest).complete(id);
    lemma_ingested_complete(s, quest);
    lemma_read_back(complete);
    let back = read_back(complete);
    let normal = normal_form(quest);
    assert(back.config.features == normal.config.features) by {
        assert(features_back(complete.features) =~= feature_codes(config.features));
    }
    assert(back.config.rewards_config.rewards =~= config.rewards_config.rewards);
    assert(back.config.rewards_config.platforms =~= normal.config.rewards_config.platforms);
    assert(back.config.rewards_config == normal.config.rewards_config);
    assert(back.config.assets == config.assets);
    assert(back.config == normal.config);
}

/// Round trip: a quest in the form in which quests are rebuilt, once
/// ingested, is rebuilt as a document that reads as the quest itself, with
/// `user_status` null and `targeted_content` empty.
pub proof fn law_round_trip(s: StoreView, quest: DiscordQuestView)
    requires
        canonical(quest),
    ensures
        ingestible(quest),
        DiscordQuestView::parse(quest_document(ingested(s, quest).complete(quest.id))) == Some(
            quest,
        ),
        quest_document(ingested(s, quest).complete(quest.id)).field("user_status"@) == Some(
            JsonView::Null,
        ),
        quest_document(ingested(s, quest).complete(quest.id)).field("targeted_content"@) == Some(
            JsonView::Array(Seq::<JsonView>::empty()),
        ),
{
    lemma_canonical(quest);
    law_rebuilt_normal_form(s, quest);
}

} // verus!

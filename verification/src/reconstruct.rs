//! The reconstruction mapper.
//!
//! A quest with all that belongs to it becomes one document in the shape in
//! which the provider sends quests. Two members are always the same, since
//! the store holds nothing for them: `user_status` is null and
//! `targeted_content` is an empty array. The call to action is a member of
//! the configuration where the quest has one, and no member at all where it
//! has none. The contracts give each document member by member, in the order
//! in which the members are written.

use crate::error::ApiError;
use crate::json::{
    Json, JsonView, entries_view, items_view, new_items, new_members, no_members, push_item,
    push_member, put, put_member,
};
use crate::models::{
    CompleteQuest, CompleteQuestView, Quest, QuestAssets, QuestAssetsView, QuestFeature,
    QuestFeatureView, QuestReward, QuestRewardView, QuestTask, QuestTaskView, QuestView,
    opt_assets_view,
};
use crate::store::{QuestStore, get_recent_complete_quests};
use crate::text::{opt_text, views};
use crate::time::Timestamp;
use vstd::prelude::*;

verus! {

/// A timestamp as the codec writes it where there is one, null otherwise.
pub open spec fn opt_time_document(t: Option<Timestamp>) -> JsonView {
    match t {
        Some(t) => JsonView::String(t.text()),
        None => JsonView::Null,
    }
}

/// The application that owns the quest.
pub open spec fn application_document(q: QuestView) -> JsonView {
    JsonView::Object(
        no_members().push(
            ("id"@, JsonView::String(q.application_id)),
        ).push(
            ("name"@, JsonView::String(q.application_name)),
        ).push(
            ("link"@, JsonView::String(q.application_link)),
        ),
    )
}

/// The media row with no media.
pub open spec fn no_assets() -> QuestAssetsView {
    QuestAssetsView {
        quest_id: Seq::empty(),
        hero: None,
        hero_video: None,
        quest_bar_hero: None,
        quest_bar_hero_video: None,
        game_tile: None,
        logotype: None,
        game_tile_light: None,
        game_tile_dark: None,
        logotype_light: None,
        logotype_dark: None,
    }
}

/// The media of the quest: each where it is stored, null otherwise, and all
/// null where no media row is stored.
pub open spec fn assets_document(assets: Option<QuestAssetsView>) -> JsonView {
    let a = match assets {
        Some(a) => a,
        None => no_assets(),
    };
    JsonView::Object(
        no_members().push(
            ("hero"@, JsonView::opt_string(a.hero)),
        ).push(
            ("hero_video"@, JsonView::opt_string(a.hero_video)),
        ).push(
            ("quest_bar_hero"@, JsonView::opt_string(a.quest_bar_hero)),
        ).push(
            ("quest_bar_hero_video"@, JsonView::opt_string(a.quest_bar_hero_video)),
        ).push(
            ("game_tile"@, JsonView::opt_string(a.game_tile)),
        ).push(
            ("logotype"@, JsonView::opt_string(a.logotype)),
        ).push(
            ("game_tile_light"@, JsonView::opt_string(a.game_tile_light)),
        ).push(
            ("game_tile_dark"@, JsonView::opt_string(a.game_tile_dark)),
        ).push(
            ("logotype_light"@, JsonView::opt_string(a.logotype_light)),
        ).push(
            ("logotype_dark"@, JsonView::opt_string(a.logotype_dark)),
        ),
    )
}

/// The colors of the quest.
pub open spec fn colors_document(q: QuestView) -> JsonView {
    JsonView::Object(
        no_members().push(
            ("primary"@, JsonView::opt_string(q.primary_color)),
        ).push(
            ("secondary"@, JsonView::opt_string(q.secondary_color)),
        ),
    )
}

/// What is shown of the quest.
pub open spec fn messages_document(q: QuestView) -> JsonView {
    JsonView::Object(
        no_members().push(
            ("quest_name"@, JsonView::String(q.quest_name)),
        ).push(
            ("game_title"@, JsonView::String(q.game_title)),
        ).push(
            ("game_publisher"@, JsonView::String(q.game_publisher)),
        ),
    )
}

/// One task.
pub open spec fn task_document(t: QuestTaskView) -> JsonView {
    JsonView::Object(
        no_members().push(
            ("type"@, JsonView::String(t.task_type)),
        ).push(
            ("target"@, JsonView::integer(t.target as int)),
        ).push(
            ("applications"@, JsonView::or_null(t.applications)),
        ).push(
            ("external_ids"@, JsonView::or_null(t.external_ids)),
        ),
    )
}

/// The tasks, each under its kind, in stored order. Where two tasks have the
/// same kind, the later one stands in the place of the earlier.
pub open spec fn tasks_members(tasks: Seq<QuestTaskView>) -> Seq<(Seq<char>, JsonView)>
    decreases tasks.len(),
{
    if tasks.len() == 0 {
        no_members()
    } else {
        put(tasks_members(tasks.drop_last()), tasks.last().task_type, task_document(tasks.last()))
    }
}

/// The tasks and how they combine.
pub open spec fn task_config_document(c: CompleteQuestView) -> JsonView {
    JsonView::Object(
        no_members().push(
            ("tasks"@, JsonView::Object(tasks_members(c.tasks))),
        ).push(
            ("join_operator"@, JsonView::String(c.quest.task_join_operator)),
        ),
    )
}

/// How a reward is named.
pub open spec fn reward_messages_document(r: QuestRewardView) -> JsonView {
    JsonView::Object(
        no_members().push(
            ("name"@, JsonView::String(r.reward_name)),
        ).push(
            ("name_with_article"@, JsonView::String(r.reward_name_with_article)),
        ).push(
            ("redemption_instructions_by_platform"@, JsonView::or_null(r.redemption_instructions)),
        ),
    )
}

/// One reward.
pub open spec fn reward_document(r: QuestRewardView) -> JsonView {
    JsonView::Object(
        no_members().push(
            ("type"@, JsonView::integer(r.reward_type as int)),
        ).push(
            ("sku_id"@, JsonView::opt_string(r.sku_id)),
        ).push(
            ("messages"@, reward_messages_document(r)),
        ).push(
            ("orb_quantity"@, JsonView::opt_int(match r.orb_quantity {
                Some(n) => Some(n as int),
                None => None,
            })),
        ),
    )
}

/// The rewards, in stored order.
pub open spec fn reward_items(rewards: Seq<QuestRewardView>) -> Seq<JsonView> {
    Seq::new(rewards.len(), |i: int| reward_document(rewards[i]))
}

/// The platform that the quest's rewards report: the one recorded with the
/// first reward, or zero where the quest has no reward.
pub open spec fn reported_platform(rewards: Seq<QuestRewardView>) -> i32 {
    if rewards.len() > 0 {
        rewards[0].platform
    } else {
        0
    }
}

/// The rewards of the quest.
pub open spec fn rewards_config_document(c: CompleteQuestView) -> JsonView {
    JsonView::Object(
        no_members().push(
            ("assignment_method"@, JsonView::integer(c.quest.reward_assignment_method as int)),
        ).push(
            ("rewards"@, JsonView::Array(reward_items(c.rewards))),
        ).push(
            ("rewards_expire_at"@, opt_time_document(c.quest.rewards_expire_at)),
        ).push(
            (
                "platforms"@,
                JsonView::Array(seq![JsonView::integer(reported_platform(c.rewards) as int)]),
            ),
        ),
    )
}

/// The call to action.
pub open spec fn cta_document(link: Seq<char>, label: Option<Seq<char>>) -> JsonView {
    JsonView::Object(
        no_members().push(
            ("link"@, JsonView::String(link)),
        ).push(
            ("button_label"@, JsonView::opt_string(label)),
        ),
    )
}

/// The feature flags, in stored order.
pub open spec fn feature_items(features: Seq<QuestFeatureView>) -> Seq<JsonView> {
    Seq::new(features.len(), |i: int| JsonView::integer(features[i].feature_id as int))
}

/// The members of the configuration that every quest has.
pub open spec fn config_members(c: CompleteQuestView) -> Seq<(Seq<char>, JsonView)> {
    let q = c.quest;
    no_members().push(
        ("id"@, JsonView::String(q.id)),
    ).push(
        ("config_version"@, JsonView::integer(q.config_version as int)),
    ).push(
        ("starts_at"@, JsonView::String(q.starts_at.text())),
    ).push(
        ("expires_at"@, JsonView::String(q.expires_at.text())),
    ).push(
        ("features"@, JsonView::Array(feature_items(c.features))),
    ).push(
        ("application"@, application_document(q)),
    ).push(
        ("assets"@, assets_document(c.assets)),
    ).push(
        ("colors"@, colors_document(q)),
    ).push(
        ("messages"@, messages_document(q)),
    ).push(
        ("task_config_v2"@, task_config_document(c)),
    ).push(
        ("rewards_config"@, rewards_config_document(c)),
    ).push(
        ("share_policy"@, JsonView::String(q.share_policy)),
    )
}

/// The configuration of the quest: the members that every quest has, and the
/// call to action where the quest has one.
pub open spec fn config_document(c: CompleteQuestView) -> JsonView {
    match c.quest.cta_link {
        Some(link) => JsonView::Object(
            config_members(c).push(("cta_config"@, cta_document(link, c.quest.cta_button_label))),
        ),
        None => JsonView::Object(config_members(c)),
    }
}

/// The quest in the shape in which the provider sends quests.
pub open spec fn quest_document(c: CompleteQuestView) -> JsonView {
    JsonView::Object(
        no_members().push(
            ("id"@, JsonView::String(c.quest.id)),
        ).push(
            ("config"@, config_document(c)),
        ).push(
            ("user_status"@, JsonView::Null),
        ).push(
            ("targeted_content"@, JsonView::Array(Seq::empty())),
        ).push(
            ("preview"@, JsonView::Bool(c.quest.preview)),
        ),
    )
}

/// The documents of the quests, in order.
pub open spec fn quest_documents(quests: Seq<CompleteQuestView>) -> Seq<JsonView> {
    Seq::new(quests.len(), |i: int| quest_document(quests[i]))
}

/// The catalog in the shape in which the provider sends it.
pub open spec fn catalog_document(quests: Seq<CompleteQuestView>) -> JsonView {
    JsonView::Object(no_members().push(("quests"@, JsonView::Array(quest_documents(quests)))))
}

/// A timestamp as the codec writes it where there is one, null otherwise.
fn opt_time_json(t: &Option<Timestamp>) -> (r: Json)
    ensures
        r@ == opt_time_document(*t),
{
    match t {
        Some(t) => Json::String(t.to_rfc3339()),
        None => Json::Null,
    }
}

/// The application that owns the quest.
fn application_json(q: &Quest) -> (r: Json)
    ensures
        r@ == application_document(q@),
{
    let mut members = new_members();
    push_member(&mut members, "id", Json::String(q.application_id.clone()));
    push_member(&mut members, "name", Json::String(q.application_name.clone()));
    push_member(&mut members, "link", Json::String(q.application_link.clone()));
    Json::Object(members)
}

/// The media of the quest.
fn assets_json(assets: &Option<QuestAssets>) -> (r: Json)
    ensures
        r@ == assets_document(opt_assets_view(*assets)),
{
    let mut members = new_members();
    match assets {
        Some(a) => {
            push_member(&mut members, "hero", Json::from_opt_string(&a.hero));
            push_member(&mut members, "hero_video", Json::from_opt_string(&a.hero_video));
            push_member(&mut members, "quest_bar_hero", Json::from_opt_string(&a.quest_bar_hero));
            push_member(
                &mut members,
                "quest_bar_hero_video",
                Json::from_opt_string(&a.quest_bar_hero_video),
            );
            push_member(&mut members, "game_tile", Json::from_opt_string(&a.game_tile));
            push_member(&mut members, "logotype", Json::from_opt_string(&a.logotype));
            push_member(&mut members, "game_tile_light", Json::from_opt_string(&a.game_tile_light));
            push_member(&mut members, "game_tile_dark", Json::from_opt_string(&a.game_tile_dark));
            push_member(&mut members, "logotype_light", Json::from_opt_string(&a.logotype_light));
            push_member(&mut members, "logotype_dark", Json::from_opt_string(&a.logotype_dark));
        },
        None => {
            push_member(&mut members, "hero", Json::Null);
            push_member(&mut members, "hero_video", Json::Null);
            push_member(&mut members, "quest_bar_hero", Json::Null);
            push_member(&mut members, "quest_bar_hero_video", Json::Null);
            push_member(&mut members, "game_tile", Json::Null);
            push_member(&mut members, "logotype", Json::Null);
            push_member(&mut members, "game_tile_light", Json::Null);
            push_member(&mut members, "game_tile_dark", Json::Null);
            push_member(&mut members, "logotype_light", Json::Null);
            push_member(&mut members, "logotype_dark", Json::Null);
        },
    }
    Json::Object(members)
}

/// The colors of the quest.
fn colors_json(q: &Quest) -> (r: Json)
    ensures
        r@ == colors_document(q@),
{
    let mut members = new_members();
    push_member(&mut members, "primary", Json::from_opt_string(&q.primary_color));
    push_member(&mut members, "secondary", Json::from_opt_string(&q.secondary_color));
    Json::Object(members)
}

/// What is shown of the quest.
fn messages_json(q: &Quest) -> (r: Json)
    ensures
        r@ == messages_document(q@),
{
    let mut members = new_members();
    push_member(&mut members, "quest_name", Json::String(q.quest_name.clone()));
    push_member(&mut members, "game_title", Json::String(q.game_title.clone()));
    push_member(&mut members, "game_publisher", Json::String(q.game_publisher.clone()));
    Json::Object(members)
}

/// One task.
fn task_json(t: &QuestTask) -> (r: Json)
    ensures
        r@ == task_document(t@),
{
    let mut members = new_members();
    push_member(&mut members, "type", Json::String(t.task_type.clone()));
    push_member(&mut members, "target", Json::from_i32(t.target));
    push_member(&mut members, "applications", Json::from_opt(&t.applications));
    push_member(&mut members, "external_ids", Json::from_opt(&t.external_ids));
    Json::Object(members)
}

/// The tasks and how they combine.
fn task_config_json(cq: &CompleteQuest) -> (r: Json)
    ensures
        r@ == task_config_document(cq@),
{
    let mut tasks = new_members();
    let mut i: usize = 0;
    let ghost all = views(cq.tasks@);
    proof {
        assert(all.take(0) =~= Seq::<QuestTaskView>::empty());
    }
    while i < cq.tasks.len()
        invariant
            i <= cq.tasks.len(),
            all == views(cq.tasks@),
            entries_view(tasks@) == tasks_members(all.take(i as int)),
        decreases cq.tasks.len() - i,
    {
        let task = &cq.tasks[i];
        proof {
            assert(all.take(i as int + 1).drop_last() =~= all.take(i as int));
            assert(all.take(i as int + 1).last() == task@);
        }
        put_member(&mut tasks, task.task_type.clone(), task_json(task));
        i = i + 1;
    }
    proof {
        assert(all.take(i as int) =~= all);
    }
    let mut members = new_members();
    push_member(&mut members, "tasks", Json::Object(tasks));
    push_member(&mut members, "join_operator", Json::String(cq.quest.task_join_operator.clone()));
    Json::Object(members)
}

/// How a reward is named.
fn reward_messages_json(r: &QuestReward) -> (j: Json)
    ensures
        j@ == reward_messages_document(r@),
{
    let mut members = new_members();
    push_member(&mut members, "name", Json::String(r.reward_name.clone()));
    push_member(
        &mut members,
        "name_with_article",
        Json::String(r.reward_name_with_article.clone()),
    );
    push_member(
        &mut members,
        "redemption_instructions_by_platform",
        Json::from_opt(&r.redemption_instructions),
    );
    Json::Object(members)
}

/// One reward.
fn reward_json(r: &QuestReward) -> (j: Json)
    ensures
        j@ == reward_document(r@),
{
    let mut members = new_members();
    push_member(&mut members, "type", Json::from_i32(r.reward_type));
    push_member(&mut members, "sku_id", Json::from_opt_string(&r.sku_id));
    push_member(&mut members, "messages", reward_messages_json(r));
    push_member(&mut members, "orb_quantity", Json::from_opt_i32(r.orb_quantity));
    Json::Object(members)
}

/// The rewards of the quest.
fn rewards_config_json(cq: &CompleteQuest) -> (r: Json)
    ensures
        r@ == rewards_config_document(cq@),
{
    let mut rewards = new_items();
    let mut i: usize = 0;
    let ghost all = views(cq.rewards@);
    proof {
        assert(reward_items(all.take(0)) =~= Seq::<JsonView>::empty());
    }
    while i < cq.rewards.len()
        invariant
            i <= cq.rewards.len(),
            all == views(cq.rewards@),
            items_view(rewards@) == reward_items(all.take(i as int)),
        decreases cq.rewards.len() - i,
    {
        let reward = &cq.rewards[i];
        proof {
            assert(reward_items(all.take(i as int)).push(reward_document(reward@)) =~= reward_items(
                all.take(i as int + 1),
            ));
        }
        push_item(&mut rewards, reward_json(reward));
        i = i + 1;
    }
    proof {
        assert(all.take(i as int) =~= all);
    }
    let platform: i32 = if cq.rewards.len() > 0 {
        cq.rewards[0].platform
    } else {
        0
    };
    let mut platforms = new_items();
    push_item(&mut platforms, Json::from_i32(platform));
    proof {
        assert(items_view(platforms@) =~= seq![JsonView::integer(platform as int)]);
    }
    let mut members = new_members();
    push_member(
        &mut members,
        "assignment_method",
        Json::from_i32(cq.quest.reward_assignment_method),
    );
    push_member(&mut members, "rewards", Json::Array(rewards));
    push_member(&mut members, "rewards_expire_at", opt_time_json(&cq.quest.rewards_expire_at));
    push_member(&mut members, "platforms", Json::Array(platforms));
    Json::Object(members)
}

/// The call to action.
fn cta_json(link: &String, label: &Option<String>) -> (r: Json)
    ensures
        r@ == cta_document(link@, opt_text(*label)),
{
    let mut members = new_members();
    push_member(&mut members, "link", Json::String(link.clone()));
    push_member(&mut members, "button_label", Json::from_opt_string(label));
    Json::Object(members)
}

/// The feature flags, in stored order.
fn features_json(features: &Vec<QuestFeature>) -> (r: Json)
    ensures
        r@ == JsonView::Array(feature_items(views(features@))),
{
    let mut items = new_items();
    let mut i: usize = 0;
    let ghost all = views(features@);
    proof {
        assert(feature_items(all.take(0)) =~= Seq::<JsonView>::empty());
    }
    while i < features.len()
        invariant
            i <= features.len(),
            all == views(features@),
            items_view(items@) == feature_items(all.take(i as int)),
        decreases features.len() - i,
    {
        proof {
            assert(feature_items(all.take(i as int)).push(
                JsonView::integer(features[i as int].feature_id as int),
            ) =~= feature_items(all.take(i as int + 1)));
        }
        push_item(&mut items, Json::from_i32(features[i].feature_id));
        i = i + 1;
    }
    proof {
        assert(all.take(i as int) =~= all);
    }
    Json::Array(items)
}

/// The configuration of the quest.
fn config_json(cq: &CompleteQuest) -> (r: Json)
    ensures
        r@ == config_document(cq@),
{
    let q = &cq.quest;
    let mut members = new_members();
    push_member(&mut members, "id", Json::String(q.id.clone()));
    push_member(&mut members, "config_version", Json::from_i32(q.config_version));
    push_member(&mut members, "starts_at", Json::String(q.starts_at.to_rfc3339()));
    push_member(&mut members, "expires_at", Json::String(q.expires_at.to_rfc3339()));
    push_member(&mut members, "features", features_json(&cq.features));
    push_member(&mut members, "application", application_json(q));
    push_member(&mut members, "assets", assets_json(&cq.assets));
    push_member(&mut members, "colors", colors_json(q));
    push_member(&mut members, "messages", messages_json(q));
    push_member(&mut members, "task_config_v2", task_config_json(cq));
    push_member(&mut members, "rewards_config", rewards_config_json(cq));
    push_member(&mut members, "share_policy", Json::String(q.share_policy.clone()));
    match &q.cta_link {
        Some(link) => {
            push_member(&mut members, "cta_config", cta_json(link, &q.cta_button_label));
        },
        None => {},
    }
    Json::Object(members)
}

/// Rebuilds the document of one quest, in the shape in which the provider
/// sends quests, from the quest and all that belongs to it.
pub fn reconstruct_single_quest(cq: &CompleteQuest) -> (r: Json)
    ensures
        r@ == quest_document(cq@),
{
    let mut members = new_members();
    let no_content = new_items();
    push_member(&mut members, "id", Json::String(cq.quest.id.clone()));
    push_member(&mut members, "config", config_json(cq));
    push_member(&mut members, "user_status", Json::Null);
    push_member(&mut members, "targeted_content", Json::Array(no_content));
    push_member(&mut members, "preview", Json::Bool(cq.quest.preview));
    Json::Object(members)
}

/// Rebuilds the catalog from the store: the quests that have not ended more
/// than `age_days` days before the clock's reading, the one that started last
/// coming first, each as its document.
pub fn reconstruct_discord_response(store: &QuestStore, age_days: i64) -> (r: Result<
    Json,
    ApiError,
>)
    ensures
        r matches Ok(document) && document@ == catalog_document(store@.recent(age_days as int)),
{
    let complete_quests = match get_recent_complete_quests(store, age_days) {
        Ok(list) => list,
        Err(e) => {
            return Err(e);
        },
    };
    let mut quests = new_items();
    let mut i: usize = 0;
    let ghost all = views(complete_quests@);
    proof {
        assert(quest_documents(all.take(0)) =~= Seq::<JsonView>::empty());
    }
    while i < complete_quests.len()
        invariant
            i <= complete_quests.len(),
            all == views(complete_quests@),
            items_view(quests@) == quest_documents(all.take(i as int)),
        decreases complete_quests.len() - i,
    {
        let cq = &complete_quests[i];
        proof {
            assert(quest_documents(all.take(i as int)).push(quest_document(cq@)) =~= quest_documents(
                all.take(i as int + 1),
            ));
        }
        push_item(&mut quests, reconstruct_single_quest(cq));
        i = i + 1;
    }
    proof {
        assert(all.take(i as int) =~= all);
    }
    let mut members = new_members();
    push_member(&mut members, "quests", Json::Array(quests));
    Ok(Json::Object(members))
}

} // verus!

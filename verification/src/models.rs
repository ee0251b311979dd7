//! The rows of the normalized store.
//!
//! One quest is held as one [`Quest`] row, at most one [`QuestAssets`] row, and
//! any number of [`QuestTask`], [`QuestReward`] and [`QuestFeature`] rows, each
//! of which names its quest. [`CompleteQuest`] is a quest with all that belongs
//! to it.

use crate::json::{Json, JsonView, opt_json_view};
use crate::text::{clone_opt_json, clone_opt_string, opt_text, views};
use crate::time::Timestamp;
use vstd::prelude::*;

verus! {

/// A quest: its identity, its validity window and what is shown of it.
#[derive(Debug, PartialEq, Eq)]
pub struct Quest {
    /// The identifier that the provider gave the quest.
    pub id: String,
    /// The version of the provider's configuration format.
    pub config_version: i32,
    /// When the quest starts.
    pub starts_at: Timestamp,
    /// When the quest ends.
    pub expires_at: Timestamp,
    /// The identifier of the application that owns the quest.
    pub application_id: String,
    /// The name of that application.
    pub application_name: String,
    /// A link to that application.
    pub application_link: String,
    /// How the quest may be shared.
    pub share_policy: String,
    /// Whether the quest is a preview.
    pub preview: bool,
    /// The first color of the quest's theme.
    pub primary_color: Option<String>,
    /// The second color of the quest's theme.
    pub secondary_color: Option<String>,
    /// The name of the quest.
    pub quest_name: String,
    /// The title of the game.
    pub game_title: String,
    /// The publisher of the game.
    pub game_publisher: String,
    /// Where the call to action leads, if the quest has one.
    pub cta_link: Option<String>,
    /// The label of the call to action, if the quest has one.
    pub cta_button_label: Option<String>,
    /// How the tasks combine: all of them, or any of them.
    pub task_join_operator: String,
    /// How rewards are assigned.
    pub reward_assignment_method: i32,
    /// When the rewards expire, if they do.
    pub rewards_expire_at: Option<Timestamp>,
    /// When the row was first written.
    pub created_at: Timestamp,
    /// When the row was last written.
    pub updated_at: Timestamp,
}

/// The mathematical value of [`Quest`].
pub ghost struct QuestView {
    pub id: Seq<char>,
    pub config_version: i32,
    pub starts_at: Timestamp,
    pub expires_at: Timestamp,
    pub application_id: Seq<char>,
    pub application_name: Seq<char>,
    pub application_link: Seq<char>,
    pub share_policy: Seq<char>,
    pub preview: bool,
    pub primary_color: Option<Seq<char>>,
    pub secondary_color: Option<Seq<char>>,
    pub quest_name: Seq<char>,
    pub game_title: Seq<char>,
    pub game_publisher: Seq<char>,
    pub cta_link: Option<Seq<char>>,
    pub cta_button_label: Option<Seq<char>>,
    pub task_join_operator: Seq<char>,
    pub reward_assignment_method: i32,
    pub rewards_expire_at: Option<Timestamp>,
    pub created_at: Timestamp,
    pub updated_at: Timestamp,
}

impl View for Quest {
    type V = QuestView;

    open spec fn view(&self) -> QuestView {
        QuestView {
            id: self.id@,
            config_version: self.config_version,
            starts_at: self.starts_at,
            expires_at: self.expires_at,
            application_id: self.application_id@,
            application_name: self.application_name@,
            application_link: self.application_link@,
            share_policy: self.share_policy@,
            preview: self.preview,
            primary_color: opt_text(self.primary_color),
            secondary_color: opt_text(self.secondary_color),
            quest_name: self.quest_name@,
            game_title: self.game_title@,
            game_publisher: self.game_publisher@,
            cta_link: opt_text(self.cta_link),
            cta_button_label: opt_text(self.cta_button_label),
            task_join_operator: self.task_join_operator@,
            reward_assignment_method: self.reward_assignment_method,
            rewards_expire_at: self.rewards_expire_at,
            created_at: self.created_at,
            updated_at: self.updated_at,
        }
    }
}

impl Clone for Quest {
    /// A copy with the same value.
    fn clone(&self) -> (r: Quest)
        ensures
            r@ == self@,
    {
        Quest {
            id: self.id.clone(),
            config_version: self.config_version,
            starts_at: self.starts_at,
            expires_at: self.expires_at,
            application_id: self.application_id.clone(),
            application_name: self.application_name.clone(),
            application_link: self.application_link.clone(),
            share_policy: self.share_policy.clone(),
            preview: self.preview,
            primary_color: clone_opt_string(&self.primary_color),
            secondary_color: clone_opt_string(&self.secondary_color),
            quest_name: self.quest_name.clone(),
            game_title: self.game_title.clone(),
            game_publisher: self.game_publisher.clone(),
            cta_link: clone_opt_string(&self.cta_link),
            cta_button_label: clone_opt_string(&self.cta_button_label),
            task_join_operator: self.task_join_operator.clone(),
            reward_assignment_method: self.reward_assignment_method,
            rewards_expire_at: self.rewards_expire_at,
            created_at: self.created_at,
            updated_at: self.updated_at,
        }
    }
}

/// The media of a quest.
#[derive(Debug, PartialEq, Eq)]
pub struct QuestAssets {
    /// The quest that the media belong to.
    pub quest_id: String,
    /// The hero image.
    pub hero: Option<String>,
    /// The hero video.
    pub hero_video: Option<String>,
    /// The hero image of the quest bar.
    pub quest_bar_hero: Option<String>,
    /// The hero video of the quest bar.
    pub quest_bar_hero_video: Option<String>,
    /// The game tile.
    pub game_tile: Option<String>,
    /// The logotype.
    pub logotype: Option<String>,
    /// The game tile for light themes.
    pub game_tile_light: Option<String>,
    /// The game tile for dark themes.
    pub game_tile_dark: Option<String>,
    /// The logotype for light themes.
    pub logotype_light: Option<String>,
    /// The logotype for dark themes.
    pub logotype_dark: Option<String>,
}

/// The mathematical value of [`QuestAssets`].
pub ghost struct QuestAssetsView {
    pub quest_id: Seq<char>,
    pub hero: Option<Seq<char>>,
    pub hero_video: Option<Seq<char>>,
    pub quest_bar_hero: Option<Seq<char>>,
    pub quest_bar_hero_video: Option<Seq<char>>,
    pub game_tile: Option<Seq<char>>,
    pub logotype: Option<Seq<char>>,
    pub game_tile_light: Option<Seq<char>>,
    pub game_tile_dark: Option<Seq<char>>,
    pub logotype_light: Option<Seq<char>>,
    pub logotype_dark: Option<Seq<char>>,
}

impl View for QuestAssets {
    type V = QuestAssetsView;

    open spec fn view(&self) -> QuestAssetsView {
        QuestAssetsView {
            quest_id: self.quest_id@,
            hero: opt_text(self.hero),
            hero_video: opt_text(self.hero_video),
            quest_bar_hero: opt_text(self.quest_bar_hero),
            quest_bar_hero_video: opt_text(self.quest_bar_hero_video),
            game_tile: opt_text(self.game_tile),
            logotype: opt_text(self.logotype),
            game_tile_light: opt_text(self.game_tile_light),
            game_tile_dark: opt_text(self.game_tile_dark),
            logotype_light: opt_text(self.logotype_light),
            logotype_dark: opt_text(self.logotype_dark),
        }
    }
}

impl Clone for QuestAssets {
    /// A copy with the same value.
    fn clone(&self) -> (r: QuestAssets)
        ensures
            r@ == self@,
    {
        QuestAssets {
            quest_id: self.quest_id.clone(),
            hero: clone_opt_string(&self.hero),
            hero_video: clone_opt_string(&self.hero_video),
            quest_bar_hero: clone_opt_string(&self.quest_bar_hero),
            quest_bar_hero_video: clone_opt_string(&self.quest_bar_hero_video),
            game_tile: clone_opt_string(&self.game_tile),
            logotype: clone_opt_string(&self.logotype),
            game_tile_light: clone_opt_string(&self.game_tile_light),
            game_tile_dark: clone_opt_string(&self.game_tile_dark),
            logotype_light: clone_opt_string(&self.logotype_light),
            logotype_dark: clone_opt_string(&self.logotype_dark),
        }
    }
}

/// One task of a quest.
#[derive(Debug, PartialEq, Eq)]
pub struct QuestTask {
    /// The quest that the task belongs to.
    pub quest_id: String,
    /// The kind of task, which also names it within its quest.
    pub task_type: String,
    /// How much of the task is asked for.
    pub target: i32,
    /// The applications that count, as the provider wrote them.
    pub applications: Option<Json>,
    /// The external identifiers that count, as the provider wrote them.
    pub external_ids: Option<Json>,
}

/// The mathematical value of [`QuestTask`].
pub ghost struct QuestTaskView {
    pub quest_id: Seq<char>,
    pub task_type: Seq<char>,
    pub target: i32,
    pub applications: Option<JsonView>,
    pub external_ids: Option<JsonView>,
}

impl View for QuestTask {
    type V = QuestTaskView;

    open spec fn view(&self) -> QuestTaskView {
        QuestTaskView {
            quest_id: self.quest_id@,
            task_type: self.task_type@,
            target: self.target,
            applications: opt_json_view(self.applications),
            external_ids: opt_json_view(self.external_ids),
        }
    }
}

impl Clone for QuestTask {
    /// A copy with the same value.
    fn clone(&self) -> (r: QuestTask)
        ensures
            r@ == self@,
    {
        QuestTask {
            quest_id: self.quest_id.clone(),
            task_type: self.task_type.clone(),
            target: self.target,
            applications: clone_opt_json(&self.applications),
            external_ids: clone_opt_json(&self.external_ids),
        }
    }
}

/// One reward of a quest.
#[derive(Debug, PartialEq, Eq)]
pub struct QuestReward {
    /// The quest that the reward belongs to.
    pub quest_id: String,
    /// The kind of reward.
    pub reward_type: i32,
    /// The SKU of the reward, if it has one.
    pub sku_id: Option<String>,
    /// The name of the reward.
    pub reward_name: String,
    /// The name of the reward with its article.
    pub reward_name_with_article: String,
    /// How many orbs the reward is, if it is orbs.
    pub orb_quantity: Option<i32>,
    /// How to redeem the reward on each platform, as the provider wrote it.
    pub redemption_instructions: Option<Json>,
    /// The platform recorded for the rewards of the quest.
    pub platform: i32,
}

/// The mathematical value of [`QuestReward`].
pub ghost struct QuestRewardView {
    pub quest_id: Seq<char>,
    pub reward_type: i32,
    pub sku_id: Option<Seq<char>>,
    pub reward_name: Seq<char>,
    pub reward_name_with_article: Seq<char>,
    pub orb_quantity: Option<i32>,
    pub redemption_instructions: Option<JsonView>,
    pub platform: i32,
}

impl View for QuestReward {
    type V = QuestRewardView;

    open spec fn view(&self) -> QuestRewardView {
        QuestRewardView {
            quest_id: self.quest_id@,
            reward_type: self.reward_type,
            sku_id: opt_text(self.sku_id),
            reward_name: self.reward_name@,
            reward_name_with_article: self.reward_name_with_article@,
            orb_quantity: self.orb_quantity,
            redemption_instructions: opt_json_view(self.redemption_instructions),
            platform: self.platform,
        }
    }
}

impl Clone for QuestReward {
    /// A copy with the same value.
    fn clone(&self) -> (r: QuestReward)
        ensures
            r@ == self@,
    {
        QuestReward {
            quest_id: self.quest_id.clone(),
            reward_type: self.reward_type,
            sku_id: clone_opt_string(&self.sku_id),
            reward_name: self.reward_name.clone(),
            reward_name_with_article: self.reward_name_with_article.clone(),
            orb_quantity: self.orb_quantity,
            redemption_instructions: clone_opt_json(&self.redemption_instructions),
            platform: self.platform,
        }
    }
}

/// One feature flag of a quest.
#[derive(Debug, PartialEq, Eq)]
pub struct QuestFeature {
    /// The quest that the flag belongs to.
    pub quest_id: String,
    /// The code of the flag.
    pub feature_id: i32,
}

/// The mathematical value of [`QuestFeature`].
pub ghost struct QuestFeatureView {
    pub quest_id: Seq<char>,
    pub feature_id: i32,
}

impl View for QuestFeature {
    type V = QuestFeatureView;

    open spec fn view(&self) -> QuestFeatureView {
        QuestFeatureView {
            quest_id: self.quest_id@,
            feature_id: self.feature_id,
        }
    }
}

impl Clone for QuestFeature {
    /// A copy with the same value.
    fn clone(&self) -> (r: QuestFeature)
        ensures
            r@ == self@,
    {
        QuestFeature {
            quest_id: self.quest_id.clone(),
            feature_id: self.feature_id,
        }
    }
}

/// What one user has done of a quest. The catalog keeps no such rows.
#[derive(Debug, PartialEq, Eq)]
pub struct QuestUserStatus {
    /// The quest that the status belongs to.
    pub quest_id: String,
    /// The user.
    pub user_id: String,
    /// When the user enrolled.
    pub enrolled_at: Option<Timestamp>,
    /// When the user completed the quest.
    pub completed_at: Option<Timestamp>,
    /// When the user claimed the reward.
    pub claimed_at: Option<Timestamp>,
    /// The tier of the claimed reward.
    pub claimed_tier: Option<String>,
    /// How many seconds of a stream the user has watched.
    pub stream_progress_seconds: i32,
    /// Which parts of the quest the user has dismissed.
    pub dismissed_quest_content: i32,
    /// The progress as the provider wrote it.
    pub progress_data: Option<Json>,
    /// When the status last changed.
    pub last_updated: Timestamp,
}

/// The mathematical value of [`QuestUserStatus`].
pub ghost struct QuestUserStatusView {
    pub quest_id: Seq<char>,
    pub user_id: Seq<char>,
    pub enrolled_at: Option<Timestamp>,
    pub completed_at: Option<Timestamp>,
    pub claimed_at: Option<Timestamp>,
    pub claimed_tier: Option<Seq<char>>,
    pub stream_progress_seconds: i32,
    pub dismissed_quest_content: i32,
    pub progress_data: Option<JsonView>,
    pub last_updated: Timestamp,
}

impl View for QuestUserStatus {
    type V = QuestUserStatusView;

    open spec fn view(&self) -> QuestUserStatusView {
        QuestUserStatusView {
            quest_id: self.quest_id@,
            user_id: self.user_id@,
            enrolled_at: self.enrolled_at,
            completed_at: self.completed_at,
            claimed_at: self.claimed_at,
            claimed_tier: opt_text(self.claimed_tier),
            stream_progress_seconds: self.stream_progress_seconds,
            dismissed_quest_content: self.dismissed_quest_content,
            progress_data: opt_json_view(self.progress_data),
            last_updated: self.last_updated,
        }
    }
}

impl Clone for QuestUserStatus {
    /// A copy with the same value.
    fn clone(&self) -> (r: QuestUserStatus)
        ensures
            r@ == self@,
    {
        QuestUserStatus {
            quest_id: self.quest_id.clone(),
            user_id: self.user_id.clone(),
            enrolled_at: self.enrolled_at,
            completed_at: self.completed_at,
            claimed_at: self.claimed_at,
            claimed_tier: clone_opt_string(&self.claimed_tier),
            stream_progress_seconds: self.stream_progress_seconds,
            dismissed_quest_content: self.dismissed_quest_content,
            progress_data: clone_opt_json(&self.progress_data),
            last_updated: self.last_updated,
        }
    }
}

/// A cached document and when it was written.
#[derive(Debug, PartialEq, Eq)]
pub struct CacheStore {
    /// The key under which the document is cached.
    pub id: String,
    /// The document.
    pub data: Json,
    /// When the document was written.
    pub updated_at: Timestamp,
}

/// The mathematical value of [`CacheStore`].
pub ghost struct CacheStoreView {
    pub id: Seq<char>,
    pub data: JsonView,
    pub updated_at: Timestamp,
}

impl View for CacheStore {
    type V = CacheStoreView;

    open spec fn view(&self) -> CacheStoreView {
        CacheStoreView {
            id: self.id@,
            data: self.data@,
            updated_at: self.updated_at,
        }
    }
}

impl Clone for CacheStore {
    /// A copy with the same value.
    fn clone(&self) -> (r: CacheStore)
        ensures
            r@ == self@,
    {
        CacheStore {
            id: self.id.clone(),
            data: self.data.clone(),
            updated_at: self.updated_at,
        }
    }
}

/// The view of an optional asset row.
pub open spec fn opt_assets_view(o: Option<QuestAssets>) -> Option<QuestAssetsView> {
    match o {
        Some(a) => Some(a@),
        None => None,
    }
}

/// The view of an optional cache row.
pub open spec fn opt_cache_view(o: Option<CacheStore>) -> Option<CacheStoreView> {
    match o {
        Some(c) => Some(c@),
        None => None,
    }
}

/// A quest with its media, its tasks, its rewards and its feature flags.
#[derive(Debug, PartialEq, Eq)]
pub struct CompleteQuest {
    /// The quest.
    pub quest: Quest,
    /// Its media, if any were stored.
    pub assets: Option<QuestAssets>,
    /// Its tasks, in stored order.
    pub tasks: Vec<QuestTask>,
    /// Its rewards, in stored order.
    pub rewards: Vec<QuestReward>,
    /// Its feature flags, in stored order.
    pub features: Vec<QuestFeature>,
    /// What users have done of it.
    pub user_statuses: Vec<QuestUserStatus>,
}

/// The mathematical value of [`CompleteQuest`].
pub ghost struct CompleteQuestView {
    pub quest: QuestView,
    pub assets: Option<QuestAssetsView>,
    pub tasks: Seq<QuestTaskView>,
    pub rewards: Seq<QuestRewardView>,
    pub features: Seq<QuestFeatureView>,
    pub user_statuses: Seq<QuestUserStatusView>,
}

impl View for CompleteQuest {
    type V = CompleteQuestView;

    open spec fn view(&self) -> CompleteQuestView {
        CompleteQuestView {
            quest: self.quest@,
            assets: opt_assets_view(self.assets),
            tasks: views(self.tasks@),
            rewards: views(self.rewards@),
            features: views(self.features@),
            user_statuses: views(self.user_statuses@),
        }
    }
}

} // verus!

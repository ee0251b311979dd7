//! The provider's documents.
//!
//! The provider sends its catalog as one JSON document, `{ "quests": [ ... ] }`,
//! in which each quest has an identifier, a configuration and a preview flag.
//! The types here hold such a document member by member. A document is read
//! from JSON by the `from_json` functions, each of which is held to a `parse`
//! function on views: a member that must be there and is not, or that has
//! another type than expected, makes the whole document unreadable; members
//! that are not expected are passed over.

use crate::error::ApiError;
use crate::fields::{
    bool_field, i32_field, i32_list_field, members_field, opt_i32, opt_i32_field, opt_i32_list,
    opt_i32_list_field, opt_list, opt_members, opt_members_field, opt_members_view, opt_string,
    opt_string_field, opt_view, req_bool, req_i32, req_i32_list, req_members, req_string,
    string_field,
};
use crate::json::{entries_view, items_view, lemma_items_view, Json, JsonView};
use crate::text::{lemma_views_push, opt_text, views};
use vstd::prelude::*;

verus! {

/// The application that owns a quest.
#[derive(Debug, PartialEq, Eq)]
pub struct Application {
    /// The identifier of the application.
    pub id: String,
    /// The name of the application.
    pub name: String,
    /// A link to the application.
    pub link: String,
}

/// The mathematical value of [`Application`].
pub ghost struct ApplicationView {
    pub id: Seq<char>,
    pub name: Seq<char>,
    pub link: Seq<char>,
}

impl View for Application {
    type V = ApplicationView;

    open spec fn view(&self) -> ApplicationView {
        ApplicationView {
            id: self.id@,
            name: self.name@,
            link: self.link@,
        }
    }
}

impl ApplicationView {
    /// The [`Application`] that the document `j` holds, or nothing where `j` does
    /// not have the shape of one.
    pub open spec fn parse(j: JsonView) -> Option<ApplicationView> {
        if req_string(j, "id"@) is Some
            && req_string(j, "name"@) is Some
            && req_string(j, "link"@) is Some {
            Some(
                ApplicationView {
                    id: req_string(j, "id"@).unwrap(),
                    name: req_string(j, "name"@).unwrap(),
                    link: req_string(j, "link"@).unwrap(),
                },
            )
        } else {
            None
        }
    }

    /// The [`Application`] under the key `key` of `j`; the member must be there.
    pub open spec fn parse_field(j: JsonView, key: Seq<char>) -> Option<ApplicationView> {
        match j.field(key) {
            Some(v) => ApplicationView::parse(v),
            None => None,
        }
    }
}

impl Application {
    /// Reads the [`Application`] that the document `j` holds.
    pub fn from_json(j: &Json) -> (r: Option<Application>)
        ensures
            opt_view(r) == ApplicationView::parse(j@),
    {
        let id = match string_field(j, "id") {
            Some(v) => v,
            None => {
                return None;
            },
        };
        let name = match string_field(j, "name") {
            Some(v) => v,
            None => {
                return None;
            },
        };
        let link = match string_field(j, "link") {
            Some(v) => v,
            None => {
                return None;
            },
        };
        Some(Application { id, name, link })
    }

    /// Reads the [`Application`] under the key `key` of `j`.
    pub fn field_from_json(j: &Json, key: &str) -> (r: Option<Application>)
        ensures
            opt_view(r) == ApplicationView::parse_field(j@, key@),
    {
        match j.get(key) {
            Some(v) => Application::from_json(v),
            None => None,
        }
    }
}

/// The media of a quest. Each may be missing.
#[derive(Debug, PartialEq, Eq)]
pub struct Assets {
    /// The hero image.
    pub hero: Option<String>,
    /// The hero video.
    pub hero_video: Option<String>,
    /// The hero image of the quest bar.
    pub quest_bar_hero: Option<String>,
    /// The hero video of the quest bar.
    pub quest_bar_hero_video: Option<String>,
    /// The game tile.
    pub game_tile: Option<String>,
    /// The logotype.
    pub logotype: Option<String>,
    /// The game tile for light themes.
    pub game_tile_light: Option<String>,
    /// The game tile for dark themes.
    pub game_tile_dark: Option<String>,
    /// The logotype for light themes.
    pub logotype_light: Option<String>,
    /// The logotype for dark themes.
    pub logotype_dark: Option<String>,
}

/// The mathematical value of [`Assets`].
pub ghost struct AssetsView {
    pub hero: Option<Seq<char>>,
    pub hero_video: Option<Seq<char>>,
    pub quest_bar_hero: Option<Seq<char>>,
    pub quest_bar_hero_video: Option<Seq<char>>,
    pub game_tile: Option<Seq<char>>,
    pub logotype: Option<Seq<char>>,
    pub game_tile_light: Option<Seq<char>>,
    pub game_tile_dark: Option<Seq<char>>,
    pub logotype_light: Option<Seq<char>>,
    pub logotype_dark: Option<Seq<char>>,
}

impl View for Assets {
    type V = AssetsView;

    open spec fn view(&self) -> AssetsView {
        AssetsView {
            hero: opt_text(self.hero),
            hero_video: opt_text(self.hero_video),
            quest_bar_hero: opt_text(self.quest_bar_hero),
            quest_bar_hero_video: opt_text(self.quest_bar_hero_video),
            game_tile: opt_text(self.game_tile),
            logotype: opt_text(self.logotype),
            game_tile_light: opt_text(self.game_tile_light),
            game_tile_dark: opt_text(self.game_tile_dark),
            logotype_light: opt_text(self.logotype_light),
            logotype_dark: opt_text(self.logotype_dark),
        }
    }
}

impl AssetsView {
    /// The [`Assets`] that the document `j` holds, or nothing where `j` does
    /// not have the shape of one.
    pub open spec fn parse(j: JsonView) -> Option<AssetsView> {
        if j is Object
            && opt_string(j, "hero"@) is Some
            && opt_string(j, "hero_video"@) is Some
            && opt_string(j, "quest_bar_hero"@) is Some
            && opt_string(j, "quest_bar_hero_video"@) is Some
            && opt_string(j, "game_tile"@) is Some
            && opt_string(j, "logotype"@) is Some
            && opt_string(j, "game_tile_light"@) is Some
            && opt_string(j, "game_tile_dark"@) is Some
            && opt_string(j, "logotype_light"@) is Some
            && opt_string(j, "logotype_dark"@) is Some {
            Some(
                AssetsView {
                    hero: opt_string(j, "hero"@).unwrap(),
                    hero_video: opt_string(j, "hero_video"@).unwrap(),
                    quest_bar_hero: opt_string(j, "quest_bar_hero"@).unwrap(),
                    quest_bar_hero_video: opt_string(j, "quest_bar_hero_video"@).unwrap(),
                    game_tile: opt_string(j, "game_tile"@).unwrap(),
                    logotype: opt_string(j, "logotype"@).unwrap(),
                    game_tile_light: opt_string(j, "game_tile_light"@).unwrap(),
                    game_tile_dark: opt_string(j, "game_tile_dark"@).unwrap(),
                    logotype_light: opt_string(j, "logotype_light"@).unwrap(),
                    logotype_dark: opt_string(j, "logotype_dark"@).unwrap(),
                },
            )
        } else {
            None
        }
    }

    /// The [`Assets`] under the key `key` of `j`; the member must be there.
    pub open spec fn parse_field(j: JsonView, key: Seq<char>) -> Option<AssetsView> {
        match j.field(key) {
            Some(v) => AssetsView::parse(v),
            None => None,
        }
    }
}

impl Assets {
    /// Reads the [`Assets`] that the document `j` holds.
    pub fn from_json(j: &Json) -> (r: Option<Assets>)
        ensures
            opt_view(r) == AssetsView::parse(j@),
    {
        match j {
            Json::Object(_) => {},
            _ => {
                return None;
            },
        }
        let hero = match opt_string_field(j, "hero") {
            Some(v) => v,
            None => {
                return None;
            },
        };
        let hero_video = match opt_string_field(j, "hero_video") {
            Some(v) => v,
            None => {
                return None;
            },
        };
        let quest_bar_hero = match opt_string_field(j, "quest_bar_hero") {
            Some(v) => v,
            None => {
                return None;
            },
        };
        let quest_bar_hero_video = match opt_string_field(j, "quest_bar_hero_video") {
            Some(v) => v,
            None => {
                return None;
            },
        };
        let game_tile = match opt_string_field(j, "game_tile") {
            Some(v) => v,
            None => {
                return None;
            },
        };
        let logotype = match opt_string_field(j, "logotype") {
            Some(v) => v,
            None => {
                return None;
            },
        };
        let game_tile_light = match opt_string_field(j, "game_tile_light") {
            Some(v) => v,
            None => {
                return None;
            },
        };
        let game_tile_dark = match opt_string_field(j, "game_tile_dark") {
            Some(v) => v,
            None => {
                return None;
            },
        };
        let logotype_light = match opt_string_field(j, "logotype_light") {
            Some(v) => v,
            None => {
                return None;
            },
        };
        let logotype_dark = match opt_string_field(j, "logotype_dark") {
            Some(v) => v,
            None => {
                return None;
            },
        };
        Some(Assets {
            hero,
            hero_video,
            quest_bar_hero,
            quest_bar_hero_video,
            game_tile,
            logotype,
            game_tile_light,
            game_tile_dark,
            logotype_light,
            logotype_dark,
        })
    }

    /// Reads the [`Assets`] under the key `key` of `j`.
    pub fn field_from_json(j: &Json, key: &str) -> (r: Option<Assets>)
        ensures
            opt_view(r) == AssetsView::parse_field(j@, key@),
    {
        match j.get(key) {
            Some(v) => Assets::from_json(v),
            None => None,
        }
    }
}

/// The two colors of a quest's theme.
#[derive(Debug, PartialEq, Eq)]
pub struct Colors {
    /// The first color.
    pub primary: String,
    /// The second color.
    pub secondary: String,
}

/// The mathematical value of [`Colors`].
pub ghost struct ColorsView {
    pub primary: Seq<char>,
    pub secondary: Seq<char>,
}

impl View for Colors {
    type V = ColorsView;

    open spec fn view(&self) -> ColorsView {
        ColorsView {
            primary: self.primary@,
            secondary: self.secondary@,
        }
    }
}

impl ColorsView {
    /// The [`Colors`] that the document `j` holds, or nothing where `j` does
    /// not have the shape of one.
    pub open spec fn parse(j: JsonView) -> Option<ColorsView> {
        if req_string(j, "primary"@) is Some
            && req_string(j, "secondary"@) is Some {
            Some(
                ColorsView {
                    primary: req_string(j, "primary"@).unwrap(),
                    secondary: req_string(j, "secondary"@).unwrap(),
                },
            )
        } else {
            None
        }
    }

    /// The [`Colors`] under the key `key` of `j`; the member must be there.
    pub open spec fn parse_field(j: JsonView, key: Seq<char>) -> Option<ColorsView> {
        match j.field(key) {
            Some(v) => ColorsView::parse(v),
            None => None,
        }
    }
}

impl Colors {
    /// Reads the [`Colors`] that the document `j` holds.
    pub fn from_json(j: &Json) -> (r: Option<Colors>)
        ensures
            opt_view(r) == ColorsView::parse(j@),
    {
        let primary = match string_field(j, "primary") {
            Some(v) => v,
            None => {
                return None;
            },
        };
        let secondary = match string_field(j, "secondary") {
            Some(v) => v,
            None => {
                return None;
            },
        };
        Some(Colors { primary, secondary })
    }

    /// Reads the [`Colors`] under the key `key` of `j`.
    pub fn field_from_json(j: &Json, key: &str) -> (r: Option<Colors>)
        ensures
            opt_view(r) == ColorsView::parse_field(j@, key@),
    {
        match j.get(key) {
            Some(v) => Colors::from_json(v),
            None => None,
        }
    }
}

/// What is shown of a quest.
#[derive(Debug, PartialEq, Eq)]
pub struct Messages {
    /// The name of the quest.
    pub quest_name: String,
    /// The title of the game.
    pub game_title: String,
    /// The publisher of the game.
    pub game_publisher: String,
}

/// The mathematical value of [`Messages`].
pub ghost struct MessagesView {
    pub quest_name: Seq<char>,
    pub game_title: Seq<char>,
    pub game_publisher: Seq<char>,
}

impl View for Messages {
    type V = MessagesView;

    open spec fn view(&self) -> MessagesView {
        MessagesView {
            quest_name: self.quest_name@,
            game_title: self.game_title@,
            game_publisher: self.game_publisher@,
        }
    }
}

impl MessagesView {
    /// The [`Messages`] that the document `j` holds, or nothing where `j` does
    /// not have the shape of one.
    pub open spec fn parse(j: JsonView) -> Option<MessagesView> {
        if req_string(j, "quest_name"@) is Some
            && req_string(j, "game_title"@) is Some
            && req_string(j, "game_publisher"@) is Some {
            Some(
                MessagesView {
                    quest_name: req_string(j, "quest_name"@).unwrap(),
                    game_title: req_string(j, "game_title"@).unwrap(),
                    game_publisher: req_string(j, "game_publisher"@).unwrap(),
                },
            )
        } else {
            None
        }
    }

    /// The [`Messages`] under the key `key` of `j`; the member must be there.
    pub open spec fn parse_field(j: JsonView, key: Seq<char>) -> Option<MessagesView> {
        match j.field(key) {
            Some(v) => MessagesView::parse(v),
            None => None,
        }
    }
}

impl Messages {
    /// Reads the [`Messages`] that the document `j` holds.
    pub fn from_json(j: &Json) -> (r: Option<Messages>)
        ensures
            opt_view(r) == MessagesView::parse(j@),
    {
        let quest_name = match string_field(j, "quest_name") {
            Some(v) => v,
            None => {
                return None;
            },
        };
        let game_title = match string_field(j, "game_title") {
            Some(v) => v,
            None => {
                return None;
            },
        };
        let game_publisher = match string_field(j, "game_publisher") {
            Some(v) => v,
            None => {
                return None;
            },
        };
        Some(Messages { quest_name, game_title, game_publisher })
    }

    /// Reads the [`Messages`] under the key `key` of `j`.
    pub fn field_from_json(j: &Json, key: &str) -> (r: Option<Messages>)
        ensures
            opt_view(r) == MessagesView::parse_field(j@, key@),
    {
        match j.get(key) {
            Some(v) => Messages::from_json(v),
            None => None,
        }
    }
}

/// The tasks of a quest and how they combine.
#[derive(Debug, PartialEq, Eq)]
pub struct TaskConfigV2 {
    /// The tasks, each under its kind, as the provider wrote them.
    pub tasks: Vec<(String, Json)>,
    /// How the tasks combine: all of them, or any of them.
    pub join_operator: String,
}

/// The mathematical value of [`TaskConfigV2`].
pub ghost struct TaskConfigV2View {
    pub tasks: Seq<(Seq<char>, JsonView)>,
    pub join_operator: Seq<char>,
}

impl View for TaskConfigV2 {
    type V = TaskConfigV2View;

    open spec fn view(&self) -> TaskConfigV2View {
        TaskConfigV2View {
            tasks: entries_view(self.tasks@),
            join_operator: self.join_operator@,
        }
    }
}

impl TaskConfigV2View {
    /// The [`TaskConfigV2`] that the document `j` holds, or nothing where `j` does
    /// not have the shape of one.
    pub open spec fn parse(j: JsonView) -> Option<TaskConfigV2View> {
        if req_members(j, "tasks"@) is Some
            && req_string(j, "join_operator"@) is Some {
            Some(
                TaskConfigV2View {
                    tasks: req_members(j, "tasks"@).unwrap(),
                    join_operator: req_string(j, "join_operator"@).unwrap(),
                },
            )
        } else {
            None
        }
    }

    /// The [`TaskConfigV2`] under the key `key` of `j`; the member must be there.
    pub open spec fn parse_field(j: JsonView, key: Seq<char>) -> Option<TaskConfigV2View> {
        match j.field(key) {
            Some(v) => TaskConfigV2View::parse(v),
            None => None,
        }
    }

    /// The [`TaskConfigV2`] under the key `key` of `j`, where the member is there
    /// and not null.
    pub open spec fn parse_opt_field(
        j: JsonView,
        key: Seq<char>,
    ) -> Option<Option<TaskConfigV2View>> {
        match j.field(key) {
            None => Some(None),
            Some(JsonView::Null) => Some(None),
            Some(v) => match TaskConfigV2View::parse(v) {
                Some(x) => Some(Some(x)),
                None => None,
            },
        }
    }
}

impl TaskConfigV2 {
    /// Reads the [`TaskConfigV2`] that the document `j` holds.
    pub fn from_json(j: &Json) -> (r: Option<TaskConfigV2>)
        ensures
            opt_view(r) == TaskConfigV2View::parse(j@),
    {
        let tasks = match members_field(j, "tasks") {
            Some(v) => v,
            None => {
                return None;
            },
        };
        let join_operator = match string_field(j, "join_operator") {
            Some(v) => v,
            None => {
                return None;
            },
        };
        Some(TaskConfigV2 { tasks, join_operator })
    }

    /// Reads the [`TaskConfigV2`] under the key `key` of `j`.
    pub fn field_from_json(j: &Json, key: &str) -> (r: Option<TaskConfigV2>)
        ensures
            opt_view(r) == TaskConfigV2View::parse_field(j@, key@),
    {
        match j.get(key) {
            Some(v) => TaskConfigV2::from_json(v),
            None => None,
        }
    }

    /// Reads the [`TaskConfigV2`] under the key `key` of `j`, where the member is
    /// there and not null.
    pub fn opt_field_from_json(j: &Json, key: &str) -> (r: Option<Option<TaskConfigV2>>)
        ensures
            match r {
                Some(x) => TaskConfigV2View::parse_opt_field(j@, key@) == Some(opt_view(x)),
                None => TaskConfigV2View::parse_opt_field(j@, key@) is None,
            },
    {
        match j.get(key) {
            None => Some(None),
            Some(v) => {
                match v {
                    Json::Null => Some(None),
                    _ => match TaskConfigV2::from_json(v) {
                        Some(x) => Some(Some(x)),
                        None => None,
                    },
                }
            },
        }
    }
}

/// How a reward is named.
#[derive(Debug, PartialEq, Eq)]
pub struct RewardMessages {
    /// The name of the reward.
    pub name: String,
    /// The name of the reward with its article.
    pub name_with_article: String,
    /// How to redeem the reward, under each platform.
    pub redemption_instructions_by_platform: Option<Vec<(String, Json)>>,
}

/// The mathematical value of [`RewardMessages`].
pub ghost struct RewardMessagesView {
    pub name: Seq<char>,
    pub name_with_article: Seq<char>,
    pub redemption_instructions_by_platform: Option<Seq<(Seq<char>, JsonView)>>,
}

impl View for RewardMessages {
    type V = RewardMessagesView;

    open spec fn view(&self) -> RewardMessagesView {
        RewardMessagesView {
            name: self.name@,
            name_with_article: self.name_with_article@,
            redemption_instructions_by_platform: opt_members_view(self.redemption_instructions_by_platform),
        }
    }
}

impl RewardMessagesView {
    /// The [`RewardMessages`] that the document `j` holds, or nothing where `j` does
    /// not have the shape of one.
    pub open spec fn parse(j: JsonView) -> Option<RewardMessagesView> {
        if req_string(j, "name"@) is Some
            && req_string(j, "name_with_article"@) is Some
            && opt_members(j, "redemption_instructions_by_platform"@) is Some {
            Some(
                RewardMessagesView {
                    name: req_string(j, "name"@).unwrap(),
                    name_with_article: req_string(j, "name_with_article"@).unwrap(),
                    redemption_instructions_by_platform: opt_members(
                        j,
                        "redemption_instructions_by_platform"@,
                    ).unwrap(),
                },
            )
        } else {
            None
        }
    }

    /// The [`RewardMessages`] under the key `key` of `j`; the member must be there.
    pub open spec fn parse_field(j: JsonView, key: Seq<char>) -> Option<RewardMessagesView> {
        match j.field(key) {
            Some(v) => RewardMessagesView::parse(v),
            None => None,
        }
    }
}

impl RewardMessages {
    /// Reads the [`RewardMessages`] that the document `j` holds.
    pub fn from_json(j: &Json) -> (r: Option<RewardMessages>)
        ensures
            opt_view(r) == RewardMessagesView::parse(j@),
    {
        let name = match string_field(j, "name") {
            Some(v) => v,
            None => {
                return None;
            },
        };
        let name_with_article = match string_field(j, "name_with_article") {
            Some(v) => v,
            None => {
                return None;
            },
        };
        let redemption_instructions_by_platform = match opt_members_field(
            j,
            "redemption_instructions_by_platform",
        ) {
            Some(v) => v,
            None => {
                return None;
            },
        };
        Some(RewardMessages { name, name_with_article, redemption_instructions_by_platform })
    }

    /// Reads the [`RewardMessages`] under the key `key` of `j`.
    pub fn field_from_json(j: &Json, key: &str) -> (r: Option<RewardMessages>)
        ensures
            opt_view(r) == RewardMessagesView::parse_field(j@, key@),
    {
        match j.get(key) {
            Some(v) => RewardMessages::from_json(v),
            None => None,
        }
    }
}

/// One reward of a quest.
#[derive(Debug, PartialEq, Eq)]
pub struct Reward {
    /// The kind of reward.
    pub reward_type: i32,
    /// The SKU of the reward, if it has one.
    pub sku_id: Option<String>,
    /// How the reward is named.
    pub messages: RewardMessages,
    /// How many orbs the reward is, if it is orbs.
    pub orb_quantity: Option<i32>,
}

/// The mathematical value of [`Reward`].
pub ghost struct RewardView {
    pub reward_type: i32,
    pub sku_id: Option<Seq<char>>,
    pub messages: RewardMessagesView,
    pub orb_quantity: Option<i32>,
}

impl View for Reward {
    type V = RewardView;

    open spec fn view(&self) -> RewardView {
        RewardView {
            reward_type: self.reward_type,
            sku_id: opt_text(self.sku_id),
            messages: self.messages@,
            orb_quantity: self.orb_quantity,
        }
    }
}

impl RewardView {
    /// The [`Reward`] that the document `j` holds, or nothing where `j` does
    /// not have the shape of one.
    pub open spec fn parse(j: JsonView) -> Option<RewardView> {
        if req_i32(j, "type"@) is Some
            && opt_string(j, "sku_id"@) is Some
            && RewardMessagesView::parse_field(j, "messages"@) is Some
            && opt_i32(j, "orb_quantity"@) is Some {
            Some(
                RewardView {
                    reward_type: req_i32(j, "type"@).unwrap(),
                    sku_id: opt_string(j, "sku_id"@).unwrap(),
                    messages: RewardMessagesView::parse_field(j, "messages"@).unwrap(),
                    orb_quantity: opt_i32(j, "orb_quantity"@).unwrap(),
                },
            )
        } else {
            None
        }
    }

    /// The items of an array, each read as [`Reward`].
    pub open spec fn parse_list(items: Seq<JsonView>) -> Option<Seq<RewardView>>
        decreases items.len(),
    {
        if items.len() == 0 {
            Some(Seq::empty())
        } else {
            match (RewardView::parse_list(items.drop_last()), RewardView::parse(items.last())) {
                (Some(rest), Some(x)) => Some(rest.push(x)),
                _ => None,
            }
        }
    }

    /// The array of [`Reward`] under the key `key` of `j`; the member must be
    /// there.
    pub open spec fn parse_list_field(j: JsonView, key: Seq<char>) -> Option<Seq<RewardView>> {
        match j.field(key) {
            Some(JsonView::Array(items)) => RewardView::parse_list(items),
            _ => None,
        }
    }

    /// Where a prefix of an array does not parse, the array does not.
    pub proof fn lemma_parse_list_prefix(items: Seq<JsonView>, n: int)
        requires
            0 <= n <= items.len(),
            RewardView::parse_list(items.take(n)) is None,
        ensures
            RewardView::parse_list(items) is None,
        decreases items.len() - n,
    {
        if n == items.len() {
            assert(items.take(n) =~= items);
        } else {
            assert(items.take(n + 1).drop_last() =~= items.take(n));
            RewardView::lemma_parse_list_prefix(items, n + 1);
        }
    }
}

impl Reward {
    /// Reads the [`Reward`] that the document `j` holds.
    pub fn from_json(j: &Json) -> (r: Option<Reward>)
        ensures
            opt_view(r) == RewardView::parse(j@),
    {
        let reward_type = match i32_field(j, "type") {
            Some(v) => v,
            None => {
                return None;
            },
        };
        let sku_id = match opt_string_field(j, "sku_id") {
            Some(v) => v,
            None => {
                return None;
            },
        };
        let messages = match RewardMessages::field_from_json(j, "messages") {
            Some(v) => v,
            None => {
                return None;
            },
        };
        let orb_quantity = match opt_i32_field(j, "orb_quantity") {
            Some(v) => v,
            None => {
                return None;
            },
        };
        Some(Reward { reward_type, sku_id, messages, orb_quantity })
    }

    /// Reads the items of an array, each as [`Reward`].
    pub fn list_from_json(items: &Vec<Json>) -> (r: Option<Vec<Reward>>)
        ensures
            match r {
                Some(v) => RewardView::parse_list(items_view(items@)) == Some(views(v@)),
                None => RewardView::parse_list(items_view(items@)) is None,
            },
    {
        let mut out: Vec<Reward> = Vec::new();
        let mut i: usize = 0;
        proof {
            lemma_items_view(items@);
            assert(items_view(items@).take(0) =~= Seq::<JsonView>::empty());
            assert(views(out@) =~= Seq::<RewardView>::empty());
        }
        while i < items.len()
            invariant
                i <= items.len(),
                items_view(items@).len() == items.len(),
                forall|k: int| 0 <= k < items.len() ==> #[trigger] items_view(items@)[k] == items[k]@,
                RewardView::parse_list(items_view(items@).take(i as int)) == Some(views(out@)),
            decreases items.len() - i,
        {
            let ghost all = items_view(items@);
            proof {
                assert(all.take(i as int + 1).drop_last() =~= all.take(i as int));
                assert(all.take(i as int + 1).last() == items[i as int]@);
            }
            match Reward::from_json(&items[i]) {
                Some(x) => {
                    proof {
                        lemma_views_push(out@, x);
                    }
                    out.push(x);
                },
                None => {
                    proof {
                        RewardView::lemma_parse_list_prefix(all, i as int + 1);
                    }
                    return None;
                },
            }
            i = i + 1;
        }
        proof {
            assert(items_view(items@).take(i as int) =~= items_view(items@));
        }
        Some(out)
    }

    /// Reads the array of [`Reward`] under the key `key` of `j`.
    pub fn list_field_from_json(j: &Json, key: &str) -> (r: Option<Vec<Reward>>)
        ensures
            match r {
                Some(v) => RewardView::parse_list_field(j@, key@) == Some(views(v@)),
                None => RewardView::parse_list_field(j@, key@) is None,
            },
    {
        match j.get(key) {
            Some(v) => {
                match v {
                    Json::Array(items) => Reward::list_from_json(items),
                    _ => None,
                }
            },
            None => None,
        }
    }
}

/// The rewards of a quest.
#[derive(Debug, PartialEq, Eq)]
pub struct RewardsConfig {
    /// How rewards are assigned.
    pub assignment_method: i32,
    /// The rewards, in order.
    pub rewards: Vec<Reward>,
    /// When the rewards expire, in the wire format, if they do.
    pub rewards_expire_at: Option<String>,
    /// The platforms on which the rewards can be redeemed.
    pub platforms: Vec<i32>,
}

/// The mathematical value of [`RewardsConfig`].
pub ghost struct RewardsConfigView {
    pub assignment_method: i32,
    pub rewards: Seq<RewardView>,
    pub rewards_expire_at: Option<Seq<char>>,
    pub platforms: Seq<i32>,
}

impl View for RewardsConfig {
    type V = RewardsConfigView;

    open spec fn view(&self) -> RewardsConfigView {
        RewardsConfigView {
            assignment_method: self.assignment_method,
            rewards: views(self.rewards@),
            rewards_expire_at: opt_text(self.rewards_expire_at),
            platforms: self.platforms@,
        }
    }
}

impl RewardsConfigView {
    /// The [`RewardsConfig`] that the document `j` holds, or nothing where `j` does
    /// not have the shape of one.
    pub open spec fn parse(j: JsonView) -> Option<RewardsConfigView> {
        if req_i32(j, "assignment_method"@) is Some
            && RewardView::parse_list_field(j, "rewards"@) is Some
            && opt_string(j, "rewards_expire_at"@) is Some
            && req_i32_list(j, "platforms"@) is Some {
            Some(
                RewardsConfigView {
                    assignment_method: req_i32(j, "assignment_method"@).unwrap(),
                    rewards: RewardView::parse_list_field(j, "rewards"@).unwrap(),
                    rewards_expire_at: opt_string(j, "rewards_expire_at"@).unwrap(),
                    platforms: req_i32_list(j, "platforms"@).unwrap(),
                },
            )
        } else {
            None
        }
    }

    /// The [`RewardsConfig`] under the key `key` of `j`; the member must be there.
    pub open spec fn parse_field(j: JsonView, key: Seq<char>) -> Option<RewardsConfigView> {
        match j.field(key) {
            Some(v) => RewardsConfigView::parse(v),
            None => None,
        }
    }
}

impl RewardsConfig {
    /// Reads the [`RewardsConfig`] that the document `j` holds.
    pub fn from_json(j: &Json) -> (r: Option<RewardsConfig>)
        ensures
            opt_view(r) == RewardsConfigView::parse(j@),
    {
        let assignment_method = match i32_field(j, "assignment_method") {
            Some(v) => v,
            None => {
                return None;
            },
        };
        let rewards = match Reward::list_field_from_json(j, "rewards") {
            Some(v) => v,
            None => {
                return None;
            },
        };
        let rewards_expire_at = match opt_string_field(j, "rewards_expire_at") {
            Some(v) => v,
            None => {
                return None;
            },
        };
        let platforms = match i32_list_field(j, "platforms") {
            Some(v) => v,
            None => {
                return None;
            },
        };
        Some(RewardsConfig { assignment_method, rewards, rewards_expire_at, platforms })
    }

    /// Reads the [`RewardsConfig`] under the key `key` of `j`.
    pub fn field_from_json(j: &Json, key: &str) -> (r: Option<RewardsConfig>)
        ensures
            opt_view(r) == RewardsConfigView::parse_field(j@, key@),
    {
        match j.get(key) {
            Some(v) => RewardsConfig::from_json(v),
            None => None,
        }
    }
}

/// A call to action: a link and the label of its button.
#[derive(Debug, PartialEq, Eq)]
pub struct CtaConfig {
    /// Where the call to action leads.
    pub link: String,
    /// The label of its button.
    pub button_label: String,
}

/// The mathematical value of [`CtaConfig`].
pub ghost struct CtaConfigView {
    pub link: Seq<char>,
    pub button_label: Seq<char>,
}

impl View for CtaConfig {
    type V = CtaConfigView;

    open spec fn view(&self) -> CtaConfigView {
        CtaConfigView {
            link: self.link@,
            button_label: self.button_label@,
        }
    }
}

impl CtaConfigView {
    /// The [`CtaConfig`] that the document `j` holds, or nothing where `j` does
    /// not have the shape of one.
    pub open spec fn parse(j: JsonView) -> Option<CtaConfigView> {
        if req_string(j, "link"@) is Some
            && req_string(j, "button_label"@) is Some {
            Some(
                CtaConfigView {
                    link: req_string(j, "link"@).unwrap(),
                    button_label: req_string(j, "button_label"@).unwrap(),
                },
            )
        } else {
            None
        }
    }

    /// The [`CtaConfig`] under the key `key` of `j`; the member must be there.
    pub open spec fn parse_field(j: JsonView, key: Seq<char>) -> Option<CtaConfigView> {
        match j.field(key) {
            Some(v) => CtaConfigView::parse(v),
            None => None,
        }
    }

    /// The [`CtaConfig`] under the key `key` of `j`, where the member is there
    /// and not null.
    pub open spec fn parse_opt_field(j: JsonView, key: Seq<char>) -> Option<Option<CtaConfigView>> {
        match j.field(key) {
            None => Some(None),
            Some(JsonView::Null) => Some(None),
            Some(v) => match CtaConfigView::parse(v) {
                Some(x) => Some(Some(x)),
                None => None,
            },
        }
    }
}

impl CtaConfig {
    /// Reads the [`CtaConfig`] that the document `j` holds.
    pub fn from_json(j: &Json) -> (r: Option<CtaConfig>)
        ensures
            opt_view(r) == CtaConfigView::parse(j@),
    {
        let link = match string_field(j, "link") {
            Some(v) => v,
            None => {
                return None;
            },
        };
        let button_label = match string_field(j, "button_label") {
            Some(v) => v,
            None => {
                return None;
            },
        };
        Some(CtaConfig { link, button_label })
    }

    /// Reads the [`CtaConfig`] under the key `key` of `j`.
    pub fn field_from_json(j: &Json, key: &str) -> (r: Option<CtaConfig>)
        ensures
            opt_view(r) == CtaConfigView::parse_field(j@, key@),
    {
        match j.get(key) {
            Some(v) => CtaConfig::from_json(v),
            None => None,
        }
    }

    /// Reads the [`CtaConfig`] under the key `key` of `j`, where the member is
    /// there and not null.
    pub fn opt_field_from_json(j: &Json, key: &str) -> (r: Option<Option<CtaConfig>>)
        ensures
            match r {
                Some(x) => CtaConfigView::parse_opt_field(j@, key@) == Some(opt_view(x)),
                None => CtaConfigView::parse_opt_field(j@, key@) is None,
            },
    {
        match j.get(key) {
            None => Some(None),
            Some(v) => {
                match v {
                    Json::Null => Some(None),
                    _ => match CtaConfig::from_json(v) {
                        Some(x) => Some(Some(x)),
                        None => None,
                    },
                }
            },
        }
    }
}

/// The configuration of a quest.
#[derive(Debug, PartialEq, Eq)]
pub struct QuestConfig {
    /// The version of the configuration format.
    pub config_version: i32,
    /// When the quest starts, in the wire format.
    pub starts_at: String,
    /// When the quest ends, in the wire format.
    pub expires_at: String,
    /// The feature flags of the quest.
    pub features: Option<Vec<i32>>,
    /// The application that owns the quest.
    pub application: Application,
    /// The media of the quest.
    pub assets: Assets,
    /// The colors of the quest's theme.
    pub colors: Colors,
    /// What is shown of the quest.
    pub messages: Messages,
    /// The tasks of the quest.
    pub task_config_v2: Option<TaskConfigV2>,
    /// The rewards of the quest.
    pub rewards_config: RewardsConfig,
    /// How the quest may be shared.
    pub share_policy: String,
    /// The call to action of the quest, if it has one.
    pub cta_config: Option<CtaConfig>,
}

/// The mathematical value of [`QuestConfig`].
pub ghost struct QuestConfigView {
    pub config_version: i32,
    pub starts_at: Seq<char>,
    pub expires_at: Seq<char>,
    pub features: Option<Seq<i32>>,
    pub application: ApplicationView,
    pub assets: AssetsView,
    pub colors: ColorsView,
    pub messages: MessagesView,
    pub task_config_v2: Option<TaskConfigV2View>,
    pub rewards_config: RewardsConfigView,
    pub share_policy: Seq<char>,
    pub cta_config: Option<CtaConfigView>,
}

impl View for QuestConfig {
    type V = QuestConfigView;

    open spec fn view(&self) -> QuestConfigView {
        QuestConfigView {
            config_version: self.config_version,
            starts_at: self.starts_at@,
            expires_at: self.expires_at@,
            features: opt_list(self.features),
            application: self.application@,
            assets: self.assets@,
            colors: self.colors@,
            messages: self.messages@,
            task_config_v2: opt_view(self.task_config_v2),
            rewards_config: self.rewards_config@,
            share_policy: self.share_policy@,
            cta_config: opt_view(self.cta_config),
        }
    }
}

impl QuestConfigView {
    /// The [`QuestConfig`] that the document `j` holds, or nothing where `j` does
    /// not have the shape of one.
    pub open spec fn parse(j: JsonView) -> Option<QuestConfigView> {
        if req_i32(j, "config_version"@) is Some
            && req_string(j, "starts_at"@) is Some
            && req_string(j, "expires_at"@) is Some
            && opt_i32_list(j, "features"@) is Some
            && ApplicationView::parse_field(j, "application"@) is Some
            && AssetsView::parse_field(j, "assets"@) is Some
            && ColorsView::parse_field(j, "colors"@) is Some
            && MessagesView::parse_field(j, "messages"@) is Some
            && TaskConfigV2View::parse_opt_field(j, "task_config_v2"@) is Some
            && RewardsConfigView::parse_field(j, "rewards_config"@) is Some
            && req_string(j, "share_policy"@) is Some
            && CtaConfigView::parse_opt_field(j, "cta_config"@) is Some {
            Some(
                QuestConfigView {
                    config_version: req_i32(j, "config_version"@).unwrap(),
                    starts_at: req_string(j, "starts_at"@).unwrap(),
                    expires_at: req_string(j, "expires_at"@).unwrap(),
                    features: opt_i32_list(j, "features"@).unwrap(),
                    application: ApplicationView::parse_field(j, "application"@).unwrap(),
                    assets: AssetsView::parse_field(j, "assets"@).unwrap(),
                    colors: ColorsView::parse_field(j, "colors"@).unwrap(),
                    messages: MessagesView::parse_field(j, "messages"@).unwrap(),
                    task_config_v2: TaskConfigV2View::parse_opt_field(
                        j,
                        "task_config_v2"@,
                    ).unwrap(),
                    rewards_config: RewardsConfigView::parse_field(j, "rewards_config"@).unwrap(),
                    share_policy: req_string(j, "share_policy"@).unwrap(),
                    cta_config: CtaConfigView::parse_opt_field(j, "cta_config"@).unwrap(),
                },
            )
        } else {
            None
        }
    }

    /// The [`QuestConfig`] under the key `key` of `j`; the member must be there.
    pub open spec fn parse_field(j: JsonView, key: Seq<char>) -> Option<QuestConfigView> {
        match j.field(key) {
            Some(v) => QuestConfigView::parse(v),
            None => None,
        }
    }
}

impl QuestConfig {
    /// Reads the [`QuestConfig`] that the document `j` holds.
    pub fn from_json(j: &Json) -> (r: Option<QuestConfig>)
        ensures
            opt_view(r) == QuestConfigView::parse(j@),
    {
        let config_version = match i32_field(j, "config_version") {
            Some(v) => v,
            None => {
                return None;
            },
        };
        let starts_at = match string_field(j, "starts_at") {
            Some(v) => v,
            None => {
                return None;
            },
        };
        let expires_at = match string_field(j, "expires_at") {
            Some(v) => v,
            None => {
                return None;
            },
        };
        let features = match opt_i32_list_field(j, "features") {
            Some(v) => v,
            None => {
                return None;
            },
        };
        let application = match Application::field_from_json(j, "application") {
            Some(v) => v,
            None => {
                return None;
            },
        };
        let assets = match Assets::field_from_json(j, "assets") {
            Some(v) => v,
            None => {
                return None;
            },
        };
        let colors = match Colors::field_from_json(j, "colors") {
            Some(v) => v,
            None => {
                return None;
            },
        };
        let messages = match Messages::field_from_json(j, "messages") {
            Some(v) => v,
            None => {
                return None;
            },
        };
        let task_config_v2 = match TaskConfigV2::opt_field_from_json(j, "task_config_v2") {
            Some(v) => v,
            None => {
                return None;
            },
        };
        let rewards_config = match RewardsConfig::field_from_json(j, "rewards_config") {
            Some(v) => v,
            None => {
                return None;
            },
        };
        let share_policy = match string_field(j, "share_policy") {
            Some(v) => v,
            None => {
                return None;
            },
        };
        let cta_config = match CtaConfig::opt_field_from_json(j, "cta_config") {
            Some(v) => v,
            None => {
                return None;
            },
        };
        Some(QuestConfig {
            config_version,
            starts_at,
            expires_at,
            features,
            application,
            assets,
            colors,
            messages,
            task_config_v2,
            rewards_config,
            share_policy,
            cta_config,
        })
    }

    /// Reads the [`QuestConfig`] under the key `key` of `j`.
    pub fn field_from_json(j: &Json, key: &str) -> (r: Option<QuestConfig>)
        ensures
            opt_view(r) == QuestConfigView::parse_field(j@, key@),
    {
        match j.get(key) {
            Some(v) => QuestConfig::from_json(v),
            None => None,
        }
    }
}

/// One quest as the provider sends it.
#[derive(Debug, PartialEq, Eq)]
pub struct DiscordQuest {
    /// The identifier of the quest.
    pub id: String,
    /// The configuration of the quest.
    pub config: QuestConfig,
    /// Whether the quest is a preview.
    pub preview: bool,
}

/// The mathematical value of [`DiscordQuest`].
pub ghost struct DiscordQuestView {
    pub id: Seq<char>,
    pub config: QuestConfigView,
    pub preview: bool,
}

impl View for DiscordQuest {
    type V = DiscordQuestView;

    open spec fn view(&self) -> DiscordQuestView {
        DiscordQuestView {
            id: self.id@,
            config: self.config@,
            preview: self.preview,
        }
    }
}

impl DiscordQuestView {
    /// The [`DiscordQuest`] that the document `j` holds, or nothing where `j` does
    /// not have the shape of one.
    pub open spec fn parse(j: JsonView) -> Option<DiscordQuestView> {
        if req_string(j, "id"@) is Some
            && QuestConfigView::parse_field(j, "config"@) is Some
            && req_bool(j, "preview"@) is Some {
            Some(
                DiscordQuestView {
                    id: req_string(j, "id"@).unwrap(),
                    config: QuestConfigView::parse_field(j, "config"@).unwrap(),
                    preview: req_bool(j, "preview"@).unwrap(),
                },
            )
        } else {
            None
        }
    }

    /// The items of an array, each read as [`DiscordQuest`].
    pub open spec fn parse_list(items: Seq<JsonView>) -> Option<Seq<DiscordQuestView>>
        decreases items.len(),
    {
        if items.len() == 0 {
            Some(Seq::empty())
        } else {
            match (
                DiscordQuestView::parse_list(items.drop_last()),
                DiscordQuestView::parse(items.last()),
            ) {
                (Some(rest), Some(x)) => Some(rest.push(x)),
                _ => None,
            }
        }
    }

    /// The array of [`DiscordQuest`] under the key `key` of `j`; the member must be
    /// there.
    pub open spec fn parse_list_field(
        j: JsonView,
        key: Seq<char>,
    ) -> Option<Seq<DiscordQuestView>> {
        match j.field(key) {
            Some(JsonView::Array(items)) => DiscordQuestView::parse_list(items),
            _ => None,
        }
    }

    /// Where a prefix of an array does not parse, the array does not.
    pub proof fn lemma_parse_list_prefix(items: Seq<JsonView>, n: int)
        requires
            0 <= n <= items.len(),
            DiscordQuestView::parse_list(items.take(n)) is None,
        ensures
            DiscordQuestView::parse_list(items) is None,
        decreases items.len() - n,
    {
        if n == items.len() {
            assert(items.take(n) =~= items);
        } else {
            assert(items.take(n + 1).drop_last() =~= items.take(n));
            DiscordQuestView::lemma_parse_list_prefix(items, n + 1);
        }
    }
}

impl DiscordQuest {
    /// Reads the [`DiscordQuest`] that the document `j` holds.
    pub fn from_json(j: &Json) -> (r: Option<DiscordQuest>)
        ensures
            opt_view(r) == DiscordQuestView::parse(j@),
    {
        let id = match string_field(j, "id") {
            Some(v) => v,
            None => {
                return None;
            },
        };
        let config = match QuestConfig::field_from_json(j, "config") {
            Some(v) => v,
            None => {
                return None;
            },
        };
        let preview = match bool_field(j, "preview") {
            Some(v) => v,
            None => {
                return None;
            },
        };
        Some(DiscordQuest { id, config, preview })
    }

    /// Reads the items of an array, each as [`DiscordQuest`].
    pub fn list_from_json(items: &Vec<Json>) -> (r: Option<Vec<DiscordQuest>>)
        ensures
            match r {
                Some(v) => DiscordQuestView::parse_list(items_view(items@)) == Some(views(v@)),
                None => DiscordQuestView::parse_list(items_view(items@)) is None,
            },
    {
        let mut out: Vec<DiscordQuest> = Vec::new();
        let mut i: usize = 0;
        proof {
            lemma_items_view(items@);
            assert(items_view(items@).take(0) =~= Seq::<JsonView>::empty());
            assert(views(out@) =~= Seq::<DiscordQuestView>::empty());
        }
        while i < items.len()
            invariant
                i <= items.len(),
                items_view(items@).len() == items.len(),
                forall|k: int| 0 <= k < items.len() ==> #[trigger] items_view(items@)[k] == items[k]@,
                DiscordQuestView::parse_list(items_view(items@).take(i as int)) == Some(views(out@)),
            decreases items.len() - i,
        {
            let ghost all = items_view(items@);
            proof {
                assert(all.take(i as int + 1).drop_last() =~= all.take(i as int));
                assert(all.take(i as int + 1).last() == items[i as int]@);
            }
            match DiscordQuest::from_json(&items[i]) {
                Some(x) => {
                    proof {
                        lemma_views_push(out@, x);
                    }
                    out.push(x);
                },
                None => {
                    proof {
                        DiscordQuestView::lemma_parse_list_prefix(all, i as int + 1);
                    }
                    return None;
                },
            }
            i = i + 1;
        }
        proof {
            assert(items_view(items@).take(i as int) =~= items_view(items@));
        }
        Some(out)
    }

    /// Reads the array of [`DiscordQuest`] under the key `key` of `j`.
    pub fn list_field_from_json(j: &Json, key: &str) -> (r: Option<Vec<DiscordQuest>>)
        ensures
            match r {
                Some(v) => DiscordQuestView::parse_list_field(j@, key@) == Some(views(v@)),
                None => DiscordQuestView::parse_list_field(j@, key@) is None,
            },
    {
        match j.get(key) {
            Some(v) => {
                match v {
                    Json::Array(items) => DiscordQuest::list_from_json(items),
                    _ => None,
                }
            },
            None => None,
        }
    }
}

/// The catalog as the provider sends it.
#[derive(Debug, PartialEq, Eq)]
pub struct DiscordQuestResponse {
    /// The quests, in order.
    pub quests: Vec<DiscordQuest>,
}

/// The mathematical value of [`DiscordQuestResponse`].
pub ghost struct DiscordQuestResponseView {
    pub quests: Seq<DiscordQuestView>,
}

impl View for DiscordQuestResponse {
    type V = DiscordQuestResponseView;

    open spec fn view(&self) -> DiscordQuestResponseView {
        DiscordQuestResponseView {
            quests: views(self.quests@),
        }
    }
}

impl DiscordQuestResponseView {
    /// The [`DiscordQuestResponse`] that the document `j` holds, or nothing where `j` does
    /// not have the shape of one.
    pub open spec fn parse(j: JsonView) -> Option<DiscordQuestResponseView> {
        if DiscordQuestView::parse_list_field(j, "quests"@) is Some {
            Some(
                DiscordQuestResponseView {
                    quests: DiscordQuestView::parse_list_field(j, "quests"@).unwrap(),
                },
            )
        } else {
            None
        }
    }
}

impl DiscordQuestResponse {
    /// Reads the [`DiscordQuestResponse`] that the document `j` holds.
    pub fn from_json(j: &Json) -> (r: Option<DiscordQuestResponse>)
        ensures
            opt_view(r) == DiscordQuestResponseView::parse(j@),
    {
        let quests = match DiscordQuest::list_field_from_json(j, "quests") {
            Some(v) => v,
            None => {
                return None;
            },
        };
        Some(DiscordQuestResponse { quests })
    }
}

/// The message of the failure that an unreadable catalog gives.
pub open spec fn unreadable_catalog_message() -> Seq<char> {
    "Failed to parse Discord response: the document does not have the expected shape"@
}

/// Reads the catalog that the provider sent.
///
/// Succeeds exactly on the documents that have the shape of a catalog, with
/// what they say. Every other document is a mapping failure.
pub fn parse_discord_response(response: &Json) -> (r: Result<DiscordQuestResponse, ApiError>)
    ensures
        match r {
            Ok(catalog) => DiscordQuestResponseView::parse(response@) == Some(catalog@),
            Err(e) => DiscordQuestResponseView::parse(response@) is None && e is InternalError
                && e.message() == unreadable_catalog_message(),
        },
{
    match DiscordQuestResponse::from_json(response) {
        Some(catalog) => Ok(catalog),
        None => Err(
            ApiError::InternalError(
                "Failed to parse Discord response: the document does not have the expected shape".to_owned(),
            ),
        ),
    }
}

} // verus!

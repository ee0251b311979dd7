//! The normalized store.
//!
//! A [`QuestStore`] holds the quests with what belongs to them, each kind of
//! row in a table of its own, the cached documents, and a clock from which the
//! rows and the cache take their times of writing. Every row that belongs to a
//! quest names a quest that is stored, no two quests have the same identifier,
//! and no quest has more than one row of media: this holds of every store,
//! after every operation.

use crate::error::ApiError;
use crate::json::{Json, JsonView, opt_json_view};
use crate::models::{
    CacheStore, CacheStoreView, CompleteQuest, CompleteQuestView, Quest, QuestAssets,
    QuestAssetsView, QuestFeature, QuestFeatureView, QuestReward, QuestRewardView, QuestTask,
    QuestTaskView, QuestUserStatus, QuestUserStatusView, QuestView, opt_cache_view,
};
use crate::text::{
    clone_opt_json, clone_opt_string, contains_text, lemma_views_push, opt_str_text, opt_text,
    own_opt_str, texts, views,
};
use crate::time::{NANOS_PER_DAY, Timestamp};
use vstd::prelude::*;
use vstd::string::*;

verus! {

/// A row that belongs to a quest.
pub trait Child {
    /// The identifier of the quest that the row belongs to.
    spec fn owner(&self) -> Seq<char>;
}

impl Child for QuestAssetsView {
    open spec fn owner(&self) -> Seq<char> {
        self.quest_id
    }
}

impl Child for QuestTaskView {
    open spec fn owner(&self) -> Seq<char> {
        self.quest_id
    }
}

impl Child for QuestRewardView {
    open spec fn owner(&self) -> Seq<char> {
        self.quest_id
    }
}

impl Child for QuestFeatureView {
    open spec fn owner(&self) -> Seq<char> {
        self.quest_id
    }
}

impl Child for QuestUserStatusView {
    open spec fn owner(&self) -> Seq<char> {
        self.quest_id
    }
}

/// The rows of `rows` that belong to the quest `id`, in order.
pub open spec fn owned_by<T: Child>(rows: Seq<T>, id: Seq<char>) -> Seq<T>
    decreases rows.len(),
{
    if rows.len() == 0 {
        Seq::empty()
    } else if rows.last().owner() == id {
        owned_by(rows.drop_last(), id).push(rows.last())
    } else {
        owned_by(rows.drop_last(), id)
    }
}

/// The rows of `rows` that belong to another quest than `id`, in order.
pub open spec fn not_owned_by<T: Child>(rows: Seq<T>, id: Seq<char>) -> Seq<T>
    decreases rows.len(),
{
    if rows.len() == 0 {
        Seq::empty()
    } else if rows.last().owner() != id {
        not_owned_by(rows.drop_last(), id).push(rows.last())
    } else {
        not_owned_by(rows.drop_last(), id)
    }
}

/// Whether every row of `rows` belongs to the quest `id`.
pub open spec fn all_owned_by<T: Child>(rows: Seq<T>, id: Seq<char>) -> bool {
    forall|i: int| 0 <= i < rows.len() ==> (#[trigger] rows[i]).owner() == id
}

/// Whether every row of `rows` belongs to one of `quests`.
pub open spec fn all_have_quest<T: Child>(rows: Seq<T>, quests: Seq<QuestView>) -> bool {
    forall|i: int| 0 <= i < rows.len() ==> has_id(quests, (#[trigger] rows[i]).owner())
}

/// Whether one of `quests` has the identifier `id`.
pub open spec fn has_id(quests: Seq<QuestView>, id: Seq<char>) -> bool {
    exists|i: int| 0 <= i < quests.len() && (#[trigger] quests[i]).id == id
}

/// Whether `i` is the place of the first of `quests` that has the identifier
/// `id`.
pub open spec fn is_first_with_id(quests: Seq<QuestView>, id: Seq<char>, i: int) -> bool {
    &&& 0 <= i < quests.len()
    &&& quests[i].id == id
    &&& forall|k: int| 0 <= k < i ==> (#[trigger] quests[k]).id != id
}

/// The place of the first of `quests` that has the identifier `id`.
pub open spec fn index_of_id(quests: Seq<QuestView>, id: Seq<char>) -> int {
    choose|i: int| is_first_with_id(quests, id, i)
}

/// Whether no two of `quests` have the same identifier.
pub open spec fn distinct_ids(quests: Seq<QuestView>) -> bool {
    forall|i: int, j: int|
        0 <= i < j < quests.len() ==> (#[trigger] quests[i]).id != (#[trigger] quests[j]).id
}

/// Whether no two of `rows` belong to the same quest.
pub open spec fn distinct_owners<T: Child>(rows: Seq<T>) -> bool {
    forall|i: int, j: int|
        0 <= i < j < rows.len() ==> (#[trigger] rows[i]).owner() != (#[trigger] rows[j]).owner()
}

/// Whether one of `rows` is cached under `key`.
pub open spec fn has_key(rows: Seq<CacheStoreView>, key: Seq<char>) -> bool {
    exists|i: int| 0 <= i < rows.len() && (#[trigger] rows[i]).id == key
}

/// Whether `i` is the place of the first of `rows` that is cached under `key`.
pub open spec fn is_first_with_key(rows: Seq<CacheStoreView>, key: Seq<char>, i: int) -> bool {
    &&& 0 <= i < rows.len()
    &&& rows[i].id == key
    &&& forall|k: int| 0 <= k < i ==> (#[trigger] rows[k]).id != key
}

/// The place of the first of `rows` that is cached under `key`.
pub open spec fn index_of_key(rows: Seq<CacheStoreView>, key: Seq<char>) -> int {
    choose|i: int| is_first_with_key(rows, key, i)
}

/// Whether no two of `rows` are cached under the same key.
pub open spec fn distinct_keys(rows: Seq<CacheStoreView>) -> bool {
    forall|i: int, j: int|
        0 <= i < j < rows.len() ==> (#[trigger] rows[i]).id != (#[trigger] rows[j]).id
}

/// The identifiers of `quests`, in order.
pub open spec fn ids_of(quests: Seq<QuestView>) -> Seq<Seq<char>> {
    Seq::new(quests.len(), |i: int| quests[i].id)
}

/// Whether one of `rows` belongs to the quest `id`.
pub open spec fn has_owner<T: Child>(rows: Seq<T>, id: Seq<char>) -> bool {
    exists|i: int| 0 <= i < rows.len() && (#[trigger] rows[i]).owner() == id
}

/// Whether `i` is the place of the first of `rows` that belongs to the quest
/// `id`.
pub open spec fn is_first_owned<T: Child>(rows: Seq<T>, id: Seq<char>, i: int) -> bool {
    &&& 0 <= i < rows.len()
    &&& rows[i].owner() == id
    &&& forall|k: int| 0 <= k < i ==> (#[trigger] rows[k]).owner() != id
}

/// The place of the first of `rows` that belongs to the quest `id`.
pub open spec fn index_of_owner<T: Child>(rows: Seq<T>, id: Seq<char>) -> int {
    choose|i: int| is_first_owned(rows, id, i)
}

/// Whether the quest has not ended before `cutoff`.
pub open spec fn is_recent(quest: QuestView, cutoff: int) -> bool {
    quest.expires_at.instant() >= cutoff
}

/// The quests of `quests` that have not ended before `cutoff`, in order.
pub open spec fn recent_only(quests: Seq<QuestView>, cutoff: int) -> Seq<QuestView>
    decreases quests.len(),
{
    if quests.len() == 0 {
        Seq::empty()
    } else if is_recent(quests.last(), cutoff) {
        recent_only(quests.drop_last(), cutoff).push(quests.last())
    } else {
        recent_only(quests.drop_last(), cutoff)
    }
}

/// `rows` with `quest` put in after the last row that starts no earlier than
/// it does.
pub open spec fn insert_by_start(rows: Seq<QuestView>, quest: QuestView) -> Seq<QuestView>
    decreases rows.len(),
{
    if rows.len() == 0 {
        seq![quest]
    } else if rows.last().starts_at.instant() >= quest.starts_at.instant() {
        rows.push(quest)
    } else {
        insert_by_start(rows.drop_last(), quest).push(rows.last())
    }
}

/// `rows` in the order of their start, the latest first; rows that start at
/// the same instant keep their order.
pub open spec fn latest_first(rows: Seq<QuestView>) -> Seq<QuestView>
    decreases rows.len(),
{
    if rows.len() == 0 {
        Seq::empty()
    } else {
        insert_by_start(latest_first(rows.drop_last()), rows.last())
    }
}

/// Whether each row starts no later than the row before it.
pub open spec fn starts_descend(rows: Seq<QuestView>) -> bool {
    forall|i: int, j: int|
        0 <= i < j < rows.len() ==> (#[trigger] rows[i]).starts_at.instant() >= (
        #[trigger] rows[j]).starts_at.instant()
}

/// The message of the failure to write a row for a quest that is not stored.
pub open spec fn unknown_quest_message() -> Seq<char> {
    "Cannot add or update a child row: the quest is not stored"@
}

/// The message of the failure to find the quest `id`.
pub open spec fn quest_not_found_message(id: Seq<char>) -> Seq<char> {
    "no quest is stored under the identifier "@ + id
}

/// What a store holds.
pub ghost struct StoreView {
    /// The quests, in the order in which they were first written.
    pub quests: Seq<QuestView>,
    /// The media rows.
    pub assets: Seq<QuestAssetsView>,
    /// The task rows.
    pub tasks: Seq<QuestTaskView>,
    /// The reward rows.
    pub rewards: Seq<QuestRewardView>,
    /// The feature rows.
    pub features: Seq<QuestFeatureView>,
    /// The user status rows.
    pub user_statuses: Seq<QuestUserStatusView>,
    /// The cached documents.
    pub cache: Seq<CacheStoreView>,
    /// The reading of the store's clock.
    pub now: Timestamp,
}

impl StoreView {
    /// The invariant of the data model: identifiers are unique, and every row
    /// that belongs to a quest names one that is stored.
    pub open spec fn wf(self) -> bool {
        &&& distinct_ids(self.quests)
        &&& distinct_owners(self.assets)
        &&& distinct_keys(self.cache)
        &&& all_have_quest(self.assets, self.quests)
        &&& all_have_quest(self.tasks, self.quests)
        &&& all_have_quest(self.rewards, self.quests)
        &&& all_have_quest(self.features, self.quests)
        &&& all_have_quest(self.user_statuses, self.quests)
    }

    /// A store that holds nothing, with its clock at `now`.
    pub open spec fn empty(now: Timestamp) -> StoreView {
        StoreView {
            quests: Seq::empty(),
            assets: Seq::empty(),
            tasks: Seq::empty(),
            rewards: Seq::empty(),
            features: Seq::empty(),
            user_statuses: Seq::empty(),
            cache: Seq::empty(),
            now,
        }
    }

    /// The store with its clock at `now`.
    pub open spec fn at(self, now: Timestamp) -> StoreView {
        StoreView { now, ..self }
    }

    /// Whether a quest with the identifier `id` is stored.
    pub open spec fn has_quest(self, id: Seq<char>) -> bool {
        has_id(self.quests, id)
    }

    /// The identifiers of the stored quests.
    pub open spec fn known_ids(self) -> Seq<Seq<char>> {
        ids_of(self.quests)
    }

    /// The row written for `quest`: the quest as given, first written when the
    /// stored row was, or now where there is none, and last written now.
    pub open spec fn quest_row(self, quest: QuestView) -> QuestView {
        QuestView {
            created_at: if self.has_quest(quest.id) {
                self.quests[index_of_id(self.quests, quest.id)].created_at
            } else {
                self.now
            },
            updated_at: self.now,
            ..quest
        }
    }

    /// The store after `quest` was written: in the place of the stored quest
    /// with its identifier, or after all others where there is none.
    pub open spec fn with_quest(self, quest: QuestView) -> StoreView {
        if self.has_quest(quest.id) {
            StoreView {
                quests: self.quests.update(
                    index_of_id(self.quests, quest.id),
                    self.quest_row(quest),
                ),
                ..self
            }
        } else {
            StoreView { quests: self.quests.push(self.quest_row(quest)), ..self }
        }
    }

    /// The media of the quest `id`, if any are stored.
    pub open spec fn assets_of(self, id: Seq<char>) -> Option<QuestAssetsView> {
        if has_owner(self.assets, id) {
            Some(self.assets[index_of_owner(self.assets, id)])
        } else {
            None
        }
    }

    /// The store after the media row `row` was written: over the stored row
    /// of its quest, or as a new row. Nothing is written for a quest that is
    /// not stored.
    pub open spec fn with_assets(self, row: QuestAssetsView) -> StoreView {
        if !self.has_quest(row.quest_id) {
            self
        } else if has_owner(self.assets, row.quest_id) {
            StoreView {
                assets: self.assets.update(index_of_owner(self.assets, row.quest_id), row),
                ..self
            }
        } else {
            StoreView { assets: self.assets.push(row), ..self }
        }
    }

    /// Whether `n` rows can be written for the quest `id`: none always can, and
    /// one or more only where the quest is stored.
    pub open spec fn accepts_children(self, id: Seq<char>, n: nat) -> bool {
        n == 0 || self.has_quest(id)
    }

    /// The store after the tasks of the quest `id` were replaced by `rows`.
    pub open spec fn with_tasks(self, id: Seq<char>, rows: Seq<QuestTaskView>) -> StoreView {
        StoreView { tasks: not_owned_by(self.tasks, id) + rows, ..self }
    }

    /// The store after the rewards of the quest `id` were replaced by `rows`.
    pub open spec fn with_rewards(self, id: Seq<char>, rows: Seq<QuestRewardView>) -> StoreView {
        StoreView { rewards: not_owned_by(self.rewards, id) + rows, ..self }
    }

    /// The store after the feature flags of the quest `id` were replaced by
    /// `rows`.
    pub open spec fn with_features(self, id: Seq<char>, rows: Seq<QuestFeatureView>) -> StoreView {
        StoreView { features: not_owned_by(self.features, id) + rows, ..self }
    }

    /// The quest `id` with all that belongs to it.
    pub open spec fn complete(self, id: Seq<char>) -> CompleteQuestView {
        CompleteQuestView {
            quest: self.quests[index_of_id(self.quests, id)],
            assets: self.assets_of(id),
            tasks: owned_by(self.tasks, id),
            rewards: owned_by(self.rewards, id),
            features: owned_by(self.features, id),
            user_statuses: owned_by(self.user_statuses, id),
        }
    }

    /// The instant before which a quest must not have ended to be listed:
    /// `age_days` days of 86 400 seconds before the clock's reading.
    pub open spec fn cutoff(self, age_days: int) -> int {
        self.now.instant() - age_days * 86_400_000_000_000
    }

    /// The quests that have not ended before the cutoff, the one that started
    /// last coming first.
    pub open spec fn recent_quests(self, age_days: int) -> Seq<QuestView> {
        latest_first(recent_only(self.quests, self.cutoff(age_days)))
    }

    /// The quests that have not ended before the cutoff, the one that started
    /// last coming first, each with all that belongs to it.
    pub open spec fn recent(self, age_days: int) -> Seq<CompleteQuestView> {
        let rows = self.recent_quests(age_days);
        Seq::new(rows.len(), |i: int| self.complete(rows[i].id))
    }

    /// The document cached under `key`, if there is one.
    pub open spec fn cached(self, key: Seq<char>) -> Option<CacheStoreView> {
        if has_key(self.cache, key) {
            Some(self.cache[index_of_key(self.cache, key)])
        } else {
            None
        }
    }

    /// The store after `data` was cached under `key`, as written now.
    pub open spec fn with_cache(self, key: Seq<char>, data: JsonView) -> StoreView {
        let row = CacheStoreView { id: key, data, updated_at: self.now };
        if has_key(self.cache, key) {
            StoreView { cache: self.cache.update(index_of_key(self.cache, key), row), ..self }
        } else {
            StoreView { cache: self.cache.push(row), ..self }
        }
    }
}

/// The normalized store.
pub struct QuestStore {
    quests: Vec<Quest>,
    assets: Vec<QuestAssets>,
    tasks: Vec<QuestTask>,
    rewards: Vec<QuestReward>,
    features: Vec<QuestFeature>,
    user_statuses: Vec<QuestUserStatus>,
    cache: Vec<CacheStore>,
    now: Timestamp,
}

impl View for QuestStore {
    type V = StoreView;

    closed spec fn view(&self) -> StoreView {
        StoreView {
            quests: views(self.quests@),
            assets: views(self.assets@),
            tasks: views(self.tasks@),
            rewards: views(self.rewards@),
            features: views(self.features@),
            user_statuses: views(self.user_statuses@),
            cache: views(self.cache@),
            now: self.now,
        }
    }
}

/// The first place that has an identifier is the place of the identifier.
pub proof fn lemma_index_of_id(quests: Seq<QuestView>, id: Seq<char>, i: int)
    requires
        is_first_with_id(quests, id, i),
    ensures
        has_id(quests, id),
        index_of_id(quests, id) == i,
{
    let j = index_of_id(quests, id);
    assert(is_first_with_id(quests, id, j));
    if j < i {
        assert(quests[j].id != id);
    }
    if i < j {
        assert(quests[i].id != id);
    }
}

/// An identifier that some quest has, has a first place.
pub proof fn lemma_has_id(quests: Seq<QuestView>, id: Seq<char>)
    requires
        has_id(quests, id),
    ensures
        is_first_with_id(quests, id, index_of_id(quests, id)),
    decreases quests.len(),
{
    let last = quests.len() - 1;
    if exists|k: int| 0 <= k < last && (#[trigger] quests[k]).id == id {
        let k = choose|k: int| 0 <= k < last && (#[trigger] quests[k]).id == id;
        let rest = quests.drop_last();
        assert(rest[k].id == id);
        lemma_has_id(rest, id);
        let i = index_of_id(rest, id);
        assert forall|m: int| 0 <= m < i implies (#[trigger] quests[m]).id != id by {
            assert(rest[m].id != id);
        }
        assert(quests[i] == rest[i]);
        assert(is_first_with_id(quests, id, i));
    } else {
        let w = choose|w: int| 0 <= w < quests.len() && (#[trigger] quests[w]).id == id;
        assert(w == last);
        assert(is_first_with_id(quests, id, last));
    }
}

/// Replacing a quest by one with the same identifier keeps the identifiers as
/// they are.
pub proof fn lemma_same_ids_update(quests: Seq<QuestView>, i: int, row: QuestView)
    requires
        0 <= i < quests.len(),
        quests[i].id == row.id,
    ensures
        ids_of(quests.update(i, row)) == ids_of(quests),
        distinct_ids(quests) ==> distinct_ids(quests.update(i, row)),
        forall|id: Seq<char>| has_id(quests.update(i, row), id) <==> has_id(quests, id),
{
    let after = quests.update(i, row);
    assert(ids_of(after) =~= ids_of(quests));
    if distinct_ids(quests) {
        assert forall|a: int, b: int| 0 <= a < b < after.len() implies (#[trigger] after[a]).id != (
        #[trigger] after[b]).id by {
            assert(quests[a].id != quests[b].id);
        }
    }
    assert forall|id: Seq<char>| has_id(after, id) <==> has_id(quests, id) by {
        if has_id(after, id) {
            let k = choose|k: int| 0 <= k < after.len() && (#[trigger] after[k]).id == id;
            assert(quests[k].id == id);
        }
        if has_id(quests, id) {
            let k = choose|k: int| 0 <= k < quests.len() && (#[trigger] quests[k]).id == id;
            assert(after[k].id == id);
        }
    }
}

/// Adding a quest whose identifier is new keeps the identifiers distinct, and
/// keeps every identifier that was there.
pub proof fn lemma_new_id_push(quests: Seq<QuestView>, row: QuestView)
    requires
        !has_id(quests, row.id),
    ensures
        ids_of(quests.push(row)) == ids_of(quests).push(row.id),
        distinct_ids(quests) ==> distinct_ids(quests.push(row)),
        forall|id: Seq<char>|
            has_id(quests.push(row), id) <==> (has_id(quests, id) || id == row.id),
{
    let after = quests.push(row);
    assert(ids_of(after) =~= ids_of(quests).push(row.id));
    if distinct_ids(quests) {
        assert forall|a: int, b: int| 0 <= a < b < after.len() implies (#[trigger] after[a]).id != (
        #[trigger] after[b]).id by {
            if b < quests.len() {
                assert(quests[a].id != quests[b].id);
            } else {
                assert(quests[a].id != row.id);
            }
        }
    }
    assert forall|id: Seq<char>| has_id(after, id) <==> (has_id(quests, id) || id == row.id) by {
        if has_id(after, id) {
            let k = choose|k: int| 0 <= k < after.len() && (#[trigger] after[k]).id == id;
            if k < quests.len() {
                assert(quests[k].id == id);
            }
        }
        if has_id(quests, id) {
            let k = choose|k: int| 0 <= k < quests.len() && (#[trigger] quests[k]).id == id;
            assert(after[k].id == id);
        }
        if id == row.id {
            assert(after[quests.len() as int].id == id);
        }
    }
}

/// The place among `quests` of the first one with the identifier `id`, if
/// there is one.
fn find_quest(quests: &Vec<Quest>, id: &str) -> (r: Option<usize>)
    ensures
        match r {
            Some(i) => is_first_with_id(views(quests@), id@, i as int),
            None => !has_id(views(quests@), id@),
        },
{
    let wanted: String = id.to_owned();
    let mut i: usize = 0;
    while i < quests.len()
        invariant
            i <= quests.len(),
            wanted@ == id@,
            forall|k: int| 0 <= k < i ==> (#[trigger] quests[k]).id@ != id@,
        decreases quests.len() - i,
    {
        if quests[i].id == wanted {
            proof {
                assert forall|k: int| 0 <= k < i implies (#[trigger] views(quests@)[k]).id
                    != id@ by {
                    assert(quests[k].id@ != id@);
                }
            }
            return Some(i);
        }
        i = i + 1;
    }
    proof {
        assert forall|k: int| 0 <= k < views(quests@).len() implies (#[trigger] views(
            quests@,
        )[k]).id != id@ by {
            assert(quests[k].id@ != id@);
        }
    }
    None
}

impl QuestStore {
    /// A store that holds nothing, with its clock at `now`.
    pub fn new(now: Timestamp) -> (store: QuestStore)
        ensures
            store@ == StoreView::empty(now),
            store@.wf(),
    {
        let store = QuestStore {
            quests: Vec::new(),
            assets: Vec::new(),
            tasks: Vec::new(),
            rewards: Vec::new(),
            features: Vec::new(),
            user_statuses: Vec::new(),
            cache: Vec::new(),
            now,
        };
        proof {
            assert(store@.quests =~= Seq::empty());
            assert(store@.assets =~= Seq::empty());
            assert(store@.tasks =~= Seq::empty());
            assert(store@.rewards =~= Seq::empty());
            assert(store@.features =~= Seq::empty());
            assert(store@.user_statuses =~= Seq::empty());
            assert(store@.cache =~= Seq::empty());
        }
        store
    }

    /// The reading of the store's clock.
    pub fn clock(&self) -> (now: Timestamp)
        ensures
            now == self@.now,
    {
        self.now
    }

    /// Sets the store's clock to `now`.
    pub fn set_clock(&mut self, now: Timestamp)
        ensures
            final(self)@ == old(self)@.at(now),
            old(self)@.wf() ==> final(self)@.wf(),
    {
        self.now = now;
    }
}

/// Writes `quest`: over the stored quest with its identifier, or as a new
/// quest. The row is first written when the stored row was, or now, and last
/// written now, whatever `quest` says of that.
pub fn upsert_quest(store: &mut QuestStore, quest: &Quest) -> (r: Result<(), ApiError>)
    ensures
        r is Ok,
        final(store)@ == old(store)@.with_quest(quest@),
        old(store)@.wf() ==> final(store)@.wf(),
{
    let now = store.now;
    let mut row = quest.clone();
    row.updated_at = now;
    match find_quest(&store.quests, quest.id.as_str()) {
        Some(i) => {
            proof {
                lemma_index_of_id(views(store.quests@), quest.id@, i as int);
            }
            row.created_at = store.quests[i].created_at;
            let ghost before = store.quests@;
            proof {
                assert(views(before.update(i as int, row)) =~= views(before).update(
                    i as int,
                    row@,
                ));
                lemma_same_ids_update(views(before), i as int, row@);
            }
            store.quests.set(i, row);
        },
        None => {
            row.created_at = now;
            let ghost before = store.quests@;
            proof {
                lemma_views_push(before, row);
                lemma_new_id_push(views(before), row@);
            }
            store.quests.push(row);
        },
    }
    Ok(())
}

/// The identifiers of the stored quests, in the order in which the quests were
/// first written.
pub fn get_existing_quest_ids(store: &QuestStore) -> (r: Result<Vec<String>, ApiError>)
    ensures
        r is Ok,
        r matches Ok(ids) && texts(ids@) == store@.known_ids(),
{
    let mut ids: Vec<String> = Vec::new();
    let mut i: usize = 0;
    while i < store.quests.len()
        invariant
            i <= store.quests.len(),
            ids@.len() == i,
            forall|k: int| 0 <= k < i ==> (#[trigger] ids@[k])@ == store.quests[k].id@,
        decreases store.quests.len() - i,
    {
        ids.push(store.quests[i].id.clone());
        i = i + 1;
    }
    proof {
        assert(texts(ids@) =~= store@.known_ids());
    }
    Ok(ids)
}

/// Whether an identifier is not among `known`.
pub open spec fn is_not_among(known: Seq<Seq<char>>) -> spec_fn(Seq<char>) -> bool {
    |id: Seq<char>| !known.contains(id)
}

/// The identifiers of `quests` that are not among `known`, in order.
pub open spec fn ids_not_among(quests: Seq<QuestView>, known: Seq<Seq<char>>) -> Seq<Seq<char>> {
    ids_of(quests).filter(is_not_among(known))
}

/// The identifiers of the stored quests that are not among `known`, in the
/// order in which the quests were first written: with the identifiers that
/// were stored before a run of ingests for `known`, the quests that the run
/// has added.
pub fn get_quest_ids_not_among(store: &QuestStore, known: &Vec<String>) -> (ids: Vec<String>)
    ensures
        texts(ids@) == ids_not_among(store@.quests, texts(known@)),
{
    let mut ids: Vec<String> = Vec::new();
    let mut i: usize = 0;
    let ghost all = ids_of(store@.quests);
    let ghost unknown = is_not_among(texts(known@));
    proof {
        assert(all.take(0) =~= Seq::<Seq<char>>::empty());
        all.take(0).lemma_filter_len(unknown);
        assert(texts(ids@) =~= all.take(0).filter(unknown));
    }
    while i < store.quests.len()
        invariant
            i <= store.quests.len(),
            all == ids_of(store@.quests),
            all.len() == store.quests.len(),
            unknown == is_not_among(texts(known@)),
            texts(ids@) == all.take(i as int).filter(unknown),
        decreases store.quests.len() - i,
    {
        let id = &store.quests[i].id;
        proof {
            assert(all[i as int] == id@);
            assert(all.take(i as int).push(id@) =~= all.take(i as int + 1));
            all.take(i as int).lemma_filter_push(id@, unknown);
        }
        if !contains_text(known, id.as_str()) {
            let copy = id.clone();
            proof {
                assert(texts(ids@.push(copy)) =~= texts(ids@).push(id@));
            }
            ids.push(copy);
        }
        i = i + 1;
    }
    proof {
        assert(all.take(i as int) =~= all);
    }
    ids
}

/// One more row at the end of a prefix either joins the rows of the quest or
/// the rows of the others.
pub proof fn lemma_owned_step<T: Child>(rows: Seq<T>, id: Seq<char>, i: int)
    requires
        0 <= i < rows.len(),
    ensures
        owned_by(rows.take(i + 1), id) == if rows[i].owner() == id {
            owned_by(rows.take(i), id).push(rows[i])
        } else {
            owned_by(rows.take(i), id)
        },
        not_owned_by(rows.take(i + 1), id) == if rows[i].owner() != id {
            not_owned_by(rows.take(i), id).push(rows[i])
        } else {
            not_owned_by(rows.take(i), id)
        },
{
    assert(rows.take(i + 1).drop_last() =~= rows.take(i));
    assert(rows.take(i + 1).last() == rows[i]);
}

/// The rows of a quest all belong to it, and the rows of the others do not.
pub proof fn lemma_owned_by<T: Child>(rows: Seq<T>, id: Seq<char>)
    ensures
        all_owned_by(owned_by(rows, id), id),
        forall|i: int|
            0 <= i < not_owned_by(rows, id).len() ==> (#[trigger] not_owned_by(
                rows,
                id,
            )[i]).owner() != id,
        !has_owner(rows, id) ==> owned_by(rows, id) == Seq::<T>::empty() && not_owned_by(rows, id)
            == rows,
    decreases rows.len(),
{
    if rows.len() > 0 {
        let rest = rows.drop_last();
        lemma_owned_by(rest, id);
        let kept = not_owned_by(rows, id);
        let kept_rest = not_owned_by(rest, id);
        let own = owned_by(rows, id);
        let own_rest = owned_by(rest, id);
        assert(kept == if rows.last().owner() != id {
            kept_rest.push(rows.last())
        } else {
            kept_rest
        });
        assert(own == if rows.last().owner() == id {
            own_rest.push(rows.last())
        } else {
            own_rest
        });
        assert forall|i: int| 0 <= i < kept.len() implies (#[trigger] kept[i]).owner() != id by {
            if i < kept_rest.len() {
                assert(kept[i] == kept_rest[i]);
            }
        }
        assert forall|i: int| 0 <= i < own.len() implies (#[trigger] own[i]).owner() == id by {
            if i < own_rest.len() {
                assert(own[i] == own_rest[i]);
            }
        }
        if !has_owner(rows, id) {
            assert(rows[rows.len() - 1].owner() != id);
            assert forall|k: int| 0 <= k < rest.len() implies (#[trigger] rest[k]).owner()
                != id by {
                assert(rest[k] == rows[k]);
                assert(rows[k].owner() != id);
            }
            assert(rest.push(rows.last()) =~= rows);
        }
    } else {
        assert(owned_by(rows, id) =~= Seq::<T>::empty());
        assert(not_owned_by(rows, id) =~= rows);
    }
}

/// Rows that all name stored quests still do when the rows of one quest are
/// taken out.
pub proof fn lemma_not_owned_have_quest<T: Child>(
    rows: Seq<T>,
    id: Seq<char>,
    quests: Seq<QuestView>,
)
    requires
        all_have_quest(rows, quests),
    ensures
        all_have_quest(not_owned_by(rows, id), quests),
    decreases rows.len(),
{
    if rows.len() > 0 {
        let rest = rows.drop_last();
        assert forall|k: int| 0 <= k < rest.len() implies has_id(
            quests,
            (#[trigger] rest[k]).owner(),
        ) by {
            assert(rest[k] == rows[k]);
        }
        lemma_not_owned_have_quest(rest, id, quests);
        assert(has_id(quests, rows[rows.len() - 1].owner()));
    }
}

/// Rows that all name stored quests, followed by rows of one stored quest,
/// all name stored quests.
pub proof fn lemma_replaced_have_quest<T: Child>(
    rows: Seq<T>,
    id: Seq<char>,
    fresh: Seq<T>,
    quests: Seq<QuestView>,
)
    requires
        all_have_quest(rows, quests),
        all_owned_by(fresh, id),
        fresh.len() == 0 || has_id(quests, id),
    ensures
        all_have_quest(not_owned_by(rows, id) + fresh, quests),
{
    lemma_not_owned_have_quest(rows, id, quests);
    let kept = not_owned_by(rows, id);
    let all = kept + fresh;
    assert forall|k: int| 0 <= k < all.len() implies has_id(
        quests,
        (#[trigger] all[k]).owner(),
    ) by {
        if k < kept.len() {
            assert(all[k] == kept[k]);
        } else {
            assert(all[k] == fresh[k - kept.len()]);
        }
    }
}

/// The first place that belongs to a quest is the place of its first row.
pub proof fn lemma_index_of_owner<T: Child>(rows: Seq<T>, id: Seq<char>, i: int)
    requires
        is_first_owned(rows, id, i),
    ensures
        has_owner(rows, id),
        index_of_owner(rows, id) == i,
{
    let j = index_of_owner(rows, id);
    assert(is_first_owned(rows, id, j));
    if j < i {
        assert(rows[j].owner() != id);
    }
    if i < j {
        assert(rows[i].owner() != id);
    }
}

/// The first place that is cached under a key is the place of the key.
pub proof fn lemma_index_of_key(rows: Seq<CacheStoreView>, key: Seq<char>, i: int)
    requires
        is_first_with_key(rows, key, i),
    ensures
        has_key(rows, key),
        index_of_key(rows, key) == i,
{
    let j = index_of_key(rows, key);
    assert(is_first_with_key(rows, key, j));
    if j < i {
        assert(rows[j].id != key);
    }
    if i < j {
        assert(rows[i].id != key);
    }
}

/// Putting a quest in where the rows after it start earlier, and the row
/// before it does not, is putting it in by its start.
pub proof fn lemma_insert_by_start(rows: Seq<QuestView>, quest: QuestView, p: int)
    requires
        0 <= p <= rows.len(),
        forall|k: int|
            p <= k < rows.len() ==> (#[trigger] rows[k]).starts_at.instant()
                < quest.starts_at.instant(),
        p == 0 || rows[p - 1].starts_at.instant() >= quest.starts_at.instant(),
    ensures
        insert_by_start(rows, quest) == rows.insert(p, quest),
    decreases rows.len(),
{
    if rows.len() == 0 {
        assert(seq![quest] =~= rows.insert(p, quest));
    } else if p == rows.len() {
        assert(rows.push(quest) =~= rows.insert(p, quest));
    } else {
        let rest = rows.drop_last();
        assert(rows[rows.len() - 1].starts_at.instant() < quest.starts_at.instant());
        assert forall|k: int| p <= k < rest.len() implies (#[trigger] rest[k]).starts_at.instant()
            < quest.starts_at.instant() by {
            assert(rest[k] == rows[k]);
        }
        lemma_insert_by_start(rest, quest, p);
        assert(rest.insert(p, quest).push(rows.last()) =~= rows.insert(p, quest));
    }
}

/// The failure to write a row for a quest that is not stored.
fn unknown_quest() -> (e: ApiError)
    ensures
        e is DatabaseError,
        e.message() == unknown_quest_message(),
{
    ApiError::DatabaseError("Cannot add or update a child row: the quest is not stored".to_owned())
}

/// The place among `rows` of the first one that belongs to the quest `id`, if
/// there is one.
fn find_assets(rows: &Vec<QuestAssets>, id: &str) -> (r: Option<usize>)
    ensures
        match r {
            Some(i) => is_first_owned(views(rows@), id@, i as int),
            None => !has_owner(views(rows@), id@),
        },
{
    let wanted: String = id.to_owned();
    let mut i: usize = 0;
    while i < rows.len()
        invariant
            i <= rows.len(),
            wanted@ == id@,
            forall|k: int| 0 <= k < i ==> (#[trigger] rows[k]).quest_id@ != id@,
        decreases rows.len() - i,
    {
        if rows[i].quest_id == wanted {
            proof {
                assert forall|k: int| 0 <= k < i implies (#[trigger] views(rows@)[k]).quest_id
                    != id@ by {
                    assert(rows[k].quest_id@ != id@);
                }
            }
            return Some(i);
        }
        i = i + 1;
    }
    proof {
        assert forall|k: int| 0 <= k < views(rows@).len() implies (#[trigger] views(
            rows@,
        )[k]).quest_id != id@ by {
            assert(rows[k].quest_id@ != id@);
        }
    }
    None
}

/// The place among `rows` of the first one that is cached under `key`, if
/// there is one.
fn find_cached(rows: &Vec<CacheStore>, key: &str) -> (r: Option<usize>)
    ensures
        match r {
            Some(i) => is_first_with_key(views(rows@), key@, i as int),
            None => !has_key(views(rows@), key@),
        },
{
    let wanted: String = key.to_owned();
    let mut i: usize = 0;
    while i < rows.len()
        invariant
            i <= rows.len(),
            wanted@ == key@,
            forall|k: int| 0 <= k < i ==> (#[trigger] rows[k]).id@ != key@,
        decreases rows.len() - i,
    {
        if rows[i].id == wanted {
            proof {
                assert forall|k: int| 0 <= k < i implies (#[trigger] views(rows@)[k]).id
                    != key@ by {
                    assert(rows[k].id@ != key@);
                }
            }
            return Some(i);
        }
        i = i + 1;
    }
    proof {
        assert forall|k: int| 0 <= k < views(rows@).len() implies (#[trigger] views(
            rows@,
        )[k]).id != key@ by {
            assert(rows[k].id@ != key@);
        }
    }
    None
}

/// Copies of the task rows that belong to the quest `id`, in order.
fn select_task(rows: &Vec<QuestTask>, id: &str) -> (r: Vec<QuestTask>)
    ensures
        views(r@) == owned_by(views(rows@), id@),
{
    let wanted: String = id.to_owned();
    let mut out: Vec<QuestTask> = Vec::new();
    let mut i: usize = 0;
    proof {
        assert(views(rows@).take(0) =~= Seq::<QuestTaskView>::empty());
        assert(views(out@) =~= Seq::<QuestTaskView>::empty());
    }
    while i < rows.len()
        invariant
            i <= rows.len(),
            wanted@ == id@,
            views(out@) == owned_by(views(rows@).take(i as int), id@),
        decreases rows.len() - i,
    {
        proof {
            lemma_owned_step(views(rows@), id@, i as int);
        }
        if rows[i].quest_id == wanted {
            let row = rows[i].clone();
            proof {
                lemma_views_push(out@, row);
            }
            out.push(row);
        }
        i = i + 1;
    }
    proof {
        assert(views(rows@).take(i as int) =~= views(rows@));
    }
    out
}

/// Copies of the reward rows that belong to the quest `id`, in order.
fn select_reward(rows: &Vec<QuestReward>, id: &str) -> (r: Vec<QuestReward>)
    ensures
        views(r@) == owned_by(views(rows@), id@),
{
    let wanted: String = id.to_owned();
    let mut out: Vec<QuestReward> = Vec::new();
    let mut i: usize = 0;
    proof {
        assert(views(rows@).take(0) =~= Seq::<QuestRewardView>::empty());
        assert(views(out@) =~= Seq::<QuestRewardView>::empty());
    }
    while i < rows.len()
        invariant
            i <= rows.len(),
            wanted@ == id@,
            views(out@) == owned_by(views(rows@).take(i as int), id@),
        decreases rows.len() - i,
    {
        proof {
            lemma_owned_step(views(rows@), id@, i as int);
        }
        if rows[i].quest_id == wanted {
            let row = rows[i].clone();
            proof {
                lemma_views_push(out@, row);
            }
            out.push(row);
        }
        i = i + 1;
    }
    proof {
        assert(views(rows@).take(i as int) =~= views(rows@));
    }
    out
}

/// Copies of the feature rows that belong to the quest `id`, in order.
fn select_feature(rows: &Vec<QuestFeature>, id: &str) -> (r: Vec<QuestFeature>)
    ensures
        views(r@) == owned_by(views(rows@), id@),
{
    let wanted: String = id.to_owned();
    let mut out: Vec<QuestFeature> = Vec::new();
    let mut i: usize = 0;
    proof {
        assert(views(rows@).take(0) =~= Seq::<QuestFeatureView>::empty());
        assert(views(out@) =~= Seq::<QuestFeatureView>::empty());
    }
    while i < rows.len()
        invariant
            i <= rows.len(),
            wanted@ == id@,
            views(out@) == owned_by(views(rows@).take(i as int), id@),
        decreases rows.len() - i,
    {
        proof {
            lemma_owned_step(views(rows@), id@, i as int);
        }
        if rows[i].quest_id == wanted {
            let row = rows[i].clone();
            proof {
                lemma_views_push(out@, row);
            }
            out.push(row);
        }
        i = i + 1;
    }
    proof {
        assert(views(rows@).take(i as int) =~= views(rows@));
    }
    out
}

/// Copies of the user status rows that belong to the quest `id`, in order.
fn select_user_status(rows: &Vec<QuestUserStatus>, id: &str) -> (r: Vec<QuestUserStatus>)
    ensures
        views(r@) == owned_by(views(rows@), id@),
{
    let wanted: String = id.to_owned();
    let mut out: Vec<QuestUserStatus> = Vec::new();
    let mut i: usize = 0;
    proof {
        assert(views(rows@).take(0) =~= Seq::<QuestUserStatusView>::empty());
        assert(views(out@) =~= Seq::<QuestUserStatusView>::empty());
    }
    while i < rows.len()
        invariant
            i <= rows.len(),
            wanted@ == id@,
            views(out@) == owned_by(views(rows@).take(i as int), id@),
        decreases rows.len() - i,
    {
        proof {
            lemma_owned_step(views(rows@), id@, i as int);
        }
        if rows[i].quest_id == wanted {
            let row = rows[i].clone();
            proof {
                lemma_views_push(out@, row);
            }
            out.push(row);
        }
        i = i + 1;
    }
    proof {
        assert(views(rows@).take(i as int) =~= views(rows@));
    }
    out
}

/// Copies of the task rows that belong to another quest than `id`, in order.
fn keep_other_task(rows: &Vec<QuestTask>, id: &str) -> (r: Vec<QuestTask>)
    ensures
        views(r@) == not_owned_by(views(rows@), id@),
{
    let wanted: String = id.to_owned();
    let mut out: Vec<QuestTask> = Vec::new();
    let mut i: usize = 0;
    proof {
        assert(views(rows@).take(0) =~= Seq::<QuestTaskView>::empty());
        assert(views(out@) =~= Seq::<QuestTaskView>::empty());
    }
    while i < rows.len()
        invariant
            i <= rows.len(),
            wanted@ == id@,
            views(out@) == not_owned_by(views(rows@).take(i as int), id@),
        decreases rows.len() - i,
    {
        proof {
            lemma_owned_step(views(rows@), id@, i as int);
        }
        if !(rows[i].quest_id == wanted) {
            let row = rows[i].clone();
            proof {
                lemma_views_push(out@, row);
            }
            out.push(row);
        }
        i = i + 1;
    }
    proof {
        assert(views(rows@).take(i as int) =~= views(rows@));
    }
    out
}

/// Copies of the reward rows that belong to another quest than `id`, in order.
fn keep_other_reward(rows: &Vec<QuestReward>, id: &str) -> (r: Vec<QuestReward>)
    ensures
        views(r@) == not_owned_by(views(rows@), id@),
{
    let wanted: String = id.to_owned();
    let mut out: Vec<QuestReward> = Vec::new();
    let mut i: usize = 0;
    proof {
        assert(views(rows@).take(0) =~= Seq::<QuestRewardView>::empty());
        assert(views(out@) =~= Seq::<QuestRewardView>::empty());
    }
    while i < rows.len()
        invariant
            i <= rows.len(),
            wanted@ == id@,
            views(out@) == not_owned_by(views(rows@).take(i as int), id@),
        decreases rows.len() - i,
    {
        proof {
            lemma_owned_step(views(rows@), id@, i as int);
        }
        if !(rows[i].quest_id == wanted) {
            let row = rows[i].clone();
            proof {
                lemma_views_push(out@, row);
            }
            out.push(row);
        }
        i = i + 1;
    }
    proof {
        assert(views(rows@).take(i as int) =~= views(rows@));
    }
    out
}

/// Copies of the feature rows that belong to another quest than `id`, in order.
fn keep_other_feature(rows: &Vec<QuestFeature>, id: &str) -> (r: Vec<QuestFeature>)
    ensures
        views(r@) == not_owned_by(views(rows@), id@),
{
    let wanted: String = id.to_owned();
    let mut out: Vec<QuestFeature> = Vec::new();
    let mut i: usize = 0;
    proof {
        assert(views(rows@).take(0) =~= Seq::<QuestFeatureView>::empty());
        assert(views(out@) =~= Seq::<QuestFeatureView>::empty());
    }
    while i < rows.len()
        invariant
            i <= rows.len(),
            wanted@ == id@,
            views(out@) == not_owned_by(views(rows@).take(i as int), id@),
        decreases rows.len() - i,
    {
        proof {
            lemma_owned_step(views(rows@), id@, i as int);
        }
        if !(rows[i].quest_id == wanted) {
            let row = rows[i].clone();
            proof {
                lemma_views_push(out@, row);
            }
            out.push(row);
        }
        i = i + 1;
    }
    proof {
        assert(views(rows@).take(i as int) =~= views(rows@));
    }
    out
}

/// The task row of the quest `id` that `task` describes.
pub open spec fn task_row(
    id: Seq<char>,
    task: (String, i32, Option<Json>, Option<Json>),
) -> QuestTaskView {
    QuestTaskView {
        quest_id: id,
        task_type: task.0@,
        target: task.1,
        applications: opt_json_view(task.2),
        external_ids: opt_json_view(task.3),
    }
}

/// The task rows of the quest `id` that `tasks` describe, in order.
pub open spec fn task_rows(
    id: Seq<char>,
    tasks: Seq<(String, i32, Option<Json>, Option<Json>)>,
) -> Seq<QuestTaskView> {
    Seq::new(tasks.len(), |i: int| task_row(id, tasks[i]))
}

/// Replaces the tasks of the quest `quest_id` by `tasks`, in one step: the
/// quest then has exactly these, in this order, and every other quest has what
/// it had. Rows can be written only for a quest that is stored; where they
/// cannot, the store stays as it is.
pub fn replace_quest_tasks(
    store: &mut QuestStore,
    quest_id: &str,
    tasks: &[(String, i32, Option<Json>, Option<Json>)],
) -> (r: Result<
    (),
    ApiError,
>)
    ensures
        r is Ok <==> old(store)@.accepts_children(quest_id@, tasks@.len()),
        r is Ok ==> final(store)@ == old(store)@.with_tasks(
            quest_id@,
            task_rows(quest_id@, tasks@),
        ),
        r matches Err(e) ==> final(store)@ == old(store)@ && e is DatabaseError && e.message()
            == unknown_quest_message(),
        old(store)@.wf() ==> final(store)@.wf(),
{
    if tasks.len() > 0 {
        match find_quest(&store.quests, quest_id) {
            Some(_) => {},
            None => {
                return Err(unknown_quest());
            },
        }
    }
    let mut rows = keep_other_task(&store.tasks, quest_id);
    let ghost kept = views(rows@);
    let mut i: usize = 0;
    proof {
        assert(task_rows(quest_id@, tasks@.take(0)) =~= Seq::<QuestTaskView>::empty());
        assert(kept + Seq::<QuestTaskView>::empty() =~= kept);
    }
    while i < tasks.len()
        invariant
            i <= tasks.len(),
            views(rows@) == kept + task_rows(quest_id@, tasks@.take(i as int)),
        decreases tasks.len() - i,
    {
        let task = &tasks[i];
        let row = QuestTask {
            quest_id: quest_id.to_owned(),
            task_type: task.0.clone(),
            target: task.1,
            applications: clone_opt_json(&task.2),
            external_ids: clone_opt_json(&task.3),
        };
        proof {
            lemma_views_push(rows@, row);
            assert((kept + task_rows(
                quest_id@,
                tasks@.take(i as int),
            )).push(row@) =~= kept + task_rows(
                quest_id@,
                tasks@.take(i as int + 1),
            ));
        }
        rows.push(row);
        i = i + 1;
    }
    proof {
        assert(tasks@.take(i as int) =~= tasks@);
        let fresh = task_rows(quest_id@, tasks@);
        if old(store)@.wf() {
            lemma_replaced_have_quest(views(store.tasks@), quest_id@, fresh, views(store.quests@));
        }
    }
    store.tasks = rows;
    Ok(())
}

/// The reward row of the quest `id` that `reward` describes.
pub open spec fn reward_row(
    id: Seq<char>,
    reward: (i32, Option<String>, String, String, Option<i32>, Option<Json>, i32),
) -> QuestRewardView {
    QuestRewardView {
        quest_id: id,
        reward_type: reward.0,
        sku_id: opt_text(reward.1),
        reward_name: reward.2@,
        reward_name_with_article: reward.3@,
        orb_quantity: reward.4,
        redemption_instructions: opt_json_view(reward.5),
        platform: reward.6,
    }
}

/// The reward rows of the quest `id` that `rewards` describe, in order.
pub open spec fn reward_rows(
    id: Seq<char>,
    rewards: Seq<(i32, Option<String>, String, String, Option<i32>, Option<Json>, i32)>,
) -> Seq<QuestRewardView> {
    Seq::new(rewards.len(), |i: int| reward_row(id, rewards[i]))
}

/// Replaces the rewards of the quest `quest_id` by `rewards`, in one step: the
/// quest then has exactly these, in this order, and every other quest has what
/// it had. Rows can be written only for a quest that is stored; where they
/// cannot, the store stays as it is.
pub fn replace_quest_rewards(
    store: &mut QuestStore,
    quest_id: &str,
    rewards: &[(i32, Option<String>, String, String, Option<i32>, Option<Json>, i32)],
) -> (r: Result<
    (),
    ApiError,
>)
    ensures
        r is Ok <==> old(store)@.accepts_children(quest_id@, rewards@.len()),
        r is Ok ==> final(store)@ == old(store)@.with_rewards(
            quest_id@,
            reward_rows(quest_id@, rewards@),
        ),
        r matches Err(e) ==> final(store)@ == old(store)@ && e is DatabaseError && e.message()
            == unknown_quest_message(),
        old(store)@.wf() ==> final(store)@.wf(),
{
    if rewards.len() > 0 {
        match find_quest(&store.quests, quest_id) {
            Some(_) => {},
            None => {
                return Err(unknown_quest());
            },
        }
    }
    let mut rows = keep_other_reward(&store.rewards, quest_id);
    let ghost kept = views(rows@);
    let mut i: usize = 0;
    proof {
        assert(reward_rows(quest_id@, rewards@.take(0)) =~= Seq::<QuestRewardView>::empty());
        assert(kept + Seq::<QuestRewardView>::empty() =~= kept);
    }
    while i < rewards.len()
        invariant
            i <= rewards.len(),
            views(rows@) == kept + reward_rows(quest_id@, rewards@.take(i as int)),
        decreases rewards.len() - i,
    {
        let reward = &rewards[i];
        let row = QuestReward {
            quest_id: quest_id.to_owned(),
            reward_type: reward.0,
            sku_id: clone_opt_string(&reward.1),
            reward_name: reward.2.clone(),
            reward_name_with_article: reward.3.clone(),
            orb_quantity: reward.4,
            redemption_instructions: clone_opt_json(&reward.5),
            platform: reward.6,
        };
        proof {
            lemma_views_push(rows@, row);
            assert((kept + reward_rows(
                quest_id@,
                rewards@.take(i as int),
            )).push(row@) =~= kept + reward_rows(
                quest_id@,
                rewards@.take(i as int + 1),
            ));
        }
        rows.push(row);
        i = i + 1;
    }
    proof {
        assert(rewards@.take(i as int) =~= rewards@);
        let fresh = reward_rows(quest_id@, rewards@);
        if old(store)@.wf() {
            lemma_replaced_have_quest(
                views(store.rewards@),
                quest_id@,
                fresh,
                views(store.quests@),
            );
        }
    }
    store.rewards = rows;
    Ok(())
}

/// The feature row of the quest `id` that `feature` describes.
pub open spec fn feature_row(id: Seq<char>, feature: i32) -> QuestFeatureView {
    QuestFeatureView {
        quest_id: id,
        feature_id: feature,
    }
}

/// The feature rows of the quest `id` that `features` describe, in order.
pub open spec fn feature_rows(id: Seq<char>, features: Seq<i32>) -> Seq<QuestFeatureView> {
    Seq::new(features.len(), |i: int| feature_row(id, features[i]))
}

/// Replaces the feature flags of the quest `quest_id` by `features`, in one
/// step: the quest then has exactly these, in this order, and every other quest
/// has what it had. Rows can be written only for a quest that is stored; where
/// they cannot, the store stays as it is.
pub fn replace_quest_features(
    store: &mut QuestStore,
    quest_id: &str,
    features: &[i32],
) -> (r: Result<
    (),
    ApiError,
>)
    ensures
        r is Ok <==> old(store)@.accepts_children(quest_id@, features@.len()),
        r is Ok ==> final(store)@ == old(store)@.with_features(
            quest_id@,
            feature_rows(quest_id@, features@),
        ),
        r matches Err(e) ==> final(store)@ == old(store)@ && e is DatabaseError && e.message()
            == unknown_quest_message(),
        old(store)@.wf() ==> final(store)@.wf(),
{
    if features.len() > 0 {
        match find_quest(&store.quests, quest_id) {
            Some(_) => {},
            None => {
                return Err(unknown_quest());
            },
        }
    }
    let mut rows = keep_other_feature(&store.features, quest_id);
    let ghost kept = views(rows@);
    let mut i: usize = 0;
    proof {
        assert(feature_rows(quest_id@, features@.take(0)) =~= Seq::<QuestFeatureView>::empty());
        assert(kept + Seq::<QuestFeatureView>::empty() =~= kept);
    }
    while i < features.len()
        invariant
            i <= features.len(),
            views(rows@) == kept + feature_rows(quest_id@, features@.take(i as int)),
        decreases features.len() - i,
    {
        let feature = &features[i];
        let row = QuestFeature {
            quest_id: quest_id.to_owned(),
            feature_id: *feature,
        };
        proof {
            lemma_views_push(rows@, row);
            assert((kept + feature_rows(
                quest_id@,
                features@.take(i as int),
            )).push(row@) =~= kept + feature_rows(
                quest_id@,
                features@.take(i as int + 1),
            ));
        }
        rows.push(row);
        i = i + 1;
    }
    proof {
        assert(features@.take(i as int) =~= features@);
        let fresh = feature_rows(quest_id@, features@);
        if old(store)@.wf() {
            lemma_replaced_have_quest(
                views(store.features@),
                quest_id@,
                fresh,
                views(store.quests@),
            );
        }
    }
    store.features = rows;
    Ok(())
}

/// The media row of the quest `quest_id` with the given media.
pub open spec fn assets_row(
    quest_id: Seq<char>,
    hero: Option<Seq<char>>,
    hero_video: Option<Seq<char>>,
    quest_bar_hero: Option<Seq<char>>,
    quest_bar_hero_video: Option<Seq<char>>,
    game_tile: Option<Seq<char>>,
    logotype: Option<Seq<char>>,
    game_tile_light: Option<Seq<char>>,
    game_tile_dark: Option<Seq<char>>,
    logotype_light: Option<Seq<char>>,
    logotype_dark: Option<Seq<char>>,
) -> QuestAssetsView {
    QuestAssetsView {
        quest_id,
        hero,
        hero_video,
        quest_bar_hero,
        quest_bar_hero_video,
        game_tile,
        logotype,
        game_tile_light,
        game_tile_dark,
        logotype_light,
        logotype_dark,
    }
}

/// Replacing a row by one of the same quest keeps the owners as they are.
pub proof fn lemma_same_owner_update(rows: Seq<QuestAssetsView>, i: int, row: QuestAssetsView)
    requires
        0 <= i < rows.len(),
        rows[i].quest_id == row.quest_id,
    ensures
        distinct_owners(rows) ==> distinct_owners(rows.update(i, row)),
        forall|quests: Seq<QuestView>|
            all_have_quest(rows, quests) ==> #[trigger] all_have_quest(rows.update(i, row), quests),
{
    let after = rows.update(i, row);
    if distinct_owners(rows) {
        assert forall|a: int, b: int| 0 <= a < b < after.len() implies (#[trigger] after[a]).owner()
            != (#[trigger] after[b]).owner() by {
            assert(rows[a].owner() != rows[b].owner());
        }
    }
    assert forall|quests: Seq<QuestView>| all_have_quest(
        rows,
        quests,
    ) implies #[trigger] all_have_quest(
        after,
        quests,
    ) by {
        assert forall|k: int| 0 <= k < after.len() implies has_id(
            quests,
            (#[trigger] after[k]).owner(),
        ) by {
            assert(has_id(quests, rows[k].owner()));
        }
    }
}

/// Adding the first row of a stored quest keeps the owners distinct and
/// stored.
pub proof fn lemma_new_owner_push(
    rows: Seq<QuestAssetsView>,
    row: QuestAssetsView,
    quests: Seq<QuestView>,
)
    requires
        !has_owner(rows, row.quest_id),
        has_id(quests, row.quest_id),
    ensures
        distinct_owners(rows) ==> distinct_owners(rows.push(row)),
        all_have_quest(rows, quests) ==> all_have_quest(rows.push(row), quests),
{
    let after = rows.push(row);
    if distinct_owners(rows) {
        assert forall|a: int, b: int| 0 <= a < b < after.len() implies (#[trigger] after[a]).owner()
            != (#[trigger] after[b]).owner() by {
            if b < rows.len() {
                assert(rows[a].owner() != rows[b].owner());
            } else {
                assert(rows[a].owner() != row.quest_id);
            }
        }
    }
    if all_have_quest(rows, quests) {
        assert forall|k: int| 0 <= k < after.len() implies has_id(
            quests,
            (#[trigger] after[k]).owner(),
        ) by {
            if k < rows.len() {
                assert(has_id(quests, rows[k].owner()));
            }
        }
    }
}

/// Writes the media of the quest `quest_id`: over the stored media of the
/// quest, or as its first. Media can be written only for a quest that is
/// stored; where they cannot, the store stays as it is.
pub fn upsert_quest_assets(
    store: &mut QuestStore,
    quest_id: &str,
    hero: Option<&str>,
    hero_video: Option<&str>,
    quest_bar_hero: Option<&str>,
    quest_bar_hero_video: Option<&str>,
    game_tile: Option<&str>,
    logotype: Option<&str>,
    game_tile_light: Option<&str>,
    game_tile_dark: Option<&str>,
    logotype_light: Option<&str>,
    logotype_dark: Option<&str>,
) -> (r: Result<(), ApiError>)
    ensures
        r is Ok <==> old(store)@.has_quest(quest_id@),
        r is Ok ==> final(store)@ == old(store)@.with_assets(
            assets_row(
                quest_id@,
                opt_str_text(hero),
                opt_str_text(hero_video),
                opt_str_text(quest_bar_hero),
                opt_str_text(quest_bar_hero_video),
                opt_str_text(game_tile),
                opt_str_text(logotype),
                opt_str_text(game_tile_light),
                opt_str_text(game_tile_dark),
                opt_str_text(logotype_light),
                opt_str_text(logotype_dark),
            ),
        ),
        r matches Err(e) ==> final(store)@ == old(store)@ && e is DatabaseError && e.message()
            == unknown_quest_message(),
        old(store)@.wf() ==> final(store)@.wf(),
{
    match find_quest(&store.quests, quest_id) {
        Some(_) => {},
        None => {
            return Err(unknown_quest());
        },
    }
    let row = QuestAssets {
        quest_id: quest_id.to_owned(),
        hero: own_opt_str(hero),
        hero_video: own_opt_str(hero_video),
        quest_bar_hero: own_opt_str(quest_bar_hero),
        quest_bar_hero_video: own_opt_str(quest_bar_hero_video),
        game_tile: own_opt_str(game_tile),
        logotype: own_opt_str(logotype),
        game_tile_light: own_opt_str(game_tile_light),
        game_tile_dark: own_opt_str(game_tile_dark),
        logotype_light: own_opt_str(logotype_light),
        logotype_dark: own_opt_str(logotype_dark),
    };
    let ghost before = store.assets@;
    match find_assets(&store.assets, quest_id) {
        Some(i) => {
            proof {
                lemma_index_of_owner(views(before), quest_id@, i as int);
                assert(views(before.update(i as int, row)) =~= views(before).update(
                    i as int,
                    row@,
                ));
                lemma_same_owner_update(views(before), i as int, row@);
            }
            store.assets.set(i, row);
        },
        None => {
            proof {
                lemma_views_push(before, row);
                lemma_new_owner_push(views(before), row@, views(store.quests@));
            }
            store.assets.push(row);
        },
    }
    Ok(())
}

/// The failure to find the quest `id`: a failure of its own kind, which says
/// nothing against the store.
fn quest_not_found(id: &str) -> (e: ApiError)
    ensures
        e is NotFound,
        e.message() == quest_not_found_message(id@),
{
    ApiError::NotFound("no quest is stored under the identifier ".to_owned().concat(id))
}

/// The quest `quest_id` with all that belongs to it. Fails exactly where no
/// quest with the identifier is stored, whether or not rows that name the
/// identifier are; the failure then is that the quest was not found, and no
/// part of a quest is returned.
pub fn get_complete_quest_by_id(store: &QuestStore, quest_id: &str) -> (r: Result<
    CompleteQuest,
    ApiError,
>)
    ensures
        r is Ok <==> store@.has_quest(quest_id@),
        r matches Ok(complete) ==> complete@ == store@.complete(quest_id@),
        r matches Err(e) ==> e is NotFound && e.message() == quest_not_found_message(quest_id@),
{
    match find_quest(&store.quests, quest_id) {
        None => Err(quest_not_found(quest_id)),
        Some(i) => {
            proof {
                lemma_index_of_id(views(store.quests@), quest_id@, i as int);
            }
            let quest = store.quests[i].clone();
            let assets = match find_assets(&store.assets, quest_id) {
                Some(k) => {
                    proof {
                        lemma_index_of_owner(views(store.assets@), quest_id@, k as int);
                    }
                    Some(store.assets[k].clone())
                },
                None => None,
            };
            let tasks = select_task(&store.tasks, quest_id);
            let rewards = select_reward(&store.rewards, quest_id);
            let features = select_feature(&store.features, quest_id);
            let user_statuses = select_user_status(&store.user_statuses, quest_id);
            Ok(CompleteQuest { quest, assets, tasks, rewards, features, user_statuses })
        },
    }
}

/// The quests at the places `order` of `quests`.
pub open spec fn rows_at(quests: Seq<QuestView>, order: Seq<usize>) -> Seq<QuestView> {
    Seq::new(order.len(), |k: int| quests[order[k] as int])
}

/// The places of the quests that have not ended before `cutoff`, the one that
/// started last coming first.
fn recent_order(quests: &Vec<Quest>, cutoff: i128) -> (order: Vec<usize>)
    ensures
        forall|k: int| 0 <= k < order.len() ==> (#[trigger] order[k]) < quests.len(),
        rows_at(views(quests@), order@) == latest_first(recent_only(views(quests@), cutoff as int)),
{
    let mut order: Vec<usize> = Vec::new();
    let mut i: usize = 0;
    let ghost all = views(quests@);
    proof {
        assert(all.take(0) =~= Seq::<QuestView>::empty());
        assert(recent_only(all.take(0), cutoff as int) =~= Seq::<QuestView>::empty());
        assert(latest_first(Seq::<QuestView>::empty()) =~= Seq::<QuestView>::empty());
        assert(rows_at(all, order@) =~= Seq::<QuestView>::empty());
    }
    while i < quests.len()
        invariant
            i <= quests.len(),
            all == views(quests@),
            forall|k: int| 0 <= k < order.len() ==> (#[trigger] order[k]) < quests.len(),
            rows_at(all, order@) == latest_first(recent_only(all.take(i as int), cutoff as int)),
        decreases quests.len() - i,
    {
        proof {
            assert(all.take(i as int + 1).drop_last() =~= all.take(i as int));
            assert(all.take(i as int + 1).last() == all[i as int]);
        }
        if quests[i].expires_at.nanos_since_epoch() >= cutoff {
            let start = quests[i].starts_at.nanos_since_epoch();
            let mut p: usize = order.len();
            while p > 0 && quests[order[p - 1]].starts_at.nanos_since_epoch() < start
                invariant
                    p <= order.len(),
                    all == views(quests@),
                    i < quests.len(),
                    start == quests[i as int].starts_at.instant(),
                    forall|k: int| 0 <= k < order.len() ==> (#[trigger] order[k]) < quests.len(),
                    forall|k: int|
                        p <= k < order.len() ==> (#[trigger] rows_at(
                            all,
                            order@,
                        )[k]).starts_at.instant() < start,
                decreases p,
            {
                p = p - 1;
            }
            proof {
                let rows = rows_at(all, order@);
                let kept = recent_only(all.take(i as int), cutoff as int);
                assert(recent_only(
                    all.take(i as int + 1),
                    cutoff as int,
                ) == kept.push(all[i as int]));
                assert(kept.push(all[i as int]).drop_last() =~= kept);
                lemma_insert_by_start(rows, all[i as int], p as int);
                assert(rows_at(all, order@.insert(p as int, i)) =~= rows.insert(
                    p as int,
                    all[i as int],
                ));
            }
            order.insert(p, i);
        }
        i = i + 1;
    }
    proof {
        assert(all.take(i as int) =~= all);
    }
    order
}

/// The quests that have not ended more than `age_days` days before the clock's
/// reading, the one that started last coming first, each with all that belongs
/// to it. A quest that ended exactly `age_days` days ago is listed.
pub fn get_recent_complete_quests(store: &QuestStore, age_days: i64) -> (r: Result<
    Vec<CompleteQuest>,
    ApiError,
>)
    ensures
        r matches Ok(list) && views(list@) == store@.recent(age_days as int),
{
    let cutoff: i128 = store.now.nanos_since_epoch() - (age_days as i128) * NANOS_PER_DAY;
    let order = recent_order(&store.quests, cutoff);
    let ghost rows = store@.recent_quests(age_days as int);
    let mut list: Vec<CompleteQuest> = Vec::new();
    let mut k: usize = 0;
    while k < order.len()
        invariant
            k <= order.len(),
            rows == rows_at(views(store.quests@), order@),
            forall|m: int| 0 <= m < order.len() ==> (#[trigger] order[m]) < store.quests.len(),
            list.len() == k,
            forall|m: int| 0 <= m < k ==> (#[trigger] list[m])@ == store@.complete(rows[m].id),
        decreases order.len() - k,
    {
        let i = order[k];
        proof {
            assert(views(store.quests@)[i as int].id == store.quests[i as int].id@);
            assert(rows[k as int] == views(store.quests@)[i as int]);
        }
        match get_complete_quest_by_id(store, store.quests[i].id.as_str()) {
            Ok(complete) => {
                list.push(complete);
            },
            Err(e) => {
                return Err(e);
            },
        }
        k = k + 1;
    }
    proof {
        assert(views(list@) =~= store@.recent(age_days as int));
    }
    Ok(list)
}

/// The document cached under `key`, if there is one.
pub fn get_cache(store: &QuestStore, key: &str) -> (r: Result<Option<CacheStore>, ApiError>)
    ensures
        r matches Ok(found) && opt_cache_view(found) == store@.cached(key@),
{
    match find_cached(&store.cache, key) {
        Some(i) => {
            proof {
                lemma_index_of_key(views(store.cache@), key@, i as int);
            }
            Ok(Some(store.cache[i].clone()))
        },
        None => Ok(None),
    }
}

/// Caches `data` under `key`, over what was cached there, as written now.
pub fn upsert_cache(store: &mut QuestStore, key: &str, data: &Json) -> (r: Result<(), ApiError>)
    ensures
        r is Ok,
        final(store)@ == old(store)@.with_cache(key@, data@),
        old(store)@.wf() ==> final(store)@.wf(),
{
    let row = CacheStore { id: key.to_owned(), data: data.clone(), updated_at: store.now };
    let ghost before = views(store.cache@);
    match find_cached(&store.cache, key) {
        Some(i) => {
            proof {
                lemma_index_of_key(before, key@, i as int);
                assert(views(store.cache@.update(i as int, row)) =~= before.update(i as int, row@));
                let after = before.update(i as int, row@);
                if distinct_keys(before) {
                    assert forall|a: int, b: int| 0 <= a < b < after.len() implies (
                    #[trigger] after[a]).id != (#[trigger] after[b]).id by {
                        assert(before[a].id != before[b].id);
                    }
                }
            }
            store.cache.set(i, row);
        },
        None => {
            proof {
                lemma_views_push(store.cache@, row);
                let after = before.push(row@);
                if distinct_keys(before) {
                    assert forall|a: int, b: int| 0 <= a < b < after.len() implies (
                    #[trigger] after[a]).id != (#[trigger] after[b]).id by {
                        if b < before.len() {
                            assert(before[a].id != before[b].id);
                        } else {
                            assert(before[a].id != key@);
                        }
                    }
                }
            }
            store.cache.push(row);
        },
    }
    Ok(())
}

/// After a quest was written, it is stored, and so is every quest that was.
pub proof fn lemma_with_quest(s: StoreView, quest: QuestView)
    ensures
        s.with_quest(quest).has_quest(quest.id),
        forall|id: Seq<char>| s.has_quest(id) ==> #[trigger] s.with_quest(quest).has_quest(id),
        forall|id: Seq<char>|
            #[trigger] s.with_quest(quest).has_quest(id) ==> s.has_quest(id) || id == quest.id,
        s.wf() ==> s.with_quest(quest).wf(),
{
    if s.has_quest(quest.id) {
        lemma_has_id(s.quests, quest.id);
        lemma_same_ids_update(s.quests, index_of_id(s.quests, quest.id), s.quest_row(quest));
    } else {
        lemma_new_id_push(s.quests, s.quest_row(quest));
    }
}

/// The rows of a quest among two sequences of rows are its rows among the
/// first, followed by its rows among the second.
pub proof fn lemma_owned_by_concat<T: Child>(a: Seq<T>, b: Seq<T>, id: Seq<char>)
    ensures
        owned_by(a + b, id) == owned_by(a, id) + owned_by(b, id),
        not_owned_by(a + b, id) == not_owned_by(a, id) + not_owned_by(b, id),
    decreases b.len(),
{
    if b.len() == 0 {
        assert(a + b =~= a);
        assert(owned_by(a, id) + owned_by(b, id) =~= owned_by(a, id));
        assert(not_owned_by(a, id) + not_owned_by(b, id) =~= not_owned_by(a, id));
    } else {
        lemma_owned_by_concat(a, b.drop_last(), id);
        assert((a + b).drop_last() =~= a + b.drop_last());
        assert((a + b).last() == b.last());
        let x = b.last();
        assert((owned_by(a, id) + owned_by(b.drop_last(), id)).push(x) =~= owned_by(a, id)
            + owned_by(b.drop_last(), id).push(x));
        assert((not_owned_by(a, id) + not_owned_by(b.drop_last(), id)).push(x) =~= not_owned_by(
            a,
            id,
        ) + not_owned_by(b.drop_last(), id).push(x));
    }
}

/// Rows that all belong to a quest are its rows, and none of them is a row of
/// the others.
pub proof fn lemma_all_owned<T: Child>(rows: Seq<T>, id: Seq<char>)
    requires
        all_owned_by(rows, id),
    ensures
        owned_by(rows, id) == rows,
        not_owned_by(rows, id) == Seq::<T>::empty(),
    decreases rows.len(),
{
    if rows.len() == 0 {
        assert(owned_by(rows, id) =~= rows);
    } else {
        let rest = rows.drop_last();
        assert forall|i: int| 0 <= i < rest.len() implies (#[trigger] rest[i]).owner() == id by {
            assert(rest[i] == rows[i]);
        }
        lemma_all_owned(rest, id);
        assert(rows[rows.len() - 1].owner() == id);
        assert(rest.push(rows.last()) =~= rows);
    }
}

/// Among the rows of the others, a quest has no rows, and every other quest
/// has the rows that it had.
pub proof fn lemma_not_owned<T: Child>(rows: Seq<T>, id: Seq<char>, other: Seq<char>)
    ensures
        owned_by(not_owned_by(rows, id), id) == Seq::<T>::empty(),
        other != id ==> owned_by(not_owned_by(rows, id), other) == owned_by(rows, other),
    decreases rows.len(),
{
    if rows.len() == 0 {
        assert(not_owned_by(rows, id) =~= Seq::<T>::empty());
        assert(owned_by(Seq::<T>::empty(), id) =~= Seq::<T>::empty());
    } else {
        let rest = rows.drop_last();
        lemma_not_owned(rest, id, other);
        let kept = not_owned_by(rest, id);
        if rows.last().owner() != id {
            assert(not_owned_by(rows, id) == kept.push(rows.last()));
            assert(kept.push(rows.last()).drop_last() =~= kept);
        }
    }
}

/// After the rows of a quest were replaced, the quest has exactly the new
/// rows, and every other quest has the rows that it had.
pub proof fn lemma_replaced<T: Child>(rows: Seq<T>, id: Seq<char>, fresh: Seq<T>, other: Seq<char>)
    requires
        all_owned_by(fresh, id),
    ensures
        owned_by(not_owned_by(rows, id) + fresh, id) == fresh,
        other != id ==> owned_by(not_owned_by(rows, id) + fresh, other) == owned_by(rows, other),
{
    let kept = not_owned_by(rows, id);
    lemma_owned_by_concat(kept, fresh, id);
    lemma_owned_by_concat(kept, fresh, other);
    lemma_not_owned(rows, id, other);
    lemma_all_owned(fresh, id);
    assert(Seq::<T>::empty() + fresh =~= fresh);
    if other != id {
        lemma_owned_by(fresh, other);
        assert(!has_owner(fresh, other)) by {
            if has_owner(fresh, other) {
                let k = choose|k: int| 0 <= k < fresh.len() && (#[trigger] fresh[k]).owner() == other;
                assert(fresh[k].owner() == id);
            }
        }
        assert(owned_by(rows, other) + Seq::<T>::empty() =~= owned_by(rows, other));
    }
}

/// A row that belongs to a quest, has a first row that does.
pub proof fn lemma_has_owner<T: Child>(rows: Seq<T>, id: Seq<char>)
    requires
        has_owner(rows, id),
    ensures
        is_first_owned(rows, id, index_of_owner(rows, id)),
    decreases rows.len(),
{
    let last = rows.len() - 1;
    if exists|k: int| 0 <= k < last && (#[trigger] rows[k]).owner() == id {
        let k = choose|k: int| 0 <= k < last && (#[trigger] rows[k]).owner() == id;
        let rest = rows.drop_last();
        assert(rest[k].owner() == id);
        lemma_has_owner(rest, id);
        let i = index_of_owner(rest, id);
        assert forall|m: int| 0 <= m < i implies (#[trigger] rows[m]).owner() != id by {
            assert(rest[m].owner() != id);
        }
        assert(rows[i] == rest[i]);
        assert(is_first_owned(rows, id, i));
    } else {
        let w = choose|w: int| 0 <= w < rows.len() && (#[trigger] rows[w]).owner() == id;
        assert(w == last);
        assert(is_first_owned(rows, id, last));
    }
}

/// After a quest was written, the store holds it as it was written, and holds
/// every other quest as it did.
pub proof fn lemma_with_quest_row(s: StoreView, quest: QuestView, other: Seq<char>)
    ensures
        s.with_quest(quest).quests[index_of_id(s.with_quest(quest).quests, quest.id)]
            == s.quest_row(quest),
        other != quest.id && s.has_quest(other) ==> s.with_quest(quest).quests[index_of_id(
            s.with_quest(quest).quests,
            other,
        )] == s.quests[index_of_id(s.quests, other)],
{
    let after = s.with_quest(quest).quests;
    let row = s.quest_row(quest);
    if s.has_quest(quest.id) {
        lemma_has_id(s.quests, quest.id);
        let i = index_of_id(s.quests, quest.id);
        assert(is_first_with_id(after, quest.id, i)) by {
            assert forall|k: int| 0 <= k < i implies (#[trigger] after[k]).id != quest.id by {
                assert(s.quests[k].id != quest.id);
            }
        }
        lemma_index_of_id(after, quest.id, i);
    } else {
        let i = s.quests.len() as int;
        assert(is_first_with_id(after, quest.id, i)) by {
            assert forall|k: int| 0 <= k < i implies (#[trigger] after[k]).id != quest.id by {
                assert(s.quests[k].id != quest.id);
            }
        }
        lemma_index_of_id(after, quest.id, i);
    }
    if other != quest.id && s.has_quest(other) {
        lemma_has_id(s.quests, other);
        let j = index_of_id(s.quests, other);
        assert(is_first_with_id(after, other, j)) by {
            assert(after[j] == s.quests[j]);
            assert forall|k: int| 0 <= k < j implies (#[trigger] after[k]).id != other by {
                assert(s.quests[k].id != other);
            }
        }
        lemma_index_of_id(after, other, j);
    }
}

/// After the media of a stored quest were written, the quest has these media,
/// and every other quest has the media that it had.
pub proof fn lemma_with_assets(s: StoreView, row: QuestAssetsView, other: Seq<char>)
    requires
        s.has_quest(row.quest_id),
    ensures
        s.with_assets(row).assets_of(row.quest_id) == Some(row),
        other != row.quest_id ==> s.with_assets(row).assets_of(other) == s.assets_of(other),
{
    let id = row.quest_id;
    let before = s.assets;
    let after = s.with_assets(row).assets;
    if has_owner(before, id) {
        lemma_has_owner(before, id);
        let i = index_of_owner(before, id);
        assert(is_first_owned(after, id, i)) by {
            assert forall|k: int| 0 <= k < i implies (#[trigger] after[k]).owner() != id by {
                assert(before[k].owner() != id);
            }
        }
        lemma_index_of_owner(after, id, i);
    } else {
        let i = before.len() as int;
        assert(is_first_owned(after, id, i)) by {
            assert forall|k: int| 0 <= k < i implies (#[trigger] after[k]).owner() != id by {
                assert(before[k].owner() != id);
            }
        }
        lemma_index_of_owner(after, id, i);
    }
    if other != id {
        if has_owner(before, other) {
            lemma_has_owner(before, other);
            let j = index_of_owner(before, other);
            assert(is_first_owned(after, other, j)) by {
                assert(after[j] == before[j]);
                assert forall|k: int| 0 <= k < j implies (#[trigger] after[k]).owner() != other by {
                    assert(before[k].owner() != other);
                }
            }
            lemma_index_of_owner(after, other, j);
        } else {
            assert(!has_owner(after, other)) by {
                if has_owner(after, other) {
                    let k = choose|k: int|
                        0 <= k < after.len() && (#[trigger] after[k]).owner() == other;
                    if k < before.len() {
                        assert(before[k].owner() == after[k].owner() || after[k] == row);
                        assert(before[k].owner() == other);
                    }
                }
            }
        }
    }
}

/// Every quest that is kept has not ended before the cutoff and is one of
/// the quests, and every quest that has not ended before the cutoff is kept.
pub proof fn lemma_recent_only(quests: Seq<QuestView>, cutoff: int)
    ensures
        forall|k: int|
            0 <= k < recent_only(quests, cutoff).len() ==> is_recent(
                #[trigger] recent_only(quests, cutoff)[k],
                cutoff,
            ) && quests.contains(recent_only(quests, cutoff)[k]),
        forall|i: int|
            0 <= i < quests.len() && is_recent(#[trigger] quests[i], cutoff) ==> recent_only(
                quests,
                cutoff,
            ).contains(quests[i]),
    decreases quests.len(),
{
    let kept = recent_only(quests, cutoff);
    if quests.len() > 0 {
        let rest = quests.drop_last();
        let kept_rest = recent_only(rest, cutoff);
        lemma_recent_only(rest, cutoff);
        let last = quests.last();
        assert(kept == if is_recent(last, cutoff) {
            kept_rest.push(last)
        } else {
            kept_rest
        });
        assert forall|k: int| 0 <= k < kept.len() implies is_recent(#[trigger] kept[k], cutoff)
            && quests.contains(kept[k]) by {
            if k < kept_rest.len() {
                assert(kept[k] == kept_rest[k]);
                let m = choose|m: int| 0 <= m < rest.len() && rest[m] == kept_rest[k];
                assert(quests[m] == kept[k]);
            } else {
                assert(quests[quests.len() - 1] == kept[k]);
            }
        }
        assert forall|i: int| 0 <= i < quests.len() && is_recent(
            #[trigger] quests[i],
            cutoff,
        ) implies kept.contains(quests[i]) by {
            if i < rest.len() {
                assert(rest[i] == quests[i]);
                let m = choose|m: int| 0 <= m < kept_rest.len() && kept_rest[m] == rest[i];
                assert(kept[m] == quests[i]);
            } else {
                assert(kept[kept.len() - 1] == quests[i]);
            }
        }
    }
}

/// Putting a quest in by its start puts it in at some place, and keeps rows
/// that descend by their start descending.
pub proof fn lemma_insert_place(rows: Seq<QuestView>, quest: QuestView) -> (p: int)
    ensures
        0 <= p <= rows.len(),
        insert_by_start(rows, quest) == rows.insert(p, quest),
        starts_descend(rows) ==> starts_descend(insert_by_start(rows, quest)),
    decreases rows.len(),
{
    if rows.len() == 0 {
        assert(seq![quest] =~= rows.insert(0, quest));
        0
    } else if rows.last().starts_at.instant() >= quest.starts_at.instant() {
        let p = rows.len() as int;
        assert(rows.push(quest) =~= rows.insert(p, quest));
        if starts_descend(rows) {
            let after = rows.push(quest);
            assert forall|i: int, j: int| 0 <= i < j < after.len() implies (
            #[trigger] after[i]).starts_at.instant() >= (#[trigger] after[j]).starts_at.instant() by {
                if j < rows.len() {
                    assert(rows[i].starts_at.instant() >= rows[j].starts_at.instant());
                } else if i < rows.len() - 1 {
                    assert(rows[i].starts_at.instant() >= rows[rows.len() - 1].starts_at.instant());
                }
            }
        }
        p
    } else {
        let rest = rows.drop_last();
        let p = lemma_insert_place(rest, quest);
        assert(rest.insert(p, quest).push(rows.last()) =~= rows.insert(p, quest));
        if starts_descend(rows) {
            assert(starts_descend(rest)) by {
                assert forall|i: int, j: int| 0 <= i < j < rest.len() implies (
                #[trigger] rest[i]).starts_at.instant() >= (
                #[trigger] rest[j]).starts_at.instant() by {
                    assert(rows[i].starts_at.instant() >= rows[j].starts_at.instant());
                }
            }
            let mid = rest.insert(p, quest);
            let after = mid.push(rows.last());
            assert forall|i: int, j: int| 0 <= i < j < after.len() implies (
            #[trigger] after[i]).starts_at.instant() >= (#[trigger] after[j]).starts_at.instant() by {
                if j < mid.len() {
                    assert(mid[i].starts_at.instant() >= mid[j].starts_at.instant());
                } else {
                    if i == p {
                    } else if i < p {
                        assert(mid[i] == rows[i]);
                        assert(rows[i].starts_at.instant() >= rows[rows.len() - 1].starts_at.instant());
                    } else {
                        assert(mid[i] == rows[i - 1]);
                        if i - 1 < rows.len() - 1 {
                            assert(rows[i - 1].starts_at.instant() >= rows[rows.len()
                                - 1].starts_at.instant());
                        }
                    }
                }
            }
        }
        p
    }
}

/// The quests in the order of their start are the same quests, each as often
/// as before, and each starts no later than the one before it.
pub proof fn lemma_latest_first(rows: Seq<QuestView>)
    ensures
        latest_first(rows).len() == rows.len(),
        latest_first(rows).to_multiset() == rows.to_multiset(),
        starts_descend(latest_first(rows)),
    decreases rows.len(),
{
    broadcast use vstd::seq_lib::group_to_multiset_ensures;

    if rows.len() == 0 {
        assert(latest_first(rows) =~= rows);
    } else {
        let rest = rows.drop_last();
        lemma_latest_first(rest);
        let sorted = latest_first(rest);
        let p = lemma_insert_place(sorted, rows.last());
        assert(rest.push(rows.last()) =~= rows);
        assert(sorted.insert(p, rows.last()).to_multiset() == sorted.to_multiset().insert(
            rows.last(),
        ));
        assert(rest.push(rows.last()).to_multiset() == rest.to_multiset().insert(rows.last()));
    }
}

/// Age filter: a stored quest is listed exactly where it has not ended more
/// than `age_days` days before the clock's reading; one that ended exactly
/// that long ago is listed. The list holds only stored quests, the one that
/// started last coming first, and each with all that belongs to it.
pub proof fn law_age_filter(s: StoreView, age_days: int)
    ensures
        forall|i: int|
            0 <= i < s.quests.len() ==> (s.recent_quests(age_days).contains(#[trigger] s.quests[i])
                <==> s.quests[i].expires_at.instant() >= s.now.instant() - age_days
                * 86_400_000_000_000),
        forall|k: int|
            0 <= k < s.recent_quests(age_days).len() ==> s.quests.contains(
                #[trigger] s.recent_quests(age_days)[k],
            ),
        starts_descend(s.recent_quests(age_days)),
        s.recent(age_days).len() == s.recent_quests(age_days).len(),
        forall|k: int|
            0 <= k < s.recent(age_days).len() ==> #[trigger] s.recent(age_days)[k] == s.complete(
                s.recent_quests(age_days)[k].id,
            ),
{
    broadcast use vstd::seq_lib::group_to_multiset_ensures;

    let cutoff = s.cutoff(age_days);
    let kept = recent_only(s.quests, cutoff);
    let listed = s.recent_quests(age_days);
    lemma_recent_only(s.quests, cutoff);
    lemma_latest_first(kept);
    assert forall|x: QuestView| listed.contains(x) <==> kept.contains(x) by {
        assert(listed.to_multiset().count(x) == kept.to_multiset().count(x));
    }
    assert forall|i: int| 0 <= i < s.quests.len() implies (listed.contains(#[trigger] s.quests[i])
        <==> is_recent(s.quests[i], cutoff)) by {
        if listed.contains(s.quests[i]) {
            assert(kept.contains(s.quests[i]));
            let k = choose|k: int| 0 <= k < kept.len() && kept[k] == s.quests[i];
            assert(is_recent(kept[k], cutoff));
        }
        if is_recent(s.quests[i], cutoff) {
            assert(kept.contains(s.quests[i]));
        }
    }
    assert forall|k: int| 0 <= k < listed.len() implies s.quests.contains(#[trigger] listed[k]) by {
        assert(listed.contains(listed[k]));
        assert(kept.contains(listed[k]));
        let m = choose|m: int| 0 <= m < kept.len() && kept[m] == listed[k];
        assert(s.quests.contains(kept[m]));
    }
}

/// A key under which a document is cached, has a first place.
pub proof fn lemma_has_key(rows: Seq<CacheStoreView>, key: Seq<char>)
    requires
        has_key(rows, key),
    ensures
        is_first_with_key(rows, key, index_of_key(rows, key)),
    decreases rows.len(),
{
    let last = rows.len() - 1;
    if exists|k: int| 0 <= k < last && (#[trigger] rows[k]).id == key {
        let k = choose|k: int| 0 <= k < last && (#[trigger] rows[k]).id == key;
        let rest = rows.drop_last();
        assert(rest[k].id == key);
        lemma_has_key(rest, key);
        let i = index_of_key(rest, key);
        assert forall|m: int| 0 <= m < i implies (#[trigger] rows[m]).id != key by {
            assert(rest[m].id != key);
        }
        assert(rows[i] == rest[i]);
        assert(is_first_with_key(rows, key, i));
    } else {
        let w = choose|w: int| 0 <= w < rows.len() && (#[trigger] rows[w]).id == key;
        assert(w == last);
        assert(is_first_with_key(rows, key, last));
    }
}

/// After a document was cached under a key, it is what is cached there, as
/// written now; caching it once more changes nothing; and the quests are
/// listed as before.
pub proof fn lemma_with_cache(s: StoreView, key: Seq<char>, data: JsonView)
    ensures
        s.with_cache(key, data).cached(key) == Some(
            CacheStoreView { id: key, data, updated_at: s.now },
        ),
        s.with_cache(key, data).with_cache(key, data) == s.with_cache(key, data),
        s.with_cache(key, data).known_ids() == s.known_ids(),
        forall|age_days: int| #[trigger] s.with_cache(
            key,
            data,
        ).recent(age_days) == s.recent(age_days),
        s.wf() ==> s.with_cache(key, data).wf(),
{
    let row = CacheStoreView { id: key, data, updated_at: s.now };
    let after = s.with_cache(key, data);
    let i = if has_key(s.cache, key) {
        lemma_has_key(s.cache, key);
        index_of_key(s.cache, key)
    } else {
        s.cache.len() as int
    };
    assert(is_first_with_key(after.cache, key, i)) by {
        assert forall|k: int| 0 <= k < i implies (#[trigger] after.cache[k]).id != key by {
            assert(s.cache[k].id != key);
        }
    }
    lemma_index_of_key(after.cache, key, i);
    assert(after.cache.update(i, row) =~= after.cache);
    assert forall|age_days: int| #[trigger] after.recent(age_days) == s.recent(age_days) by {
        assert(after.recent_quests(age_days) == s.recent_quests(age_days));
        assert forall|id: Seq<char>| after.complete(id) == s.complete(id) by {}
        assert(after.recent(age_days) =~= s.recent(age_days));
    }
    if s.wf() {
        assert forall|a: int, b: int| 0 <= a < b < after.cache.len() implies (
        #[trigger] after.cache[a]).id != (#[trigger] after.cache[b]).id by {
            if has_key(s.cache, key) {
                assert(s.cache[a].id != s.cache[b].id);
            } else if b < s.cache.len() {
                assert(s.cache[a].id != s.cache[b].id);
            } else {
                assert(s.cache[a].id != key);
            }
        }
    }
}


/// Writing the media of a stored quest keeps the invariant of the data model.
pub proof fn lemma_with_assets_wf(s: StoreView, row: QuestAssetsView)
    requires
        s.wf(),
    ensures
        s.with_assets(row).wf(),
{
    if s.has_quest(row.quest_id) {
        if has_owner(s.assets, row.quest_id) {
            lemma_has_owner(s.assets, row.quest_id);
            lemma_same_owner_update(s.assets, index_of_owner(s.assets, row.quest_id), row);
        } else {
            lemma_new_owner_push(s.assets, row, s.quests);
        }
    }
}

/// Replacing the rows of a quest that accepts them keeps the invariant of the
/// data model.
pub proof fn lemma_replace_wf(
    s: StoreView,
    id: Seq<char>,
    tasks: Seq<QuestTaskView>,
    rewards: Seq<QuestRewardView>,
    features: Seq<QuestFeatureView>,
)
    requires
        s.wf(),
        all_owned_by(tasks, id),
        all_owned_by(rewards, id),
        all_owned_by(features, id),
        s.accepts_children(id, tasks.len()),
        s.accepts_children(id, rewards.len()),
        s.accepts_children(id, features.len()),
    ensures
        s.with_tasks(id, tasks).wf(),
        s.with_rewards(id, rewards).wf(),
        s.with_features(id, features).wf(),
{
    lemma_replaced_have_quest(s.tasks, id, tasks, s.quests);
    lemma_replaced_have_quest(s.rewards, id, rewards, s.quests);
    lemma_replaced_have_quest(s.features, id, features, s.quests);
}

} // verus!

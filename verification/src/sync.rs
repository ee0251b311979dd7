//! The cache gate and the sync cycle.
//!
//! A request is answered from the cached catalog while that is fresh. Once it
//! is stale, or where there is none, the caller fetches the provider's catalog
//! and hands it to the sync cycle, which ingests the quests that the store
//! does not hold yet, rebuilds the catalog from the store, caches it and
//! returns it.

use crate::config::Config;
use crate::error::ApiError;
use crate::ingest::{
    ingest_all, lemma_ingest_all, lemma_known_ids, lemma_unknown_is_kept,
    save_discord_quests_to_db, unknown_only,
};
use crate::json::{Json, JsonView};
use crate::provider::{unreadable_catalog_message, DiscordQuestResponseView, DiscordQuestView};
use crate::reconstruct::{catalog_document, reconstruct_discord_response};
use crate::store::{QuestStore, StoreView, get_cache, lemma_with_cache, upsert_cache};
use crate::time::{timestamp_failure_prefix, Timestamp, NANOS_PER_MILLI};
use vstd::prelude::*;

verus! {

/// The key under which the catalog is cached.
pub open spec fn cache_key() -> Seq<char> {
    "discord_quests"@
}

/// The whole milliseconds from `then` to `now`, counted towards zero.
pub open spec fn elapsed_millis(now: Timestamp, then: Timestamp) -> int {
    let nanos = now.instant() - then.instant();
    if nanos >= 0 {
        nanos / 1_000_000
    } else {
        -((-nanos) / 1_000_000)
    }
}

/// Whether a document written at `updated_at` is stale at `now`: whether at
/// least `duration_ms` milliseconds have passed.
pub open spec fn stale_at(now: Timestamp, updated_at: Timestamp, duration_ms: int) -> bool {
    elapsed_millis(now, updated_at) >= duration_ms
}

/// Whether a document written at `updated_at` is stale at `now`.
pub fn is_stale_at(now: Timestamp, updated_at: Timestamp, duration_ms: i128) -> (stale: bool)
    ensures
        stale == stale_at(now, updated_at, duration_ms as int),
{
    let nanos: i128 = now.nanos_since_epoch() - updated_at.nanos_since_epoch();
    let elapsed: i128 = if nanos >= 0 {
        nanos / NANOS_PER_MILLI
    } else {
        -((-nanos) / NANOS_PER_MILLI)
    };
    elapsed >= duration_ms
}

/// Whether a document written at `updated_at` is stale by the system clock.
///
/// The clock is read once; the answer is that of [`is_stale_at`] for the
/// instant that was read.
pub fn is_cache_stale(updated_at: Timestamp, duration_ms: i64) -> (stale: bool)
    ensures
        exists|now: Timestamp| stale == stale_at(now, updated_at, duration_ms as int),
{
    let now = Timestamp::now();
    let stale = is_stale_at(now, updated_at, duration_ms as i128);
    assert(stale == stale_at(now, updated_at, duration_ms as int));
    stale
}

/// What the cache gate decides for a request.
#[derive(Debug, PartialEq, Eq)]
pub enum QuestsStep {
    /// The cached catalog is fresh: it is the answer.
    Serve(Json),
    /// There is no fresh catalog: the provider's catalog has to be fetched and
    /// handed to the sync cycle.
    Refresh,
}

/// The catalog that answers a request without a fetch, if there is one: the
/// cached catalog, where it was written less than the cache duration before
/// the clock's reading.
pub open spec fn fresh_catalog(s: StoreView, duration_ms: int) -> Option<JsonView> {
    match s.cached(cache_key()) {
        Some(row) => if stale_at(s.now, row.updated_at, duration_ms) {
            None
        } else {
            Some(row.data)
        },
        None => None,
    }
}

/// The cache gate: serves the cached catalog unchanged while it is fresh by
/// the store's clock, and asks for a refresh otherwise.
pub fn get_quests(store: &QuestStore, config: &Config) -> (r: Result<QuestsStep, ApiError>)
    ensures
        r is Ok,
        match fresh_catalog(store@, config.cache_duration_millis()) {
            Some(catalog) => r matches Ok(QuestsStep::Serve(served)) && served@ == catalog,
            None => r matches Ok(QuestsStep::Refresh),
        },
{
    let cached = match get_cache(store, "discord_quests") {
        Ok(cached) => cached,
        Err(e) => {
            return Err(e);
        },
    };
    match cached {
        Some(row) => {
            let duration_ms: i128 = (config.cache_duration_minutes as i128) * 60_000;
            if is_stale_at(store.clock(), row.updated_at, duration_ms) {
                Ok(QuestsStep::Refresh)
            } else {
                Ok(QuestsStep::Serve(row.data))
            }
        },
        None => Ok(QuestsStep::Refresh),
    }
}

/// How a sync cycle ended: the store that it left, and the catalog that it
/// rebuilt, or nothing where it failed.
pub ghost struct SyncRun {
    pub store: StoreView,
    pub new_count: nat,
    pub document: Option<JsonView>,
}

/// One sync cycle on the catalog `response`: the quests that the store does
/// not hold are ingested in order; where all could be, the catalog is rebuilt
/// from the store and cached. A catalog that cannot be read, or a quest that
/// cannot be ingested, ends the cycle without a rebuilt catalog, and leaves
/// the cache as it was.
pub open spec fn synced(s: StoreView, response: JsonView, age_days: int) -> SyncRun {
    match DiscordQuestResponseView::parse(response) {
        None => SyncRun { store: s, new_count: 0, document: None },
        Some(catalog) => {
            let fresh = unknown_only(catalog.quests, s.known_ids());
            let run = ingest_all(s, fresh);
            if run.complete {
                let document = catalog_document(run.store.recent(age_days));
                SyncRun {
                    store: run.store.with_cache(cache_key(), document),
                    new_count: fresh.len(),
                    document: Some(document),
                }
            } else {
                SyncRun { store: run.store, new_count: fresh.len(), document: None }
            }
        },
    }
}

/// Whether `e` is the mapping failure of a sync cycle on `response`: for a
/// catalog that cannot be read, the failure that says so; for a quest whose
/// timestamps cannot be read, a failure whose message starts with "Failed to
/// parse timestamp: ".
pub open spec fn is_mapping_failure(e: ApiError, response: JsonView) -> bool {
    &&& e is InternalError
    &&& if DiscordQuestResponseView::parse(response) is None {
        e.message() == unreadable_catalog_message()
    } else {
        timestamp_failure_prefix().is_prefix_of(e.message())
    }
}

/// Runs one sync cycle on what the fetch returned, and returns the rebuilt
/// catalog.
///
/// A fetch that failed is passed on, and leaves the store as it is. Otherwise
/// the cycle succeeds exactly where the catalog can be read and each new quest
/// can be ingested; where it fails, the failure is a mapping failure.
pub fn refresh_quests(
    store: &mut QuestStore,
    config: &Config,
    fetched: Result<Json, ApiError>,
) -> (r: Result<Json, ApiError>)
    ensures
        match fetched {
            Err(e) => r == Err::<Json, ApiError>(e) && final(store)@ == old(store)@,
            Ok(response) => {
                let run = synced(old(store)@, response@, config.quest_age_days as int);
                &&& final(store)@ == run.store
                &&& match run.document {
                    Some(document) => r matches Ok(rebuilt) && rebuilt@ == document,
                    None => r matches Err(e) && is_mapping_failure(e, response@),
                }
            },
        },
        old(store)@.wf() ==> final(store)@.wf(),
{
    let response = match fetched {
        Ok(response) => response,
        Err(e) => {
            return Err(e);
        },
    };
    match save_discord_quests_to_db(store, &response) {
        Ok(_) => {},
        Err(e) => {
            return Err(e);
        },
    }
    let rebuilt = match reconstruct_discord_response(store, config.quest_age_days) {
        Ok(rebuilt) => rebuilt,
        Err(e) => {
            return Err(e);
        },
    };
    match upsert_cache(store, "discord_quests", &rebuilt) {
        Ok(()) => {},
        Err(e) => {
            return Err(e);
        },
    }
    Ok(rebuilt)
}

/// Runs one sync cycle on what the fetch returned, as at start-up: the rebuilt
/// catalog is cached and not returned.
pub fn fetch_and_cache_quests(
    store: &mut QuestStore,
    config: &Config,
    fetched: Result<Json, ApiError>,
) -> (r: Result<(), ApiError>)
    ensures
        match fetched {
            Err(e) => r == Err::<(), ApiError>(e) && final(store)@ == old(store)@,
            Ok(response) => {
                let run = synced(old(store)@, response@, config.quest_age_days as int);
                &&& final(store)@ == run.store
                &&& r is Ok <==> run.document is Some
                &&& r matches Err(e) ==> is_mapping_failure(e, response@)
            },
        },
        old(store)@.wf() ==> final(store)@.wf(),
{
    match refresh_quests(store, config, fetched) {
        Ok(_) => Ok(()),
        Err(e) => Err(e),
    }
}

/// A sync cycle keeps the invariant of the data model, and leaves the clock
/// as it was.
pub proof fn law_sync_keeps_invariant(s: StoreView, response: JsonView, age_days: int)
    ensures
        synced(s, response, age_days).store.now == s.now,
        s.wf() ==> synced(s, response, age_days).store.wf(),
{
    match DiscordQuestResponseView::parse(response) {
        None => {},
        Some(catalog) => {
            let fresh = unknown_only(catalog.quests, s.known_ids());
            let run = ingest_all(s, fresh);
            lemma_ingest_all(s, fresh);
            lemma_with_cache(run.store, cache_key(), catalog_document(run.store.recent(age_days)));
        },
    }
}

/// What a sync cycle has just rebuilt is what the cache gate serves, as long
/// as the clock has not moved and the cache duration is more than nothing.
pub proof fn law_rebuilt_is_served(
    s: StoreView,
    response: JsonView,
    age_days: int,
    duration_ms: int,
)
    requires
        synced(s, response, age_days).document is Some,
        duration_ms > 0,
    ensures
        fresh_catalog(synced(s, response, age_days).store, duration_ms) == synced(
            s,
            response,
            age_days,
        ).document,
{
    let catalog = DiscordQuestResponseView::parse(response).unwrap();
    let fresh = unknown_only(catalog.quests, s.known_ids());
    let run = ingest_all(s, fresh);
    let document = catalog_document(run.store.recent(age_days));
    lemma_with_cache(run.store, cache_key(), document);
    lemma_elapsed_exact(run.store.now, run.store.now, 0);
}

/// Staleness boundary: a catalog cached at an instant is served unchanged one
/// millisecond short of the cache duration after it, and is stale exactly the
/// cache duration after it.
pub proof fn law_staleness_boundary(s: StoreView, duration_ms: int)
    requires
        s.cached(cache_key()) is Some,
    ensures
        s.now.instant() == s.cached(cache_key()).unwrap().updated_at.instant() + (duration_ms - 1)
            * 1_000_000 ==> fresh_catalog(s, duration_ms) == Some(
            s.cached(cache_key()).unwrap().data,
        ),
        s.now.instant() == s.cached(cache_key()).unwrap().updated_at.instant() + duration_ms
            * 1_000_000 ==> fresh_catalog(s, duration_ms) is None,
{
    let written = s.cached(cache_key()).unwrap().updated_at;
    lemma_elapsed_exact(s.now, written, duration_ms - 1);
    lemma_elapsed_exact(s.now, written, duration_ms);
}

/// Where `now` is a whole number of milliseconds after `then`, that many
/// milliseconds have passed.
pub proof fn lemma_elapsed_exact(now: Timestamp, then: Timestamp, millis: int)
    ensures
        now.instant() == then.instant() + millis * 1_000_000 ==> elapsed_millis(now, then)
            == millis,
{
    if now.instant() == then.instant() + millis * 1_000_000 {
        let nanos = now.instant() - then.instant();
        assert(nanos == millis * 1_000_000);
        if millis >= 0 {
            assert((millis * 1_000_000) / 1_000_000 == millis) by (nonlinear_arith)
                requires
                    millis >= 0,
            ;
        } else {
            let m = -millis;
            assert(-nanos == m * 1_000_000);
            assert((m * 1_000_000) / 1_000_000 == m) by (nonlinear_arith)
                requires
                    m >= 0,
            ;
        }
    }
}

/// Incremental sync is idempotent: after a sync cycle that succeeded, a second
/// cycle on the same catalog ingests no quest, whatever the clock reads by
/// then; and with the clock where it was, it rebuilds the same catalog and
/// leaves the store as the first cycle left it.
pub proof fn law_sync_idempotent(s: StoreView, response: JsonView, age_days: int, later: Timestamp)
    requires
        synced(s, response, age_days).document is Some,
    ensures
        synced(synced(s, response, age_days).store.at(later), response, age_days).new_count == 0,
        synced(synced(s, response, age_days).store, response, age_days).document == synced(
            s,
            response,
            age_days,
        ).document,
        synced(synced(s, response, age_days).store, response, age_days).store == synced(
            s,
            response,
            age_days,
        ).store,
{
    let catalog = DiscordQuestResponseView::parse(response).unwrap();
    let fresh = unknown_only(catalog.quests, s.known_ids());
    let run = ingest_all(s, fresh);
    let first = synced(s, response, age_days);
    let document = first.document.unwrap();
    lemma_ingest_all(s, fresh);
    lemma_with_cache(run.store, cache_key(), document);
    assert(first.store.now == s.now);
    assert(first.store.at(s.now) == first.store);
    assert forall|t: Timestamp| #[trigger]
        unknown_only(catalog.quests, first.store.at(t).known_ids()) == Seq::<
            DiscordQuestView,
        >::empty() by {
        let known = first.store.at(t).known_ids();
        assert(known == run.store.known_ids());
        assert forall|k: int| 0 <= k < catalog.quests.len() implies known.contains(
            (#[trigger] catalog.quests[k]).id,
        ) by {
            let id = catalog.quests[k].id;
            lemma_known_ids(run.store, id);
            lemma_known_ids(s, id);
            if !s.known_ids().contains(id) {
                lemma_unknown_is_kept(catalog.quests, s.known_ids(), k);
                let m = choose|m: int| 0 <= m < fresh.len() && fresh[m] == catalog.quests[k];
                assert(run.store.has_quest(fresh[m].id));
            }
        }
        lemma_all_known(catalog.quests, known);
    }
    assert(unknown_only(catalog.quests, first.store.at(later).known_ids()).len() == 0);
    assert(unknown_only(catalog.quests, first.store.known_ids()).len() == 0);
}

/// Where every quest is known, none is unknown.
pub proof fn lemma_all_known(quests: Seq<DiscordQuestView>, known: Seq<Seq<char>>)
    requires
        forall|k: int| 0 <= k < quests.len() ==> known.contains((#[trigger] quests[k]).id),
    ensures
        unknown_only(quests, known) == Seq::<DiscordQuestView>::empty(),
    decreases quests.len(),
{
    if quests.len() > 0 {
        let rest = quests.drop_last();
        assert forall|k: int| 0 <= k < rest.len() implies known.contains(
            (#[trigger] rest[k]).id,
        ) by {
            assert(rest[k] == quests[k]);
        }
        lemma_all_known(rest, known);
        assert(known.contains(quests[quests.len() - 1].id));
    }
}

} // verus!

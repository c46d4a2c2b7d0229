use backend_runtime::component::{CanonicalizedComponentModulePath, ComponentId};
use backend_runtime::context_cache::{
    ContextCache, ContextCacheBudget, RemovedContexts, ReusableContextKey,
    CGROUP_PRESSURE_REUSABLE_CONTEXTS_PER_ISOLATE,
};
use backend_runtime::context_kind::{ContextCacheClearReason, ReusableContextKind};
use backend_runtime::metric_log::MetricLog;
use backend_runtime::tiny_lfu::{
    CacheEvictionReason, CacheInsertionResult, CacheSegment, TinyLfuCache,
};

const PROTECTED_CAPACITY: usize = 15;
const MAX_REUSABLE_CONTEXTS_PER_ISOLATE: usize = PROTECTED_CAPACITY + 1;

fn new_cache() -> TinyLfuCache<u16, u16> {
    TinyLfuCache::with_protected_capacity(PROTECTED_CAPACITY)
}

fn miss_and_save(cache: &mut TinyLfuCache<u16, u16>, key: u16) -> CacheInsertionResult<u16, u16> {
    assert!(cache.take(&key).is_none());
    cache.insert_new(key, key)
}

fn hit_and_return(cache: &mut TinyLfuCache<u16, u16>, key: u16) {
    let entry = cache.take(&key).expect("expected cache hit");
    assert!(cache.reinsert(entry).candidate_admitted);
}

fn fill_cache() -> TinyLfuCache<u16, u16> {
    let mut cache = new_cache();
    for key in 1..=MAX_REUSABLE_CONTEXTS_PER_ISOLATE as u16 {
        assert!(miss_and_save(&mut cache, key).candidate_admitted);
    }
    cache
}

#[test]
fn configured_protected_capacity_changes_the_cache_shape() {
    let protected_capacity = 7;
    let reusable_capacity = protected_capacity + 1;
    let mut cache = TinyLfuCache::with_protected_capacity(protected_capacity);
    for key in 1..=reusable_capacity as u16 {
        assert!(miss_and_save(&mut cache, key).candidate_admitted);
    }

    assert_eq!(cache.main.len(), protected_capacity);
    assert!(cache.window.is_some());
    assert_eq!(cache.len(), reusable_capacity);
    assert_eq!(cache.frequency_aging_interval, reusable_capacity * 16);

    assert!(miss_and_save(&mut cache, reusable_capacity as u16 + 1).candidate_admitted);
    assert_eq!(cache.len(), reusable_capacity);
}

fn contents(cache: &TinyLfuCache<u16, u16>) -> Vec<(u16, u16)> {
    let mut contents: Vec<(u16, u16)> =
        cache.window.iter().chain(&cache.main).map(|entry| (entry.key, entry.value)).collect();
    contents.sort();
    contents
}

#[test]
fn insertions_lose_no_entry() {
    let mut cache = fill_cache();
    for (key, value) in [(40, 1), (3, 2), (40, 3), (41, 4)] {
        let mut expected = contents(&cache);
        expected.push((key, value));
        expected.sort();
        let insertion = cache.insert_new(key, value);
        assert!(insertion.candidate_admitted);
        let evicted = insertion.evicted.expect("a full cache gives up an entry");
        let mut found = contents(&cache);
        found.push((evicted.entry.key, evicted.entry.value));
        found.sort();
        assert_eq!(found, expected);
    }
}

#[test]
fn replacements_lose_no_entry() {
    let mut cache = new_cache();
    for key in 1..=3 {
        assert!(cache.insert_new(key, key).candidate_admitted);
    }
    let mut expected = contents(&cache);
    expected.push((9, 90));
    let insertion = cache.insert_new_without_growth(9, 90);
    assert!(insertion.candidate_admitted);
    let evicted = insertion.evicted.expect("an entry was replaced");
    let mut found = contents(&cache);
    found.push((evicted.entry.key, evicted.entry.value));
    found.sort();
    assert_eq!(found, expected);
    assert_eq!(cache.len(), 3);
}

#[test]
fn one_hit_outlier_does_not_evict_protected_resident() {
    let mut cache = fill_cache();
    let window_key = MAX_REUSABLE_CONTEXTS_PER_ISOLATE as u16;
    let new_key = window_key + 1;
    let insertion = miss_and_save(&mut cache, new_key);

    assert!(insertion.candidate_admitted);
    assert_eq!(cache.len(), MAX_REUSABLE_CONTEXTS_PER_ISOLATE);
    assert!(cache.contains_key(&new_key));
    assert!(!cache.contains_key(&window_key));
    assert!((1..window_key).all(|key| cache.contains_key(&key)));
    assert!(insertion.evicted.iter().any(|entry| {
        entry.entry.key == window_key
            && entry.reason == CacheEvictionReason::FrequencyRejection
            && entry.was_cached
    }));
}

#[test]
fn hot_probationary_entry_replaces_weakest_protected_resident() {
    let mut cache = fill_cache();
    let window_key = MAX_REUSABLE_CONTEXTS_PER_ISOLATE as u16;
    let new_key = window_key + 1;
    hit_and_return(&mut cache, window_key);
    hit_and_return(&mut cache, window_key);

    let insertion = miss_and_save(&mut cache, new_key);
    assert!(cache.contains_key(&window_key));
    assert!(!cache.contains_key(&1));
    assert!(insertion.evicted.iter().any(|entry| {
        entry.entry.key == 1 && entry.reason == CacheEvictionReason::FrequencyAdmission
    }));
}

#[test]
fn frequency_aging_forgets_old_popularity() {
    let mut cache = new_cache();
    for _ in 0..8 {
        cache.observe(&1);
    }
    for offset in 0..(cache.frequency_aging_interval as u16 - 8) {
        cache.observe(&(1000 + offset));
    }
    assert_eq!(cache.frequency(&1), 4);

    for round in 0..4u16 {
        for offset in 0..cache.frequency_aging_interval as u16 {
            cache.observe(&(2000 + round * cache.frequency_aging_interval as u16 + offset));
        }
    }
    assert_eq!(cache.frequency(&1), 0);
}

#[test]
fn returning_protected_entry_stays_bounded_after_nested_save() {
    let mut cache = fill_cache();
    let outer = cache.take(&1).expect("expected protected outer hit");
    assert_eq!(outer.segment, CacheSegment::Main);

    let new_key = MAX_REUSABLE_CONTEXTS_PER_ISOLATE as u16 + 1;
    assert!(miss_and_save(&mut cache, new_key).candidate_admitted);
    let insertion = cache.reinsert(outer);

    assert!(insertion.candidate_admitted);
    assert_eq!(cache.len(), MAX_REUSABLE_CONTEXTS_PER_ISOLATE);
    assert!(cache.contains_key(&1));
    assert!(!cache.contains_key(&2));
}

#[test]
fn duplicate_nested_key_is_replaced_without_duplicate_residents() {
    let mut cache = fill_cache();
    let outer = cache.take(&1).expect("expected protected outer hit");
    assert!(miss_and_save(&mut cache, 1).candidate_admitted);

    let insertion = cache.reinsert(outer);
    assert!(insertion.candidate_admitted);
    assert!(cache.contains_key(&1));
    assert_eq!(cache.keys().iter().filter(|key| **key == 1).count(), 1);
    assert!(cache.len() <= MAX_REUSABLE_CONTEXTS_PER_ISOLATE);
    assert!(insertion.evicted.iter().any(|entry| {
        entry.entry.key == 1
            && entry.reason == CacheEvictionReason::DuplicateReplacement
            && entry.was_cached
    }));
}

#[test]
fn returning_protected_context_replaces_nested_duplicate_in_place() {
    let mut cache = fill_cache();
    for key in 2..=MAX_REUSABLE_CONTEXTS_PER_ISOLATE as u16 {
        for _ in 0..4 {
            hit_and_return(&mut cache, key);
        }
    }
    let outer = cache.take(&1).expect("expected protected outer hit");
    assert!(miss_and_save(&mut cache, 1).candidate_admitted);

    let insertion = cache.reinsert(outer);

    assert!(insertion.candidate_admitted);
    assert!(cache.contains_key(&1));
    assert_eq!(cache.len(), MAX_REUSABLE_CONTEXTS_PER_ISOLATE);
    assert!(insertion.evicted.iter().any(|entry| {
        entry.entry.key == 1
            && entry.reason == CacheEvictionReason::DuplicateReplacement
            && entry.was_cached
    }));
    assert!(!insertion
        .evicted
        .iter()
        .any(|entry| entry.reason == CacheEvictionReason::FrequencyRejection));
    assert_eq!(
        cache.take(&1).expect("replacement disappeared").segment,
        CacheSegment::Window
    );
}

#[test]
fn recency_breaks_returning_protected_frequency_tie() {
    let mut cache = fill_cache();
    let outer = cache.take(&1).expect("expected protected outer hit");
    let new_key = MAX_REUSABLE_CONTEXTS_PER_ISOLATE as u16 + 1;
    assert!(miss_and_save(&mut cache, new_key).candidate_admitted);
    for key in 2..=MAX_REUSABLE_CONTEXTS_PER_ISOLATE as u16 {
        cache.observe(&key);
    }

    let insertion = cache.reinsert(outer);

    assert!(insertion.candidate_admitted);
    assert!(cache.contains_key(&1));
    assert!(!cache.contains_key(&2));
    assert_eq!(cache.len(), MAX_REUSABLE_CONTEXTS_PER_ISOLATE);
}

#[test]
fn memory_pressure_evicts_window_then_weakest_protected_entry() {
    let mut cache = fill_cache();
    hit_and_return(&mut cache, 1);
    let window_key = MAX_REUSABLE_CONTEXTS_PER_ISOLATE as u16;

    let first = cache.evict_for_memory_pressure().expect("expected probationary eviction");
    let second = cache.evict_for_memory_pressure().expect("expected protected eviction");

    assert_eq!(first.entry.key, window_key);
    assert_eq!(second.entry.key, 2);
    assert_eq!(first.reason, CacheEvictionReason::MemoryPressure);
    assert_eq!(second.reason, CacheEvictionReason::MemoryPressure);
}

#[test]
fn cgroup_pressure_keeps_only_the_two_strongest_protected_entries() {
    let mut cache = fill_cache();
    for _ in 0..3 {
        hit_and_return(&mut cache, 1);
    }
    for _ in 0..2 {
        hit_and_return(&mut cache, 2);
    }

    let evicted = cache
        .shrink_for_cgroup_memory_pressure(CGROUP_PRESSURE_REUSABLE_CONTEXTS_PER_ISOLATE)
        .into_iter()
        .map(|evicted| evicted.entry.key)
        .collect::<Vec<_>>();

    assert_eq!(evicted.first().copied(), Some(MAX_REUSABLE_CONTEXTS_PER_ISOLATE as u16));
    assert_eq!(
        evicted.len(),
        MAX_REUSABLE_CONTEXTS_PER_ISOLATE - CGROUP_PRESSURE_REUSABLE_CONTEXTS_PER_ISOLATE
    );
    assert!(evicted[1..].iter().all(|key| *key >= 3));
    assert!(cache.contains_key(&1));
    assert!(cache.contains_key(&2));
}

#[test]
fn cgroup_pressure_removes_a_partial_cache_probationary_resident() {
    let mut cache = new_cache();
    assert!(miss_and_save(&mut cache, 1).candidate_admitted);
    assert!(miss_and_save(&mut cache, 2).candidate_admitted);
    assert_eq!(cache.len(), CGROUP_PRESSURE_REUSABLE_CONTEXTS_PER_ISOLATE);

    let evicted =
        cache.shrink_for_cgroup_memory_pressure(CGROUP_PRESSURE_REUSABLE_CONTEXTS_PER_ISOLATE);

    assert_eq!(evicted.len(), 1);
    assert_eq!(evicted[0].entry.key, 2);
    assert!(cache.window.is_none());
    assert_eq!(cache.len(), 1);
    assert!(cache.contains_key(&1));
}

#[test]
fn hot_protected_context_returning_during_pressure_competes_for_two_slots() {
    let mut cache = fill_cache();
    for _ in 0..3 {
        hit_and_return(&mut cache, 1);
    }
    for _ in 0..2 {
        hit_and_return(&mut cache, 2);
    }
    let returning = cache.take(&1).expect("expected protected context in flight");
    drop(cache.shrink_for_cgroup_memory_pressure(CGROUP_PRESSURE_REUSABLE_CONTEXTS_PER_ISOLATE));

    let insertion = cache.reinsert_protected_with_capacity(
        returning,
        CGROUP_PRESSURE_REUSABLE_CONTEXTS_PER_ISOLATE,
    );

    assert!(insertion.candidate_admitted);
    assert_eq!(cache.len(), CGROUP_PRESSURE_REUSABLE_CONTEXTS_PER_ISOLATE);
    assert!(cache.contains_key(&1));
    assert!(cache.contains_key(&2));
}

#[test]
fn no_growth_admission_preserves_the_hard_entry_bound() {
    let mut cache = new_cache();
    assert!(miss_and_save(&mut cache, 1).candidate_admitted);

    let insertion = cache.insert_new_without_growth(2, 2);
    assert!(insertion.candidate_admitted);
    assert_eq!(cache.len(), 1);
    assert!(cache.contains_key(&2));
    assert!(!cache.contains_key(&1));
    assert!(insertion.evicted.iter().any(|entry| {
        entry.entry.key == 1 && entry.reason == CacheEvictionReason::PoolCapacityReplacement
    }));
}

#[test]
fn no_growth_admission_does_not_fill_an_empty_protected_slot() {
    let mut cache = new_cache();
    for key in 1..=3 {
        assert!(miss_and_save(&mut cache, key).candidate_admitted);
    }

    let insertion = cache.insert_new_without_growth(4, 4);

    assert!(insertion.candidate_admitted);
    assert_eq!(cache.len(), 3);
    assert!(cache.contains_key(&4));
    assert!((1..=2).all(|key| cache.contains_key(&key)));
    assert!(!cache.contains_key(&3));
    assert!(insertion.evicted.iter().any(|entry| {
        entry.entry.key == 3
            && entry.reason == CacheEvictionReason::FrequencyRejection
            && entry.was_cached
    }));
}

#[test]
fn pool_full_miss_cannot_evict_main_while_window_is_in_flight() {
    let mut cache = fill_cache();
    let window_key = MAX_REUSABLE_CONTEXTS_PER_ISOLATE as u16;
    let new_key = window_key + 1;
    let window = cache.take(&window_key).expect("expected probationary hit");

    assert!(!cache.can_insert_without_growth(&new_key));
    assert!((1..window_key).all(|key| cache.contains_key(&key)));

    assert!(cache.reinsert(window).candidate_admitted);
    assert_eq!(cache.len(), MAX_REUSABLE_CONTEXTS_PER_ISOLATE);
}

#[test]
fn shared_budget_token_is_retained_until_drop() {
    let mut budget = ContextCacheBudget::new(2);
    let first = budget.try_acquire().expect("first permit rejected");
    let second = budget.try_acquire().expect("second permit rejected");
    assert!(budget.try_acquire().is_none());
    assert_eq!(budget.owned_contexts(), 2);

    budget.release(first);
    let replacement = budget.try_acquire().expect("released permit not reusable");
    assert_eq!(budget.owned_contexts(), 2);
    budget.release(second);
    budget.release(replacement);
    assert_eq!(budget.owned_contexts(), 0);
}

fn path(name: &str) -> CanonicalizedComponentModulePath {
    CanonicalizedComponentModulePath { component: ComponentId::Root, module: name.to_owned() }
}

fn key(name: &str) -> ReusableContextKey {
    ReusableContextKey::database_udf(path(name))
}

fn save(
    cache: &mut ContextCache<u32, u32>,
    name: &str,
    context: u32,
    budget: &mut ContextCacheBudget,
    log: &mut MetricLog,
) -> RemovedContexts<u32, u32> {
    cache.save_reusable_context(key(name), context, None, false, budget, log)
}

#[test]
fn a_saved_context_is_shown_and_given_back_once() {
    let mut log = MetricLog::new();
    let mut budget = ContextCacheBudget::new(4);
    let mut cache: ContextCache<u32, u32> = ContextCache::with_budget(2, false);
    assert!(cache.cached_contexts().has_no_reusable_context());
    let removed = save(&mut cache, "a", 1, &mut budget, &mut log);
    assert!(removed.contexts.is_empty());
    assert_eq!(budget.owned_contexts(), 1);
    assert!(cache
        .cached_contexts()
        .can_serve_request(Some(ReusableContextKind::DatabaseUdf), Some(&path("a"))));
    assert!(!cache
        .cached_contexts()
        .can_serve_request(Some(ReusableContextKind::HttpAction), Some(&path("a"))));

    let taken = cache.take_reusable_context(key("a"), &mut log).expect("saved context was lost");
    assert_eq!(taken.context, 1);
    assert!(cache.cached_contexts().has_no_reusable_context());
    assert!(cache.take_reusable_context(key("a"), &mut log).is_none());

    let removed = cache.save_reusable_context(
        key("a"),
        taken.context,
        Some(taken.token),
        false,
        &mut budget,
        &mut log,
    );
    assert!(removed.contexts.is_empty());
    assert_eq!(budget.owned_contexts(), 1);
    assert_eq!(cache.len(), 1);
}

#[test]
fn a_full_pool_makes_a_context_replace_another() {
    let mut log = MetricLog::new();
    let mut budget = ContextCacheBudget::new(1);
    let mut cache: ContextCache<u32, u32> = ContextCache::with_budget(2, false);
    save(&mut cache, "a", 1, &mut budget, &mut log);
    let removed = save(&mut cache, "b", 2, &mut budget, &mut log);
    assert_eq!(removed.contexts, vec![1]);
    assert_eq!(cache.len(), 1);
    assert_eq!(budget.owned_contexts(), 1);
    assert!(cache.take_reusable_context(key("b"), &mut log).is_some());
}

#[test]
fn short_memory_takes_nothing_new_and_shrinks_what_is_there() {
    let mut log = MetricLog::new();
    let mut budget = ContextCacheBudget::new(8);
    let mut cache: ContextCache<u32, u32> = ContextCache::with_budget(4, false);
    for (name, context) in [("a", 1), ("b", 2), ("c", 3), ("d", 4)] {
        save(&mut cache, name, context, &mut budget, &mut log);
    }
    cache.prepare(7);
    let (notify, removed) = cache.set_cgroup_memory_pressure(true, &mut log);
    assert!(notify);
    assert_eq!(removed.fresh_context, Some(7));
    assert_eq!(removed.contexts.len(), 2);
    assert_eq!(cache.len(), CGROUP_PRESSURE_REUSABLE_CONTEXTS_PER_ISOLATE);
    assert!(cache.pressure_active());
    for permit in removed.permits {
        budget.release(permit);
    }
    assert_eq!(budget.owned_contexts(), 2);

    let removed =
        cache.save_reusable_context(key("e"), 5, None, true, &mut budget, &mut log);
    assert_eq!(removed.contexts, vec![5]);
    assert_eq!(cache.len(), 2);
}

#[test]
fn clearing_hands_over_every_context_with_its_permit() {
    let mut log = MetricLog::new();
    let mut budget = ContextCacheBudget::new(8);
    let mut cache: ContextCache<u32, u32> = ContextCache::with_budget(4, false);
    save(&mut cache, "a", 1, &mut budget, &mut log);
    save(&mut cache, "b", 2, &mut budget, &mut log);
    log.take();
    let removed = cache.clear(ContextCacheClearReason::CacheDrop, &mut log);
    let mut contexts = removed.contexts;
    contexts.sort();
    assert_eq!(contexts, vec![1, 2]);
    assert_eq!(removed.permits.len(), 2);
    assert_eq!(cache.len(), 0);
    let updates = log.take();
    assert!(updates.iter().any(|update| update.family == "isolate_context_cache_cleared_total"
        && update.labels.iter().any(|label| label.name == "reason" && label.value == "cache_drop")));
}

#[test]
fn the_window_goes_first_when_memory_is_short() {
    let mut log = MetricLog::new();
    let mut budget = ContextCacheBudget::new(8);
    let mut cache: ContextCache<u32, u32> = ContextCache::with_budget(1, false);
    save(&mut cache, "a", 1, &mut budget, &mut log);
    save(&mut cache, "b", 2, &mut budget, &mut log);
    let (context, permit) =
        cache.evict_for_memory_pressure(&mut log).expect("nothing was evicted");
    assert_eq!(context, 2);
    budget.release(permit);
    let (context, _) = cache.evict_for_memory_pressure(&mut log).expect("nothing was evicted");
    assert_eq!(context, 1);
    assert!(cache.evict_for_memory_pressure(&mut log).is_none());
}

#[test]
fn labels_name_what_they_stand_for() {
    assert_eq!(ReusableContextKind::DatabaseUdf.as_label(), "database_udf");
    assert_eq!(ReusableContextKind::HttpAction.as_label(), "http_action");
    assert_eq!(ContextCacheClearReason::MemoryPressure.as_label(), "memory_pressure");
}

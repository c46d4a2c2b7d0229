//! The contexts that an isolate keeps to use them again.
//!
//! All isolates of a pool share a budget of contexts. An isolate holds a permit for every context
//! that it keeps, and a context that is in use carries its permit with it. Removed contexts are
//! handed out together with the permits that become free, so that a context is gone before its
//! permit can be used again.
use vstd::prelude::*;
use vstd::string::*;

use crate::component::{CanonicalizedComponentModulePath, ModulePathView};
use crate::context_kind::{ContextCacheClearReason, ContextCacheOperation, ReusableContextKind};
use crate::metric_log::{counter, update, MetricLog, MetricOperation, MetricValue, UpdateView};
use crate::metrics::{
    log_context_cache_cleared, log_context_cache_entry_added, log_context_cache_entry_removed,
    log_context_cache_operation,
};
use crate::tiny_lfu::{
    evictions_of, is_insertion, residents_of, CacheEntry, CacheEvictionReason,
    CacheInsertionResult, CacheKey, CacheModel, CacheSegment, EvictedCacheEntry, Eviction,
    Insertion, Resident, TakenCacheEntry, TinyLfuCache,
};

verus! {

/// How many protected contexts an isolate keeps while memory is short.
pub const CGROUP_PRESSURE_REUSABLE_CONTEXTS_PER_ISOLATE: usize = 2;

/// The contexts that all isolates of a pool may keep together.
pub struct ContextCacheBudget {
    capacity: usize,
    owned_contexts: usize,
}

/// The right to keep one context.
pub struct ContextCachePermit {
    of_budget: (),
}

/// What a `ContextCacheBudget` holds.
pub struct BudgetModel {
    pub capacity: nat,
    pub owned_contexts: nat,
}

impl View for ContextCacheBudget {
    type V = BudgetModel;

    closed spec fn view(&self) -> BudgetModel {
        BudgetModel { capacity: self.capacity as nat, owned_contexts: self.owned_contexts as nat }
    }
}

impl ContextCacheBudget {
    /// Whether no more permits are given than the budget allows.
    pub open spec fn wf(self) -> bool {
        self@.owned_contexts <= self@.capacity
    }

    pub fn new(capacity: usize) -> (budget: ContextCacheBudget)
        requires
            capacity > 0,
        ensures
            budget.wf(),
            budget@ == (BudgetModel { capacity: capacity as nat, owned_contexts: 0 }),
    {
        ContextCacheBudget { capacity, owned_contexts: 0 }
    }

    /// Gives a permit, if one is left.
    pub fn try_acquire(&mut self) -> (permit: Option<ContextCachePermit>)
        requires
            old(self).wf(),
        ensures
            final(self).wf(),
            permit is Some <==> old(self)@.owned_contexts < old(self)@.capacity,
            final(self)@ == (BudgetModel {
                owned_contexts: old(self)@.owned_contexts + (if permit is Some {
                    1nat
                } else {
                    0nat
                }),
                ..old(self)@
            }),
    {
        if self.owned_contexts < self.capacity {
            self.owned_contexts = self.owned_contexts + 1;
            Some(ContextCachePermit { of_budget: () })
        } else {
            None
        }
    }

    /// Takes a permit back.
    pub fn release(&mut self, permit: ContextCachePermit)
        requires
            old(self).wf(),
            old(self)@.owned_contexts > 0,
        ensures
            final(self).wf(),
            final(self)@ == (BudgetModel {
                owned_contexts: (old(self)@.owned_contexts - 1) as nat,
                ..old(self)@
            }),
    {
        self.owned_contexts = self.owned_contexts - 1;
    }

    pub fn owned_contexts(&self) -> (owned: usize)
        ensures
            owned == self@.owned_contexts,
    {
        self.owned_contexts
    }
}

/// What a kept context can serve.
#[derive(Debug)]
pub struct ReusableContextKey {
    pub kind: ReusableContextKind,
    pub module: CanonicalizedComponentModulePath,
}

/// What tells `ReusableContextKey`s apart.
pub struct KeyName {
    pub kind: ReusableContextKind,
    pub module: ModulePathView,
}

impl CacheKey for ReusableContextKey {
    type Name = KeyName;

    open spec fn name(&self) -> KeyName {
        KeyName { kind: self.kind, module: self.module@ }
    }

    fn same(&self, other: &ReusableContextKey) -> (same: bool) {
        self.kind == other.kind && self.module.same(&other.module)
    }

    fn copied(&self) -> (copy: ReusableContextKey) {
        ReusableContextKey { kind: self.kind, module: self.module.copied() }
    }
}

impl ReusableContextKey {
    /// The key of the contexts that run the database functions of a module.
    pub fn database_udf(module: CanonicalizedComponentModulePath) -> (key: ReusableContextKey)
        ensures
            key.name() == (KeyName { kind: ReusableContextKind::DatabaseUdf, module: module@ }),
    {
        ReusableContextKey { kind: ReusableContextKind::DatabaseUdf, module }
    }

    /// The key of the contexts that run the HTTP actions of a module.
    pub fn http_action(module: CanonicalizedComponentModulePath) -> (key: ReusableContextKey)
        ensures
            key.name() == (KeyName { kind: ReusableContextKind::HttpAction, module: module@ }),
    {
        ReusableContextKey { kind: ReusableContextKind::HttpAction, module }
    }
}

/// The names of a list of keys.
pub open spec fn names_of(keys: Seq<ReusableContextKey>) -> Seq<KeyName> {
    keys.map_values(|key: ReusableContextKey| key.name())
}

/// The keys of the contexts that an isolate keeps, for the scheduler to look at.
pub struct CachedContexts {
    pub saved_contexts: Vec<ReusableContextKey>,
}

impl View for CachedContexts {
    type V = Seq<KeyName>;

    open spec fn view(&self) -> Seq<KeyName> {
        names_of(self.saved_contexts@)
    }
}

impl CachedContexts {
    /// Whether one of the contexts can serve a request of a kind for a module. A request that
    /// reuses no contexts, or is for no module, is served by none.
    pub fn can_serve_request(
        &self,
        kind: Option<ReusableContextKind>,
        module: Option<&CanonicalizedComponentModulePath>,
    ) -> (can_serve: bool)
        ensures
            can_serve == (kind matches Some(kind) && module matches Some(module)
                && self@.contains(KeyName { kind, module: module@ })),
    {
        let wanted_kind = match kind {
            Some(kind) => kind,
            None => {
                return false;
            },
        };
        let wanted_module = match module {
            Some(module) => module,
            None => {
                return false;
            },
        };
        let ghost wanted = KeyName { kind: wanted_kind, module: wanted_module@ };
        let mut i: usize = 0;
        while i < self.saved_contexts.len()
            invariant
                i <= self.saved_contexts.len(),
                kind == Some(wanted_kind),
                module == Some(wanted_module),
                wanted == (KeyName { kind: wanted_kind, module: wanted_module@ }),
                forall|k: int| 0 <= k < i ==> #[trigger] self@[k] != wanted,
            decreases self.saved_contexts.len() - i,
        {
            assert(self@[i as int] == self.saved_contexts@[i as int].name());
            if self.saved_contexts[i].kind == wanted_kind && self.saved_contexts[i].module.same(
                wanted_module,
            ) {
                assert(self@[i as int] == wanted);
                return true;
            }
            i = i + 1;
        }
        assert(!self@.contains(wanted));
        false
    }

    /// Whether no context is kept.
    pub fn has_no_reusable_context(&self) -> (empty: bool)
        ensures
            empty == (self@.len() == 0),
    {
        self.saved_contexts.len() == 0
    }

    pub fn copied(&self) -> (copy: CachedContexts)
        ensures
            copy@ == self@,
    {
        let mut saved_contexts: Vec<ReusableContextKey> = Vec::new();
        let mut i: usize = 0;
        while i < self.saved_contexts.len()
            invariant
                i <= self.saved_contexts.len(),
                names_of(saved_contexts@) == self@.take(i as int),
            decreases self.saved_contexts.len() - i,
        {
            let ghost before = names_of(saved_contexts@);
            saved_contexts.push(self.saved_contexts[i].copied());
            assert(names_of(saved_contexts@) =~= before.push(self@[i as int]));
            assert(self@.take(i + 1) =~= self@.take(i as int).push(self@[i as int]));
            i = i + 1;
        }
        assert(self@.take(i as int) =~= self@);
        CachedContexts { saved_contexts }
    }
}

/// The permit of a context that is in use, and its place in the cache.
pub struct ReusableContextToken {
    pub key: ReusableContextKey,
    pub segment: CacheSegment,
    pub permit: ContextCachePermit,
}

/// A context that was taken out to be used.
pub struct TakenContext<V> {
    pub context: V,
    pub token: ReusableContextToken,
}

/// Contexts that are to be destroyed, and the permits that become free when they are.
pub struct RemovedContexts<F, V> {
    pub fresh_context: Option<F>,
    pub contexts: Vec<V>,
    pub permits: Vec<ContextCachePermit>,
}

/// What a `ContextCache` holds.
#[verifier::ext_equal]
pub struct ContextCacheModel<F, V> {
    pub fresh_context: Option<F>,
    pub contexts: CacheModel<KeyName, V>,
    pub permits: nat,
    pub mirror: Seq<KeyName>,
    /// Whether memory is short.
    pub pressure: bool,
    /// Whether contexts were removed for which no collection was asked yet.
    pub notification_pending: bool,
}

/// What a cache does with a context that is to be kept.
pub enum SavePlan {
    RejectMemoryPressure,
    /// It was in use, and comes back to its place.
    Reinsert(CacheSegment, nat),
    /// It takes the place of a context with the same key.
    ReplaceDuplicate,
    /// It gets a permit of its own.
    InsertNew,
    /// No permit is left: it takes the place of another context.
    InsertWithoutGrowth,
    RejectPoolCapacity,
}

/// The contexts that evictions give up.
pub open spec fn evicted_values<V>(evicted: Seq<Eviction<KeyName, V>>) -> Seq<V> {
    evicted.map_values(|evicted: Eviction<KeyName, V>| evicted.entry.value)
}

pub open spec fn cleared_update(kind: ReusableContextKind, reason: ContextCacheClearReason) -> UpdateView {
    counter(
        "isolate_context_cache_cleared_total"@,
        1,
        seq![("context_kind"@, kind.label()), ("reason"@, reason.label())],
    )
}

pub open spec fn entry_removed_update(kind: ReusableContextKind) -> UpdateView {
    update(
        MetricOperation::SubtractFromGauge,
        "isolate_context_cache_entries_info"@,
        MetricValue::Integer(1),
        seq![("context_kind"@, kind.label())],
    )
}

pub open spec fn entry_added_update(kind: ReusableContextKind) -> UpdateView {
    update(
        MetricOperation::AddToGauge,
        "isolate_context_cache_entries_info"@,
        MetricValue::Integer(1),
        seq![("context_kind"@, kind.label())],
    )
}

pub open spec fn operation_update(
    kind: ReusableContextKind,
    operation: ContextCacheOperation,
) -> UpdateView {
    counter(
        "isolate_context_cache_operations_total"@,
        1,
        seq![("context_kind"@, kind.label()), ("operation"@, operation.label())],
    )
}

/// What the metrics count when the first `n` contexts of a list are removed.
pub open spec fn removal_updates<V>(
    removed: Seq<Resident<KeyName, V>>,
    reason: ContextCacheClearReason,
    n: int,
) -> Seq<UpdateView>
    decreases n,
{
    if n <= 0 {
        Seq::empty()
    } else {
        removal_updates(removed, reason, n - 1).push(
            cleared_update(removed[n - 1].key.kind, reason),
        ).push(entry_removed_update(removed[n - 1].key.kind))
    }
}

/// The contexts that evictions remove from the cache.
pub open spec fn evicted_residents<V>(evicted: Seq<Eviction<KeyName, V>>) -> Seq<
    Resident<KeyName, V>,
> {
    evicted.map_values(|evicted: Eviction<KeyName, V>| evicted.entry)
}

/// The reason that the metrics show for an eviction.
pub open spec fn clear_reason(reason: CacheEvictionReason) -> ContextCacheClearReason {
    match reason {
        CacheEvictionReason::DuplicateReplacement => ContextCacheClearReason::DuplicateReplacement,
        CacheEvictionReason::FrequencyAdmission => ContextCacheClearReason::AdmissionReplacement,
        CacheEvictionReason::FrequencyRejection => ContextCacheClearReason::AdmissionReplacement,
        CacheEvictionReason::PoolCapacityReplacement =>
            ContextCacheClearReason::PoolCapacityReplacement,
        CacheEvictionReason::MemoryPressure => ContextCacheClearReason::MemoryPressure,
    }
}

impl<F, V> ContextCacheModel<F, V> {
    /// How many contexts may be kept.
    pub open spec fn capacity(self) -> nat {
        if self.pressure {
            CGROUP_PRESSURE_REUSABLE_CONTEXTS_PER_ISOLATE as nat
        } else {
            self.contexts.main_capacity + 1
        }
    }

    /// What holds of every cache: it has a permit for every context, the mirror shows the keys of
    /// all contexts, and while memory is short only few protected contexts are kept.
    pub open spec fn in_order(self) -> bool {
        &&& self.permits == self.contexts.len()
        &&& self.mirror == self.contexts.keys()
        &&& self.pressure ==> self.contexts.window is None && self.contexts.main.len()
            <= CGROUP_PRESSURE_REUSABLE_CONTEXTS_PER_ISOLATE
        &&& self.contexts.main.len() > self.contexts.main_capacity ==> self.contexts.window is None
            && self.contexts.main.len() <= CGROUP_PRESSURE_REUSABLE_CONTEXTS_PER_ISOLATE
        &&& self.contexts.keys_are_distinct()
        &&& self.contexts.main_capacity > 0
    }

    /// The cache with other contexts, and with the permits and the mirror that belong to them.
    pub open spec fn with_contexts(self, contexts: CacheModel<KeyName, V>) -> ContextCacheModel<
        F,
        V,
    > {
        ContextCacheModel { contexts, permits: contexts.len(), mirror: contexts.keys(), ..self }
    }

    /// How many contexts have to go when memory becomes short.
    pub open spec fn excess(self) -> nat {
        self.contexts.excess(CGROUP_PRESSURE_REUSABLE_CONTEXTS_PER_ISOLATE as nat)
    }

    /// Whether memory becomes short.
    pub open spec fn becomes_short(self, active: bool) -> bool {
        active && !self.pressure
    }

    /// The cache after it learned whether memory is short.
    pub open spec fn under_pressure(self, active: bool) -> ContextCacheModel<F, V> {
        let informed = ContextCacheModel { pressure: active, notification_pending: false, ..self };
        if self.becomes_short(active) {
            ContextCacheModel {
                fresh_context: None,
                ..informed.with_contexts(self.contexts.relieved_of(self.excess()))
            }
        } else {
            informed
        }
    }

    /// Whether a collection is to be asked for after the cache learned whether memory is short.
    pub open spec fn removes_roots(self, active: bool) -> bool {
        self.notification_pending || (self.becomes_short(active) && (self.fresh_context is Some
            || self.excess() > 0))
    }

    /// The contexts that have to go when memory becomes short.
    pub open spec fn pressure_victims(self, active: bool) -> Seq<Eviction<KeyName, V>> {
        if self.becomes_short(active) {
            self.contexts.victims(self.excess())
        } else {
            Seq::empty()
        }
    }

    /// The cache before it keeps a context: it takes notice of the state of the memory first.
    pub open spec fn informed(self, active: bool) -> ContextCacheModel<F, V> {
        if self.pressure == active {
            self
        } else {
            ContextCacheModel {
                notification_pending: self.removes_roots(active),
                ..self.under_pressure(active)
            }
        }
    }

    /// What is done with a context that is to be kept, once the state of the memory is known.
    pub open spec fn plan(
        self,
        key: KeyName,
        segment: Option<CacheSegment>,
        permit_left: bool,
    ) -> SavePlan {
        match segment {
            Some(CacheSegment::Window) if self.pressure => SavePlan::RejectMemoryPressure,
            None if self.pressure => SavePlan::RejectMemoryPressure,
            Some(segment) => SavePlan::Reinsert(
                segment,
                if self.pressure {
                    CGROUP_PRESSURE_REUSABLE_CONTEXTS_PER_ISOLATE as nat
                } else {
                    self.contexts.main_capacity
                },
            ),
            None => if self.contexts.contains_key(key) {
                SavePlan::ReplaceDuplicate
            } else if permit_left {
                SavePlan::InsertNew
            } else if self.contexts.can_insert_without_growth(key) {
                SavePlan::InsertWithoutGrowth
            } else {
                SavePlan::RejectPoolCapacity
            },
        }
    }

    /// The contexts after a plan was carried out.
    pub open spec fn carried_out(self, plan: SavePlan, key: KeyName, value: V) -> Insertion<
        KeyName,
        V,
    > {
        match plan {
            SavePlan::Reinsert(segment, capacity) => self.contexts.inserted(
                key,
                value,
                segment,
                true,
                capacity,
            ),
            SavePlan::InsertWithoutGrowth => self.contexts.inserted_without_growth(key, value),
            _ => self.contexts.inserted(
                key,
                value,
                CacheSegment::Window,
                false,
                self.contexts.main_capacity,
            ),
        }
    }

    /// Whether a plan keeps nothing.
    pub open spec fn rejects(plan: SavePlan) -> bool {
        plan is RejectMemoryPressure || plan is RejectPoolCapacity
    }

    /// The cache after a plan was carried out.
    pub open spec fn saved(self, plan: SavePlan, key: KeyName, value: V) -> ContextCacheModel<F, V> {
        let insertion = self.carried_out(plan, key, value);
        if plan is RejectMemoryPressure {
            ContextCacheModel { notification_pending: true, ..self }
        } else if plan is RejectPoolCapacity {
            self
        } else {
            ContextCacheModel {
                notification_pending: self.notification_pending || (self.pressure
                    && insertion.evicted is Some),
                ..self.with_contexts(insertion.cache)
            }
        }
    }

    /// The contexts that a plan removes: what is rejected or evicted.
    pub open spec fn dropped(self, plan: SavePlan, key: KeyName, value: V) -> Seq<V> {
        if Self::rejects(plan) {
            seq![value]
        } else {
            match self.carried_out(plan, key, value).evicted {
                Some(evicted) => seq![evicted.entry.value],
                None => Seq::empty(),
            }
        }
    }

    /// What the metrics count when a plan is carried out.
    pub open spec fn save_updates(self, plan: SavePlan, key: KeyName, value: V) -> Seq<UpdateView> {
        let insertion = self.carried_out(plan, key, value);
        match plan {
            SavePlan::RejectMemoryPressure => seq![
                operation_update(key.kind, ContextCacheOperation::RejectMemoryPressure),
            ],
            SavePlan::RejectPoolCapacity => seq![
                operation_update(key.kind, ContextCacheOperation::RejectPoolCapacity),
            ],
            _ => (match insertion.evicted {
                Some(evicted) if evicted.was_cached => seq![
                    cleared_update(evicted.entry.key.kind, clear_reason(evicted.reason)),
                    entry_removed_update(evicted.entry.key.kind),
                ],
                _ => Seq::empty(),
            }) + (if insertion.admitted {
                seq![
                    entry_added_update(key.kind),
                    operation_update(key.kind, ContextCacheOperation::Save),
                ]
            } else if self.pressure {
                seq![operation_update(key.kind, ContextCacheOperation::RejectMemoryPressure)]
            } else {
                seq![operation_update(key.kind, ContextCacheOperation::RejectFrequency)]
            }),
        }
    }

    /// Whether a context can be kept without the cache holding more contexts than it may. With
    /// more protected contexts than usual, which came back while memory was short, only a context
    /// that makes the cache no larger can.
    pub open spec fn save_fits(
        self,
        key: KeyName,
        segment: Option<CacheSegment>,
        pressure_active: bool,
        permit_left: bool,
    ) -> bool {
        ||| pressure_active
        ||| self.contexts.main.len() <= self.contexts.main_capacity
        ||| segment == Some(CacheSegment::Main)
        ||| self.contexts.position(key, 0) is Some
        ||| segment is None && !permit_left
    }
}

/// The contexts that an isolate keeps: a fresh one, and those that can be used again.
pub struct ContextCache<F, V> {
    fresh_context: Option<F>,
    reusable_contexts: TinyLfuCache<ReusableContextKey, V>,
    resident_permits: Vec<ContextCachePermit>,
    cached_contexts: CachedContexts,
    cgroup_memory_pressure_active: bool,
    low_memory_notification_pending: bool,
}

impl<F, V> View for ContextCache<F, V> {
    type V = ContextCacheModel<F, V>;

    closed spec fn view(&self) -> ContextCacheModel<F, V> {
        ContextCacheModel {
            fresh_context: self.fresh_context,
            contexts: self.reusable_contexts@,
            permits: self.resident_permits@.len(),
            mirror: self.cached_contexts@,
            pressure: self.cgroup_memory_pressure_active,
            notification_pending: self.low_memory_notification_pending,
        }
    }
}

/// The place that a token stands for.
pub open spec fn segment_of(token: Option<ReusableContextToken>) -> Option<CacheSegment> {
    match token {
        Some(token) => Some(token.segment),
        None => None,
    }
}

/// How many permits come with a token.
pub open spec fn permits_of(token: Option<ReusableContextToken>) -> nat {
    if token is Some {
        1
    } else {
        0
    }
}

fn log_removal(
    kind: ReusableContextKind,
    reason: ContextCacheClearReason,
    log: &mut MetricLog,
)
    ensures
        final(log)@ == old(log)@.push(cleared_update(kind, reason)).push(
            entry_removed_update(kind),
        ),
{
    log_context_cache_cleared(log, kind, reason);
    log_context_cache_entry_removed(log, kind);
}

impl<F, V> ContextCache<F, V> {
    /// Whether the cache is in order.
    pub closed spec fn wf(self) -> bool {
        &&& self.reusable_contexts.wf()
        &&& self@.in_order()
    }

    /// A cache without contexts.
    pub fn with_budget(protected_capacity: usize, pressure_active: bool) -> (cache: Self)
        requires
            protected_capacity > 0,
            (protected_capacity + 1) * 16 <= usize::MAX,
        ensures
            cache.wf(),
            cache@.fresh_context is None,
            cache@.contexts.len() == 0,
            cache@.contexts.main_capacity == protected_capacity,
            cache@.contexts == cache@.contexts.cleared(),
            cache@.contexts.aging_interval == (protected_capacity + 1) * 16,
            cache@.permits == 0,
            cache@.mirror == Seq::<KeyName>::empty(),
            cache@.pressure == pressure_active,
            !cache@.notification_pending,
    {
        let cache = ContextCache {
            fresh_context: None,
            reusable_contexts: TinyLfuCache::with_protected_capacity(protected_capacity),
            resident_permits: Vec::new(),
            cached_contexts: CachedContexts { saved_contexts: Vec::new() },
            cgroup_memory_pressure_active: pressure_active,
            low_memory_notification_pending: false,
        };
        assert(cache@.mirror =~= Seq::<KeyName>::empty());
        assert(cache@.contexts.keys() =~= Seq::<KeyName>::empty());
        cache
    }

    /// Whether a fresh context should be made ahead of time: there is none, and memory is not
    /// short.
    pub fn needs_fresh_context(&self) -> (needed: bool)
        ensures
            needed == (!self@.pressure && self@.fresh_context is None),
    {
        !self.cgroup_memory_pressure_active && self.fresh_context.is_none()
    }

    /// Keeps a fresh context that was made ahead of time.
    pub fn prepare(&mut self, context: F)
        requires
            old(self).wf(),
            !old(self)@.pressure,
            old(self)@.fresh_context is None,
        ensures
            final(self).wf(),
            final(self)@ == (ContextCacheModel { fresh_context: Some(context), ..old(self)@ }),
    {
        self.fresh_context = Some(context);
    }

    /// Takes out the fresh context, to be used or destroyed.
    pub fn take_fresh_context(&mut self) -> (context: Option<F>)
        requires
            old(self).wf(),
        ensures
            final(self).wf(),
            context == old(self)@.fresh_context,
            final(self)@ == (ContextCacheModel { fresh_context: None, ..old(self)@ }),
    {
        self.fresh_context.take()
    }

    /// The keys of the contexts that are kept.
    pub fn cached_contexts(&self) -> (cached: &CachedContexts)
        ensures
            cached@ == self@.mirror,
    {
        &self.cached_contexts
    }

    /// How many contexts are kept.
    pub fn len(&self) -> (len: usize)
        requires
            self.wf(),
        ensures
            len == self@.contexts.len(),
    {
        self.resident_permits.len()
    }

    /// Whether the cache knows that memory is short.
    pub fn pressure_active(&self) -> (active: bool)
        ensures
            active == self@.pressure,
    {
        self.cgroup_memory_pressure_active
    }

    /// Whether the clock of the cache can go on.
    pub fn can_save(&self) -> (can: bool)
        ensures
            can == (self@.contexts.clock < u64::MAX),
    {
        self.reusable_contexts.access_clock < u64::MAX
    }

    /// Whether a context can be kept without the cache holding more contexts than it may.
    pub fn save_fits(
        &self,
        key: &ReusableContextKey,
        segment: Option<CacheSegment>,
        pressure_active: bool,
        permit_left: bool,
    ) -> (fits: bool)
        requires
            self.wf(),
        ensures
            fits == self@.save_fits(key.name(), segment, pressure_active, permit_left),
    {
        let returns_protected = match segment {
            Some(CacheSegment::Main) => true,
            _ => false,
        };
        proof {
            crate::tiny_lfu::position_is_found(self.reusable_contexts@, key.name());
        }
        pressure_active || self.reusable_contexts.main.len()
            <= self.reusable_contexts.main_capacity || returns_protected
            || self.reusable_contexts.contains_key(key) || (segment.is_none() && !permit_left)
    }

    fn replace_mirror(&mut self)
        ensures
            final(self)@ == (ContextCacheModel { mirror: old(self)@.contexts.keys(), ..old(self)@ }),
            final(self).reusable_contexts == old(self).reusable_contexts,
    {
        self.cached_contexts = CachedContexts { saved_contexts: self.reusable_contexts.keys() };
    }

    /// Gives up all contexts.
    pub fn clear(&mut self, reason: ContextCacheClearReason, log: &mut MetricLog) -> (removed:
        RemovedContexts<F, V>)
        requires
            old(self).wf(),
        ensures
            final(self).wf(),
            final(self)@ == (ContextCacheModel {
                fresh_context: None,
                contexts: old(self)@.contexts.cleared(),
                permits: 0,
                mirror: Seq::empty(),
                notification_pending: old(self)@.notification_pending || (old(self)@.pressure && (
                old(self)@.fresh_context is Some || old(self)@.contexts.len() > 0)),
                ..old(self)@
            }),
            removed.fresh_context == old(self)@.fresh_context,
            removed.contexts@ == old(self)@.contexts.residents().map_values(
                |entry: Resident<KeyName, V>| entry.value,
            ),
            removed.permits@.len() == old(self)@.permits,
            final(log)@ == old(log)@ + removal_updates(
                old(self)@.contexts.residents(),
                reason,
                old(self)@.contexts.residents().len() as int,
            ),
    {
        let ghost residents = self@.contexts.residents();
        let fresh_context = self.fresh_context.take();
        let entries = self.reusable_contexts.clear();
        self.cached_contexts = CachedContexts { saved_contexts: Vec::new() };
        if self.cgroup_memory_pressure_active && (fresh_context.is_some() || entries.len() > 0) {
            self.low_memory_notification_pending = true;
        }
        let mut permits: Vec<ContextCachePermit> = Vec::new();
        std::mem::swap(&mut permits, &mut self.resident_permits);
        let mut i: usize = 0;
        let ghost all = entries@;
        assert(residents_of(all) == residents);
        assert(log@ =~= old(log)@ + removal_updates(residents, reason, 0));
        while i < entries.len()
            invariant
                i <= entries.len(),
                entries@ == all,
                residents_of(all) == residents,
                log@ == old(log)@ + removal_updates(residents, reason, i as int),
            decreases entries.len() - i,
        {
            assert(residents[i as int] == all[i as int]@);
            log_removal(entries[i].key.kind, reason, log);
            assert(log@ =~= old(log)@ + removal_updates(residents, reason, i + 1));
            i = i + 1;
        }
        let contexts = take_values(entries);
        proof {
            assert(contexts@ =~= residents.map_values(|entry: Resident<KeyName, V>| entry.value));
            assert(self@.mirror =~= Seq::<KeyName>::empty());
            assert(self@.contexts.keys() =~= Seq::<KeyName>::empty());
        }
        RemovedContexts { fresh_context, contexts, permits }
    }
}

/// The values of a list of entries, in the same order.
fn take_values<V>(entries: Vec<CacheEntry<ReusableContextKey, V>>) -> (values: Vec<V>)
    ensures
        values@ == entries@.map_values(|entry: CacheEntry<ReusableContextKey, V>| entry.value),
{
    let ghost all = entries@;
    let mut entries = entries;
    let mut reversed: Vec<CacheEntry<ReusableContextKey, V>> = Vec::new();
    while entries.len() > 0
        invariant
            entries@.len() + reversed@.len() == all.len(),
            forall|k: int| 0 <= k < entries@.len() ==> #[trigger] entries@[k] == all[k],
            forall|k: int|
                0 <= k < reversed@.len() ==> #[trigger] reversed@[k] == all[all.len() - 1 - k],
        decreases entries@.len(),
    {
        if let Some(entry) = entries.pop() {
            reversed.push(entry);
        }
    }
    let mut values: Vec<V> = Vec::new();
    while reversed.len() > 0
        invariant
            values@.len() + reversed@.len() == all.len(),
            forall|k: int|
                0 <= k < reversed@.len() ==> #[trigger] reversed@[k] == all[all.len() - 1 - k],
            forall|k: int| 0 <= k < values@.len() ==> #[trigger] values@[k] == all[k].value,
        decreases reversed@.len(),
    {
        if let Some(entry) = reversed.pop() {
            values.push(entry.value);
        }
    }
    assert(values@ =~= all.map_values(
        |entry: CacheEntry<ReusableContextKey, V>| entry.value,
    ));
    values
}

/// The values of a list of evicted entries, in the same order.
fn take_evicted_values<V>(evicted: Vec<EvictedCacheEntry<ReusableContextKey, V>>) -> (values: Vec<V>)
    ensures
        values@ == evicted_values(evictions_of(evicted@)),
{
    let ghost all = evicted@;
    let mut evicted = evicted;
    let mut reversed: Vec<V> = Vec::new();
    while evicted.len() > 0
        invariant
            evicted@.len() + reversed@.len() == all.len(),
            forall|k: int| 0 <= k < evicted@.len() ==> #[trigger] evicted@[k] == all[k],
            forall|k: int|
                0 <= k < reversed@.len() ==> #[trigger] reversed@[k] == all[all.len() - 1
                    - k].entry.value,
        decreases evicted@.len(),
    {
        if let Some(evicted) = evicted.pop() {
            reversed.push(evicted.entry.value);
        }
    }
    let mut values: Vec<V> = Vec::new();
    while reversed.len() > 0
        invariant
            values@.len() + reversed@.len() == all.len(),
            forall|k: int|
                0 <= k < reversed@.len() ==> #[trigger] reversed@[k] == all[all.len() - 1
                    - k].entry.value,
            forall|k: int| 0 <= k < values@.len() ==> #[trigger] values@[k] == all[k].entry.value,
        decreases reversed@.len(),
    {
        if let Some(value) = reversed.pop() {
            values.push(value);
        }
    }
    assert(values@ =~= evicted_values(evictions_of(all)));
    values
}

/// The reason that the metrics show for an eviction.
fn clear_reason_of(reason: CacheEvictionReason) -> (shown: ContextCacheClearReason)
    ensures
        shown == clear_reason(reason),
{
    match reason {
        CacheEvictionReason::DuplicateReplacement => ContextCacheClearReason::DuplicateReplacement,
        CacheEvictionReason::FrequencyAdmission => ContextCacheClearReason::AdmissionReplacement,
        CacheEvictionReason::FrequencyRejection => ContextCacheClearReason::AdmissionReplacement,
        CacheEvictionReason::PoolCapacityReplacement =>
            ContextCacheClearReason::PoolCapacityReplacement,
        CacheEvictionReason::MemoryPressure => ContextCacheClearReason::MemoryPressure,
    }
}

impl<F, V> ContextCache<F, V> {
    /// Takes notice of whether memory is short. When it becomes short, the fresh context goes, and
    /// of the others only the strongest protected ones stay. Says whether a collection is to be
    /// asked for, once the removed contexts are destroyed.
    pub fn set_cgroup_memory_pressure(&mut self, active: bool, log: &mut MetricLog) -> (change: (
        bool,
        RemovedContexts<F, V>,
    ))
        requires
            old(self).wf(),
        ensures
            final(self).wf(),
            final(self)@ == old(self)@.under_pressure(active),
            change.0 == old(self)@.removes_roots(active),
            change.1.fresh_context == (if old(self)@.becomes_short(active) {
                old(self)@.fresh_context
            } else {
                None
            }),
            change.1.contexts@ == evicted_values(old(self)@.pressure_victims(active)),
            change.1.permits@.len() == old(self)@.permits - final(self)@.permits,
            final(log)@ == old(log)@ + removal_updates(
                evicted_residents(old(self)@.pressure_victims(active)),
                ContextCacheClearReason::CgroupMemoryPressure,
                old(self)@.pressure_victims(active).len() as int,
            ),
    {
        let ghost before = self@;
        let ghost victims = before.pressure_victims(active);
        let mut removed_root = self.low_memory_notification_pending;
        self.low_memory_notification_pending = false;
        if self.cgroup_memory_pressure_active == active || !active {
            self.cgroup_memory_pressure_active = active;
            let contexts: Vec<V> = Vec::new();
            assert(contexts@ =~= evicted_values(victims));
            assert(log@ =~= old(log)@ + Seq::<UpdateView>::empty());
            return (
                removed_root,
                RemovedContexts { fresh_context: None, contexts, permits: Vec::new() },
            );
        }
        self.cgroup_memory_pressure_active = true;
        let fresh_context = self.fresh_context.take();
        if fresh_context.is_some() {
            removed_root = true;
        }
        let evicted = self.reusable_contexts.shrink_for_cgroup_memory_pressure(
            CGROUP_PRESSURE_REUSABLE_CONTEXTS_PER_ISOLATE,
        );
        self.replace_mirror();
        if evicted.len() > 0 {
            removed_root = true;
        }
        let mut i: usize = 0;
        let ghost reason = ContextCacheClearReason::CgroupMemoryPressure;
        let ghost residents = evicted_residents(victims);
        assert(evictions_of(evicted@) == victims);
        assert(log@ =~= old(log)@ + removal_updates(residents, reason, 0));
        while i < evicted.len()
            invariant
                i <= evicted.len(),
                evictions_of(evicted@) == victims,
                residents == evicted_residents(victims),
                reason == ContextCacheClearReason::CgroupMemoryPressure,
                log@ == old(log)@ + removal_updates(residents, reason, i as int),
            decreases evicted.len() - i,
        {
            assert(victims[i as int] == evicted@[i as int]@);
            assert(residents[i as int] == victims[i as int].entry);
            log_removal(
                evicted[i].entry.key.kind,
                ContextCacheClearReason::CgroupMemoryPressure,
                log,
            );
            assert(log@ =~= old(log)@ + removal_updates(residents, reason, i + 1));
            i = i + 1;
        }
        let kept: usize = self.reusable_contexts.len();
        let permits = self.resident_permits.split_off(kept);
        let contexts = take_evicted_values(evicted);
        (removed_root, RemovedContexts { fresh_context, contexts, permits })
    }

    /// Takes out a context that can serve a module, to be used and put back.
    pub fn take_reusable_context(&mut self, key: ReusableContextKey, log: &mut MetricLog) -> (taken:
        Option<TakenContext<V>>)
        requires
            old(self).wf(),
        ensures
            final(self).wf(),
            match taken {
                Some(taken) => {
                    let observed = old(self)@.contexts.observed(key.name());
                    &&& taken.token.key.name() == key.name()
                    &&& match taken.token.segment {
                        CacheSegment::Window => {
                            &&& old(self)@.contexts.in_window(key.name())
                            &&& taken.context == old(self)@.contexts.window->0.value
                            &&& final(self)@ == old(self)@.with_contexts(
                                CacheModel { window: None, ..observed },
                            )
                        },
                        CacheSegment::Main => {
                            &&& !old(self)@.contexts.in_window(key.name())
                            &&& old(self)@.contexts.position(key.name(), 0) matches Some(i)
                                && taken.context == old(self)@.contexts.main[i].value && final(self)@ == old(self)@.with_contexts(
                                CacheModel { main: observed.main.remove(i), ..observed },
                            )
                        },
                    }
                    &&& final(self)@.permits == old(self)@.permits - 1
                    &&& final(log)@ == old(log)@.push(entry_removed_update(key.kind)).push(
                        operation_update(key.kind, ContextCacheOperation::Take),
                    )
                },
                None => {
                    &&& !old(self)@.contexts.contains_key(key.name())
                    &&& final(self)@ == (ContextCacheModel {
                        contexts: old(self)@.contexts.observed(key.name()),
                        ..old(self)@
                    })
                    &&& final(log)@ == old(log)@
                },
            },
    {
        let ghost before = self@;
        proof {
            crate::tiny_lfu::position_is_found(before.contexts, key.name());
        }
        let taken = match self.reusable_contexts.take(&key) {
            Some(taken) => taken,
            None => {
                assert(self@.contexts.keys() =~= before.contexts.keys());
                return None;
            },
        };
        self.replace_mirror();
        let permit = match self.resident_permits.pop() {
            Some(permit) => permit,
            None => {
                return None;
            },
        };
        log_context_cache_entry_removed(log, taken.key.kind);
        log_context_cache_operation(log, taken.key.kind, ContextCacheOperation::Take);
        assert(taken.key.name().kind == key.kind);
        Some(
            TakenContext {
                context: taken.value,
                token: ReusableContextToken { key: taken.key, segment: taken.segment, permit },
            },
        )
    }

    /// Gives up one context: that of the window, or else the weakest protected one.
    pub fn evict_for_memory_pressure(&mut self, log: &mut MetricLog) -> (evicted: Option<
        (V, ContextCachePermit),
    >)
        requires
            old(self).wf(),
        ensures
            final(self).wf(),
            match evicted {
                Some((context, _)) => {
                    &&& old(self)@.contexts.len() > 0
                    &&& context == old(self)@.contexts.first_victim().entry.value
                    &&& final(self)@ == old(self)@.with_contexts(old(self)@.contexts.relieved())
                    &&& final(self)@.permits == old(self)@.permits - 1
                    &&& final(log)@ == old(log)@.push(
                        cleared_update(
                            old(self)@.contexts.first_victim().entry.key.kind,
                            ContextCacheClearReason::MemoryPressure,
                        ),
                    ).push(
                        entry_removed_update(old(self)@.contexts.first_victim().entry.key.kind),
                    )
                },
                None => old(self)@.contexts.len() == 0 && final(self)@ == old(self)@ && final(log)@ == old(log)@,
            },
    {
        let ghost before = self@;
        proof {
            if before.contexts.main.len() > 0 {
                crate::tiny_lfu::weakest_is_weakest(
                    before.contexts,
                    before.contexts.main.len() as int,
                    0,
                );
            }
        }
        let evicted = match self.reusable_contexts.evict_for_memory_pressure() {
            Some(evicted) => evicted,
            None => {
                return None;
            },
        };
        self.replace_mirror();
        log_removal(evicted.entry.key.kind, ContextCacheClearReason::MemoryPressure, log);
        assert(evicted@.entry.key.kind == evicted.entry.key.kind);
        match self.resident_permits.pop() {
            Some(permit) => Some((evicted.entry.value, permit)),
            None => None,
        }
    }

    /// Keeps a context, if it may: one that was in use comes back to its place, and a new one
    /// needs a permit or takes the place of another. Hands out the contexts that go, with the
    /// permits that become free.
    pub fn save_reusable_context(
        &mut self,
        key: ReusableContextKey,
        context: V,
        token: Option<ReusableContextToken>,
        pressure_active: bool,
        budget: &mut ContextCacheBudget,
        log: &mut MetricLog,
    ) -> (removed: RemovedContexts<F, V>)
        requires
            old(self).wf(),
            old(budget).wf(),
            old(self)@.contexts.clock < u64::MAX,
            token matches Some(token) ==> token.key.name() == key.name(),
            old(self)@.save_fits(
                key.name(),
                segment_of(token),
                pressure_active,
                old(budget)@.owned_contexts < old(budget)@.capacity,
            ),
        ensures
            final(self).wf(),
            final(budget).wf(),
            ({
                let informed = old(self)@.informed(pressure_active);
                let plan = informed.plan(
                    key.name(),
                    segment_of(token),
                    old(budget)@.owned_contexts < old(budget)@.capacity,
                );
                &&& final(self)@ == informed.saved(plan, key.name(), context)
                &&& final(self)@.contexts.len() <= final(self)@.capacity()
                &&& final(budget)@ == (BudgetModel {
                    owned_contexts: old(budget)@.owned_contexts + (if plan is InsertNew {
                        1nat
                    } else {
                        0nat
                    }),
                    ..old(budget)@
                })
                &&& removed.fresh_context == (if old(self)@.becomes_short(pressure_active) {
                    old(self)@.fresh_context
                } else {
                    None
                })
                &&& removed.contexts@ == evicted_values(
                    old(self)@.pressure_victims(pressure_active),
                ) + informed.dropped(plan, key.name(), context)
                &&& removed.permits@.len() + final(self)@.permits + old(budget)@.owned_contexts
                    == old(self)@.permits + permits_of(token) + final(budget)@.owned_contexts
                &&& final(log)@ == old(log)@ + removal_updates(
                    evicted_residents(old(self)@.pressure_victims(pressure_active)),
                    ContextCacheClearReason::CgroupMemoryPressure,
                    old(self)@.pressure_victims(pressure_active).len() as int,
                ) + informed.save_updates(plan, key.name(), context)
            }),
    {
        let ghost before = self@;
        let ghost victims = before.pressure_victims(pressure_active);
        if self.cgroup_memory_pressure_active == pressure_active {
            assert(evicted_values(victims) =~= Seq::<V>::empty());
            assert(log@ =~= old(log)@ + Seq::<UpdateView>::empty());
            let (contexts, permits) = self.keep_context(key, context, token, budget, log);
            assert(contexts@ =~= evicted_values(victims) + contexts@);
            return RemovedContexts { fresh_context: None, contexts, permits };
        }
        let (removed_root, gone) = self.set_cgroup_memory_pressure(pressure_active, log);
        self.low_memory_notification_pending = removed_root;
        proof {
            assert(self@ == before.informed(pressure_active));
            lemma_relief_keeps(before.contexts, before.excess());
        }
        let (mut contexts, mut permits) = self.keep_context(key, context, token, budget, log);
        let mut removed = gone;
        removed.contexts.append(&mut contexts);
        removed.permits.append(&mut permits);
        removed
    }

    /// Puts a context that is to be kept into the cache, as the plan says. A context that is not
    /// kept is given back, with the permit that came with it.
    fn place_context(
        &mut self,
        key: ReusableContextKey,
        context: V,
        token: Option<ReusableContextToken>,
        budget: &mut ContextCacheBudget,
    ) -> (placed: Result<
        (CacheInsertionResult<ReusableContextKey, V>, Option<ContextCachePermit>),
        (ContextCacheOperation, V, Option<ContextCachePermit>),
    >)
        requires
            old(self).wf(),
            old(budget).wf(),
            old(self)@.contexts.clock < u64::MAX,
            token matches Some(token) ==> token.key.name() == key.name(),
        ensures
            final(budget).wf(),
            final(self).reusable_contexts.wf(),
            ({
                let plan = old(self)@.plan(
                    key.name(),
                    segment_of(token),
                    old(budget)@.owned_contexts < old(budget)@.capacity,
                );
                &&& final(budget)@ == (BudgetModel {
                    owned_contexts: old(budget)@.owned_contexts + (if plan is InsertNew {
                        1nat
                    } else {
                        0nat
                    }),
                    ..old(budget)@
                })
                &&& match placed {
                    Ok((insertion, permit)) => {
                        let outcome = old(self)@.carried_out(plan, key.name(), context);
                        &&& !ContextCacheModel::<F, V>::rejects(plan)
                        &&& is_insertion(insertion, final(self).reusable_contexts, outcome)
                        &&& permit is Some <==> plan is Reinsert || plan is InsertNew
                        &&& plan is Reinsert <==> token is Some
                        &&& final(self)@ == (ContextCacheModel {
                            contexts: outcome.cache,
                            ..old(self)@
                        })
                    },
                    Err((operation, returned, permit)) => {
                        &&& plan is RejectMemoryPressure || plan is RejectPoolCapacity
                        &&& operation == (if plan is RejectMemoryPressure {
                            ContextCacheOperation::RejectMemoryPressure
                        } else {
                            ContextCacheOperation::RejectPoolCapacity
                        })
                        &&& returned == context
                        &&& permit is Some <==> token is Some
                        &&& *final(self) == *old(self)
                    },
                }
            }),
    {
        if self.cgroup_memory_pressure_active {
            let token = match token {
                Some(token) => token,
                None => {
                    return Err((ContextCacheOperation::RejectMemoryPressure, context, None));
                },
            };
            if token.segment == CacheSegment::Window {
                return Err(
                    (ContextCacheOperation::RejectMemoryPressure, context, Some(token.permit)),
                );
            }
            let insertion = self.reusable_contexts.reinsert_protected_with_capacity(
                TakenCacheEntry { key, value: context, segment: token.segment },
                CGROUP_PRESSURE_REUSABLE_CONTEXTS_PER_ISOLATE,
            );
            return Ok((insertion, Some(token.permit)));
        }
        if let Some(token) = token {
            let insertion = self.reusable_contexts.reinsert(
                TakenCacheEntry { key, value: context, segment: token.segment },
            );
            return Ok((insertion, Some(token.permit)));
        }
        if self.reusable_contexts.contains_key(&key) {
            return Ok((self.reusable_contexts.insert_new(key, context), None));
        }
        if let Some(permit) = budget.try_acquire() {
            return Ok((self.reusable_contexts.insert_new(key, context), Some(permit)));
        }
        if self.reusable_contexts.can_insert_without_growth(&key) {
            return Ok((self.reusable_contexts.insert_new_without_growth(key, context), None));
        }
        Err((ContextCacheOperation::RejectPoolCapacity, context, None))
    }

    /// Keeps a context, once the state of the memory is known.
    fn keep_context(
        &mut self,
        key: ReusableContextKey,
        context: V,
        token: Option<ReusableContextToken>,
        budget: &mut ContextCacheBudget,
        log: &mut MetricLog,
    ) -> (gone: (Vec<V>, Vec<ContextCachePermit>))
        requires
            old(self).wf(),
            old(budget).wf(),
            old(self)@.contexts.clock < u64::MAX,
            token matches Some(token) ==> token.key.name() == key.name(),
            old(self)@.save_fits(
                key.name(),
                segment_of(token),
                old(self)@.pressure,
                old(budget)@.owned_contexts < old(budget)@.capacity,
            ),
        ensures
            final(self).wf(),
            final(budget).wf(),
            ({
                let plan = old(self)@.plan(
                    key.name(),
                    segment_of(token),
                    old(budget)@.owned_contexts < old(budget)@.capacity,
                );
                &&& final(self)@ == old(self)@.saved(plan, key.name(), context)
                &&& final(self)@.contexts.len() <= final(self)@.capacity()
                &&& final(budget)@ == (BudgetModel {
                    owned_contexts: old(budget)@.owned_contexts + (if plan is InsertNew {
                        1nat
                    } else {
                        0nat
                    }),
                    ..old(budget)@
                })
                &&& gone.0@ == old(self)@.dropped(plan, key.name(), context)
                &&& gone.1@.len() + final(self)@.permits + old(budget)@.owned_contexts == old(
                    self)@.permits + permits_of(token) + final(budget)@.owned_contexts
                &&& final(log)@ == old(log)@ + old(self)@.save_updates(plan, key.name(), context)
            }),
    {
        let ghost before = self@;
        let ghost name = key.name();
        let ghost plan = before.plan(
            name,
            segment_of(token),
            budget@.owned_contexts < budget@.capacity,
        );
        let ghost outcome = before.carried_out(plan, name, context);
        let kind = key.kind;
        let mut contexts: Vec<V> = Vec::new();
        let mut permits: Vec<ContextCachePermit> = Vec::new();
        let (insertion, candidate_permit) = match self.place_context(key, context, token, budget) {
            Ok(placed) => placed,
            Err((operation, context, permit)) => {
                if self.cgroup_memory_pressure_active {
                    self.low_memory_notification_pending = true;
                }
                log_context_cache_operation(log, kind, operation);
                contexts.push(context);
                if let Some(permit) = permit {
                    permits.push(permit);
                }
                proof {
                    assert(contexts@ =~= before.dropped(plan, name, context));
                    assert(log@ =~= old(log)@ + before.save_updates(plan, name, context));
                    assert(before.contexts.len() <= before.capacity());
                }
                return (contexts, permits);
            },
        };
        proof {
            lemma_growth(before, plan, name, context);
            lemma_saved_fits(
                before,
                plan,
                name,
                segment_of(token),
                old(budget)@.owned_contexts < old(budget)@.capacity,
                context,
            );
        }
        self.replace_mirror();
        if self.cgroup_memory_pressure_active && insertion.evicted.is_some() {
            self.low_memory_notification_pending = true;
        }
        if let Some(permit) = candidate_permit {
            if insertion.candidate_admitted {
                self.resident_permits.push(permit);
            } else {
                permits.push(permit);
            }
        }
        if let Some(evicted) = insertion.evicted {
            if evicted.was_cached {
                log_removal(evicted.entry.key.kind, clear_reason_of(evicted.reason), log);
            }
            assert(evicted@.entry.key.kind == evicted.entry.key.kind);
            contexts.push(evicted.entry.value);
        }
        assert(contexts@ =~= before.dropped(plan, name, context));
        let kept: usize = self.reusable_contexts.len();
        let mut spare = self.resident_permits.split_off(kept);
        permits.append(&mut spare);
        if insertion.candidate_admitted {
            log_context_cache_entry_added(log, kind);
            log_context_cache_operation(log, kind, ContextCacheOperation::Save);
        } else if self.cgroup_memory_pressure_active {
            log_context_cache_operation(log, kind, ContextCacheOperation::RejectMemoryPressure);
        } else {
            log_context_cache_operation(log, kind, ContextCacheOperation::RejectFrequency);
        }
        assert(log@ =~= old(log)@ + before.save_updates(plan, name, context));
        assert(self@ == before.saved(plan, name, context));
        (contexts, permits)
    }
}

/// A plan that was made for a context leaves the cache within its limits.
proof fn lemma_saved_fits<F, V>(
    cache: ContextCacheModel<F, V>,
    plan: SavePlan,
    key: KeyName,
    segment: Option<CacheSegment>,
    permit_left: bool,
    value: V,
)
    requires
        cache.in_order(),
        plan == cache.plan(key, segment, permit_left),
        !ContextCacheModel::<F, V>::rejects(plan),
        cache.save_fits(key, segment, cache.pressure, permit_left),
    ensures
        ({
            let after = cache.saved(plan, key, value);
            &&& after.contexts.len() <= after.capacity()
            &&& after.pressure ==> after.contexts.window is None && after.contexts.main.len()
                <= CGROUP_PRESSURE_REUSABLE_CONTEXTS_PER_ISOLATE
            &&& after.contexts.main.len() > after.contexts.main_capacity
                ==> after.contexts.window is None && after.contexts.main.len()
                <= CGROUP_PRESSURE_REUSABLE_CONTEXTS_PER_ISOLATE
            &&& after.contexts.main_capacity == cache.contexts.main_capacity
        }),
{
    let contexts = cache.contexts;
    crate::tiny_lfu::position_is_found(contexts, key);
    if contexts.main.len() > 0 {
        let ticked = CacheModel { clock: contexts.clock + 1, ..contexts };
        let entered = CacheModel {
            window: Some(Resident { key, value, last_access: contexts.clock + 1 }),
            ..ticked
        };
        crate::tiny_lfu::weakest_is_weakest(ticked, contexts.main.len() as int, 0);
        crate::tiny_lfu::weakest_is_weakest(entered, contexts.main.len() as int, 0);
    }
}

proof fn lemma_relief_keeps<V>(contexts: CacheModel<KeyName, V>, n: nat)
    ensures
        contexts.relieved_of(n).clock == contexts.clock,
        contexts.relieved_of(n).main_capacity == contexts.main_capacity,
    decreases n,
{
    if n > 0 {
        lemma_relief_keeps(contexts, (n - 1) as nat);
    }
}

/// How many contexts a plan adds: none, or the one that came.
proof fn lemma_growth<F, V>(
    cache: ContextCacheModel<F, V>,
    plan: SavePlan,
    key: KeyName,
    value: V,
)
    requires
        cache.in_order(),
        !ContextCacheModel::<F, V>::rejects(plan),
        plan matches SavePlan::Reinsert(_, capacity) ==> capacity > 0,
        plan is ReplaceDuplicate ==> cache.contexts.contains_key(key),
        plan is InsertWithoutGrowth ==> cache.contexts.can_insert_without_growth(key),
    ensures
        ({
            let outcome = cache.carried_out(plan, key, value);
            &&& cache.contexts.len() <= outcome.cache.len() <= cache.contexts.len() + 1
            &&& outcome.cache.len() == cache.contexts.len() + 1 ==> outcome.admitted && (
            plan is Reinsert || plan is InsertNew)
            &&& plan is ReplaceDuplicate || plan is InsertWithoutGrowth || plan is InsertNew
                ==> outcome.admitted
        }),
{
    let contexts = cache.contexts;
    crate::tiny_lfu::position_is_found(contexts, key);
    if contexts.main.len() > 0 {
        let ticked = CacheModel { clock: contexts.clock + 1, ..contexts };
        let entered = CacheModel {
            window: Some(Resident { key, value, last_access: contexts.clock + 1 }),
            ..ticked
        };
        crate::tiny_lfu::weakest_is_weakest(ticked, contexts.main.len() as int, 0);
        crate::tiny_lfu::weakest_is_weakest(entered, contexts.main.len() as int, 0);
    }
}

/// Whatever is done with a cache, it has a permit for every context that it keeps, its mirror
/// shows exactly the keys of those contexts, and while memory is short only the few protected
/// contexts that may stay are there.
pub proof fn cache_stays_in_order<F, V>(cache: ContextCache<F, V>)
    requires
        cache.wf(),
    ensures
        cache@.in_order(),
{
}

/// A context that is kept is shown to the scheduler.
pub proof fn kept_contexts_are_shown<F, V>(
    cache: ContextCacheModel<F, V>,
    key: KeyName,
    segment: Option<CacheSegment>,
    permit_left: bool,
    value: V,
)
    requires
        cache.in_order(),
        !ContextCacheModel::<F, V>::rejects(cache.plan(key, segment, permit_left)),
        cache.carried_out(cache.plan(key, segment, permit_left), key, value).admitted,
    ensures
        cache.saved(cache.plan(key, segment, permit_left), key, value).mirror.contains(key),
{
    let plan = cache.plan(key, segment, permit_left);
    let outcome = cache.carried_out(plan, key, value);
    let after = outcome.cache;
    match plan {
        SavePlan::Reinsert(segment, capacity) => {
            crate::tiny_lfu::admitted_entries_are_there(
                cache.contexts,
                key,
                value,
                segment,
                true,
                capacity,
            );
        },
        _ => {
            crate::tiny_lfu::admitted_entries_are_there(
                cache.contexts,
                key,
                value,
                CacheSegment::Window,
                false,
                cache.contexts.main_capacity,
            );
        },
    }
    if after.in_window(key) {
        assert(after.keys()[0] == key);
    } else {
        let i = choose|i: int| 0 <= i < after.main.len() && (#[trigger] after.main[i]).key == key;
        let offset = if after.window is Some {
            1int
        } else {
            0int
        };
        assert(after.keys()[offset + i] == key);
    }
}

/// While memory is short, no new context is kept and no context from the window comes back; each
/// such context makes the isolate ask for a collection.
pub proof fn short_memory_keeps_nothing_new<F, V>(
    cache: ContextCacheModel<F, V>,
    key: KeyName,
    segment: Option<CacheSegment>,
    permit_left: bool,
    value: V,
)
    requires
        cache.pressure,
        segment != Some(CacheSegment::Main),
    ensures
        ({
            let after = cache.saved(cache.plan(key, segment, permit_left), key, value);
            after.contexts == cache.contexts && after.notification_pending
        }),
{
}

/// A cache that learns twice in a row that memory is short removes nothing the second time, and
/// asks for no further collection.
pub proof fn short_memory_is_noticed_once<F, V>(cache: ContextCacheModel<F, V>)
    ensures
        cache.under_pressure(true).under_pressure(true) == cache.under_pressure(true),
        !cache.under_pressure(true).removes_roots(true),
{
}

/// A budget gives as many permits as it has, and a permit that came back can be given again.
pub proof fn released_permits_can_be_given_again(before: BudgetModel)
    requires
        0 < before.owned_contexts <= before.capacity,
    ensures
        ({
            let after = BudgetModel {
                owned_contexts: (before.owned_contexts - 1) as nat,
                ..before
            };
            after.owned_contexts < after.capacity
        }),
{
}

proof fn lemma_mirror<F, V>(cache: ContextCacheModel<F, V>, key: KeyName)
    requires
        cache.mirror == cache.contexts.keys(),
    ensures
        cache.mirror.contains(key) == cache.contexts.contains_key(key),
{
    let contexts = cache.contexts;
    crate::tiny_lfu::position_is_found(contexts, key);
    let offset = if contexts.window is Some {
        1int
    } else {
        0int
    };
    if contexts.in_window(key) {
        assert(contexts.keys()[0] == key);
    } else if contexts.position(key, 0) is Some {
        assert(contexts.keys()[offset + contexts.position(key, 0)->0] == key);
    } else if contexts.keys().contains(key) {
        let k = choose|k: int| 0 <= k < contexts.keys().len() && contexts.keys()[k] == key;
        if k < offset {
            assert(contexts.window->0.key == key);
        } else {
            assert(contexts.main[k - offset].key == key);
        }
    }
}

/// A new context is kept if one with the same key is there, if a permit is left, or if one is in
/// the window whose place it can take; only with a permit of its own does the cache become larger.
/// Otherwise nothing changes, and the context is handed out again.
pub proof fn new_contexts_are_kept_while_there_is_room<F, V>(
    cache: ContextCacheModel<F, V>,
    key: KeyName,
    permit_left: bool,
    value: V,
)
    requires
        cache.in_order(),
        !cache.pressure,
    ensures
        ({
            let plan = cache.plan(key, None, permit_left);
            let after = cache.saved(plan, key, value);
            let there = cache.mirror.contains(key);
            let kept = there || permit_left || cache.contexts.window is Some;
            &&& kept ==> after.mirror.contains(key)
            &&& kept && (there || !permit_left) ==> after.permits == cache.permits && cache.dropped(
                plan,
                key,
                value,
            ).len() == 1
            &&& plan is InsertNew <==> !there && permit_left
            &&& plan is InsertNew ==> after.permits + cache.dropped(plan, key, value).len()
                == cache.permits + 1
            &&& !kept ==> after == cache && cache.dropped(plan, key, value) == seq![value]
        }),
{
    let plan = cache.plan(key, None, permit_left);
    lemma_mirror(cache, key);
    let contexts = cache.contexts;
    crate::tiny_lfu::position_is_found(contexts, key);
    if contexts.main.len() > 0 {
        let ticked = CacheModel { clock: contexts.clock + 1, ..contexts };
        let entered = CacheModel {
            window: Some(Resident { key, value, last_access: contexts.clock + 1 }),
            ..ticked
        };
        crate::tiny_lfu::weakest_is_weakest(entered, contexts.main.len() as int, 0);
    }
    if !ContextCacheModel::<F, V>::rejects(plan) {
        lemma_growth(cache, plan, key, value);
        kept_contexts_are_shown(cache, key, None, permit_left, value);
    }
}

/// A context that was in use comes back. One from the window is there again while memory is not
/// short. A protected one is there again if fewer contexts are protected than may be: two while
/// memory is short, and else as many as the cache was made for.
pub proof fn contexts_come_back_after_use<F, V>(
    cache: ContextCacheModel<F, V>,
    key: KeyName,
    segment: CacheSegment,
    permit_left: bool,
    value: V,
)
    requires
        cache.in_order(),
    ensures
        ({
            let plan = cache.plan(key, Some(segment), permit_left);
            let after = cache.saved(plan, key, value);
            let room = if cache.pressure {
                2nat
            } else {
                cache.contexts.main_capacity
            };
            &&& segment == CacheSegment::Window && !cache.pressure ==> after.mirror.contains(key)
            &&& segment == CacheSegment::Window && cache.pressure ==> after.contexts
                == cache.contexts && after.notification_pending && cache.dropped(plan, key, value)
                == seq![value]
            &&& segment == CacheSegment::Main && cache.contexts.main.len() < room
                ==> after.mirror.contains(key)
            &&& segment == CacheSegment::Main && cache.contexts.main.len() < room
                && !cache.mirror.contains(key) ==> after.permits == cache.permits + 1
            &&& segment == CacheSegment::Main && cache.contexts.main.len() >= room
                ==> after.permits == cache.permits && after.contexts.window is Some
                == cache.contexts.window is Some
            &&& cache.pressure && after.contexts.contents() != cache.contexts.contents()
                && cache.dropped(plan, key, value).len() > 0 ==> after.notification_pending
            &&& cache.notification_pending ==> after.notification_pending
            &&& after.pressure == cache.pressure && after.fresh_context == cache.fresh_context
        }),
{
    let plan = cache.plan(key, Some(segment), permit_left);
    lemma_mirror(cache, key);
    let contexts = cache.contexts;
    crate::tiny_lfu::position_is_found(contexts, key);
    let ticked = CacheModel { clock: contexts.clock + 1, ..contexts };
    let entered = CacheModel {
        window: Some(Resident { key, value, last_access: contexts.clock + 1 }),
        ..ticked
    };
    if contexts.main.len() > 0 {
        crate::tiny_lfu::weakest_is_weakest(ticked, contexts.main.len() as int, 0);
        crate::tiny_lfu::weakest_is_weakest(entered, contexts.main.len() as int, 0);
    }
    if !ContextCacheModel::<F, V>::rejects(plan) {
        lemma_growth(cache, plan, key, value);
        if cache.carried_out(plan, key, value).admitted {
            kept_contexts_are_shown(cache, key, Some(segment), permit_left, value);
        }
    }
}

/// Whatever is done with a context that is to be kept, no context gets lost and none is made up:
/// those from before and the new one are those from afterwards and the one that is handed out, if
/// one is.
pub proof fn contexts_are_kept_or_handed_out<F, V>(
    cache: ContextCacheModel<F, V>,
    key: KeyName,
    segment: Option<CacheSegment>,
    permit_left: bool,
    value: V,
)
    requires
        cache.in_order(),
    ensures
        ({
            let plan = cache.plan(key, segment, permit_left);
            let before = cache.contexts.contents().insert((key, value));
            let after = cache.saved(plan, key, value).contexts.contents();
            let dropped = cache.dropped(plan, key, value);
            &&& dropped.len() <= 1
            &&& dropped.len() == 0 ==> after == before
            &&& dropped.len() == 1 ==> exists|name: KeyName|
                #![trigger after.insert((name, dropped[0]))]
                before == after.insert((name, dropped[0]))
        }),
{
    broadcast use vstd::multiset::group_multiset_axioms;

    let plan = cache.plan(key, segment, permit_left);
    let before = cache.contexts.contents().insert((key, value));
    let after = cache.saved(plan, key, value).contexts.contents();
    let dropped = cache.dropped(plan, key, value);
    let outcome = cache.carried_out(plan, key, value);
    if ContextCacheModel::<F, V>::rejects(plan) {
        assert(before == after.insert((key, dropped[0])));
    } else {
        match plan {
            SavePlan::Reinsert(segment, capacity) => {
                crate::tiny_lfu::insertions_lose_no_entry(
                    cache.contexts,
                    key,
                    value,
                    segment,
                    true,
                    capacity,
                );
            },
            SavePlan::InsertWithoutGrowth => {
                crate::tiny_lfu::replacements_lose_no_entry(cache.contexts, key, value);
            },
            _ => {
                crate::tiny_lfu::insertions_lose_no_entry(
                    cache.contexts,
                    key,
                    value,
                    CacheSegment::Window,
                    false,
                    cache.contexts.main_capacity,
                );
            },
        }
        match outcome.evicted {
            Some(evicted) => {
                let name = evicted.entry.key;
                assert(dropped[0] == evicted.entry.value);
                assert(after.add(crate::tiny_lfu::given_up(outcome.evicted)) =~= after.insert(
                    (name, dropped[0]),
                ));
            },
            None => {
                assert(after.add(crate::tiny_lfu::given_up(outcome.evicted)) =~= after);
            },
        }
    }
}

/// When memory becomes short, the fresh context goes, the context in the window goes, and no more
/// than two protected ones stay, those that were asked for most; a collection is asked for if and
/// only if something went or had gone before. When memory is no longer short, nothing goes.
pub proof fn short_memory_leaves_two_contexts<F, V>(cache: ContextCacheModel<F, V>)
    requires
        cache.in_order(),
        !cache.pressure,
    ensures
        ({
            let after = cache.under_pressure(true);
            &&& after.pressure && !after.notification_pending
            &&& after.fresh_context is None
            &&& after.contexts.window is None
            &&& after.contexts.main.len() == if cache.contexts.main.len() > 2 {
                2
            } else {
                cache.contexts.main.len()
            }
            &&& after.permits == after.contexts.main.len() && after.mirror.len()
                == after.contexts.main.len()
            &&& cache.pressure_victims(true).len() + after.permits == cache.permits
            &&& cache.removes_roots(true) <==> cache.notification_pending
                || cache.fresh_context is Some || after.permits < cache.permits
            &&& forall|v: int, i: int|
                0 <= v < cache.pressure_victims(true).len() && (v > 0
                    || cache.contexts.window is None) && 0 <= i < after.contexts.main.len()
                    ==> crate::tiny_lfu::asked_for_less(
                    cache.contexts.frequencies,
                    (#[trigger] cache.pressure_victims(true)[v]).entry,
                    #[trigger] after.contexts.main[i],
                )
        }),
        cache.under_pressure(false) == (ContextCacheModel { notification_pending: false, ..cache }),
        cache.removes_roots(false) == cache.notification_pending,
{
    let excess = cache.excess();
    crate::tiny_lfu::no_more_go_than_have_to(cache.contexts, 2);
    let after = cache.under_pressure(true);
    assert(after.contexts == cache.contexts.relieved_of(excess));
    assert(excess <= cache.contexts.len());
    assert forall|v: int, i: int|
        0 <= v < cache.pressure_victims(true).len() && (v > 0 || cache.contexts.window is None) && 0
            <= i < after.contexts.main.len() implies crate::tiny_lfu::asked_for_less(
        cache.contexts.frequencies,
        (#[trigger] cache.pressure_victims(true)[v]).entry,
        #[trigger] after.contexts.main[i],
    ) by {
        crate::tiny_lfu::what_stays_was_asked_for_more(cache.contexts, excess, v, i);
    }
}

/// A cache that takes notice of the memory before it keeps a context forgets no collection that is
/// still to be asked for, and is then in the state that was told.
pub proof fn no_collection_is_forgotten<F, V>(cache: ContextCacheModel<F, V>, active: bool)
    ensures
        cache.informed(active).pressure == active,
        cache.notification_pending ==> cache.informed(active).notification_pending,
        !cache.pressure && active && cache.fresh_context is Some ==> cache.informed(
            active,
        ).notification_pending,
        cache.pressure == active ==> cache.informed(active) == cache,
        !active ==> cache.informed(active).contexts == cache.contexts && cache.informed(
            active,
        ).fresh_context == cache.fresh_context,
{
}

/// By how much updates change the number of contexts that the metrics show.
pub open spec fn shown_change(updates: Seq<UpdateView>) -> int
    decreases updates.len(),
{
    if updates.len() == 0 {
        0
    } else {
        shown_change(updates.drop_last()) + match updates.last().operation {
            MetricOperation::AddToGauge => 1,
            MetricOperation::SubtractFromGauge => -1,
            _ => 0int,
        }
    }
}

proof fn lemma_shown_change(updates: Seq<UpdateView>, update: UpdateView)
    ensures
        shown_change(updates.push(update)) == shown_change(updates) + match update.operation {
            MetricOperation::AddToGauge => 1,
            MetricOperation::SubtractFromGauge => -1,
            _ => 0int,
        },
{
    assert(updates.push(update).drop_last() =~= updates);
}

/// The metrics show one context less for each that is removed.
pub proof fn removed_contexts_are_no_longer_shown<V>(
    removed: Seq<Resident<KeyName, V>>,
    reason: ContextCacheClearReason,
    n: int,
)
    requires
        0 <= n <= removed.len(),
    ensures
        shown_change(removal_updates(removed, reason, n)) == -n,
    decreases n,
{
    if n > 0 {
        removed_contexts_are_no_longer_shown(removed, reason, n - 1);
        let before = removal_updates(removed, reason, n - 1);
        lemma_shown_change(before, cleared_update(removed[n - 1].key.kind, reason));
        lemma_shown_change(
            before.push(cleared_update(removed[n - 1].key.kind, reason)),
            entry_removed_update(removed[n - 1].key.kind),
        );
    }
}

/// When a context is to be kept, the number of contexts that the metrics show changes by as much as
/// the number that the cache keeps.
pub proof fn kept_contexts_are_counted<F, V>(
    cache: ContextCacheModel<F, V>,
    key: KeyName,
    segment: Option<CacheSegment>,
    permit_left: bool,
    value: V,
)
    requires
        cache.in_order(),
    ensures
        ({
            let plan = cache.plan(key, segment, permit_left);
            cache.saved(plan, key, value).contexts.len() - cache.contexts.len() == shown_change(
                cache.save_updates(plan, key, value),
            )
        }),
{
    let plan = cache.plan(key, segment, permit_left);
    let contexts = cache.contexts;
    let outcome = cache.carried_out(plan, key, value);
    let updates = cache.save_updates(plan, key, value);
    crate::tiny_lfu::position_is_found(contexts, key);
    if contexts.main.len() > 0 {
        let ticked = CacheModel { clock: contexts.clock + 1, ..contexts };
        let entered = CacheModel {
            window: Some(Resident { key, value, last_access: contexts.clock + 1 }),
            ..ticked
        };
        crate::tiny_lfu::weakest_is_weakest(ticked, contexts.main.len() as int, 0);
        crate::tiny_lfu::weakest_is_weakest(entered, contexts.main.len() as int, 0);
    }
    let none = Seq::<UpdateView>::empty();
    assert(updates =~= none || updates.len() > 0);
    if ContextCacheModel::<F, V>::rejects(plan) {
        assert(updates =~= none.push(updates[0]));
        lemma_shown_change(none, updates[0]);
    } else {
        let gone = match outcome.evicted {
            Some(evicted) if evicted.was_cached => none.push(
                cleared_update(evicted.entry.key.kind, clear_reason(evicted.reason)),
            ).push(entry_removed_update(evicted.entry.key.kind)),
            _ => none,
        };
        match outcome.evicted {
            Some(evicted) if evicted.was_cached => {
                let first = cleared_update(evicted.entry.key.kind, clear_reason(evicted.reason));
                lemma_shown_change(none, first);
                lemma_shown_change(
                    none.push(first),
                    entry_removed_update(evicted.entry.key.kind),
                );
            },
            _ => {},
        }
        if outcome.admitted {
            let added = entry_added_update(key.kind);
            let saved = operation_update(key.kind, ContextCacheOperation::Save);
            assert(updates =~= gone.push(added).push(saved));
            lemma_shown_change(gone, added);
            lemma_shown_change(gone.push(added), saved);
        } else {
            assert(updates =~= gone.push(updates.last()));
            lemma_shown_change(gone, updates.last());
        }
    }
}

} // verus!

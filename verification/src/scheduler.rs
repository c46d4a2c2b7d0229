//! The isolate scheduler: which requests start, and on which workers.
//!
//! Every kind of request shares the base capacity; only requests for which another one waits may use
//! the reserve beyond it. A request goes to a worker of its client that already holds a context for
//! it, or else to a worker of its client without contexts, a new worker, or the worker that was idle
//! for longest.
use std::collections::VecDeque;
use vstd::prelude::*;
use vstd::std_specs::vecdeque::*;
use vstd::string::*;

use crate::component::ModulePathView;
use crate::context_cache::{CachedContexts, KeyName};
use crate::context_kind::{ReusableContextKind, SchedulerContextAffinityOutcome};
use crate::isolate_limits::{client_capacity, per_client_worker_capacity};
use crate::isolate_queue::{IsolateQueueEligibility, IsolateQueueLane};
use crate::metric_log::{
    counter, gauge, update, MetricLog, MetricOperation, MetricValue, UpdateView,
};
use crate::metrics::{
    log_isolate_queue_sojourn, log_pool_max, log_pool_running_count, log_scheduler_capacity,
    log_scheduler_context_affinity, log_scheduler_dependency_reserve_dispatch,
    log_scheduler_request_dispatched, log_worker_stolen, RejectedBeforeExecutionReason,
};
use crate::request::{one_if, ActiveRequestCounts, Request, RequestSchedulingProperties};
use crate::string_map::StringMap;
use crate::text::same_text;
use crate::time::{duration, duration_of_its_nanos, elapsed_since, Duration, Moment};

verus! {

broadcast use duration_of_its_nanos;

/// The limits that the scheduler keeps.
#[derive(Clone, Copy, Debug, PartialEq, Eq, Structural)]
pub struct SchedulerLimits {
    pub max_workers: usize,
    pub base_worker_capacity: usize,
    pub max_independent_actions: usize,
    pub max_workers_per_client: usize,
    pub base_workers_per_client: usize,
}

/// Which limits keep a request from starting.
pub open spec fn eligibility_of(
    limits: SchedulerLimits,
    active: ActiveRequestCounts,
    client: ActiveRequestCounts,
    properties: RequestSchedulingProperties,
) -> IsolateQueueEligibility {
    IsolateQueueEligibility {
        physical_total: active.total >= limits.max_workers,
        shared_base: !properties.unblocks_ancestor && active.total >= limits.base_worker_capacity,
        per_client_total: client.total >= limits.max_workers_per_client,
        per_client_base: !properties.unblocks_ancestor && client.total
            >= limits.base_workers_per_client,
        independent_action_cap: properties.is_independent_action() && active.independent_actions
            >= limits.max_independent_actions,
    }
}

/// The requests that are being served, and the limits, at some time.
pub struct SchedulerStateSnapshot {
    pub in_progress_counts_by_client: StringMap<ActiveRequestCounts>,
    pub active_counts: ActiveRequestCounts,
    pub max_workers: usize,
    pub base_worker_capacity: usize,
    pub max_independent_actions: usize,
    pub max_workers_per_client: usize,
    pub base_workers_per_client: usize,
}

impl SchedulerStateSnapshot {
    pub open spec fn limits(self) -> SchedulerLimits {
        SchedulerLimits {
            max_workers: self.max_workers,
            base_worker_capacity: self.base_worker_capacity,
            max_independent_actions: self.max_independent_actions,
            max_workers_per_client: self.max_workers_per_client,
            base_workers_per_client: self.base_workers_per_client,
        }
    }

    pub open spec fn client_counts(self, client: Seq<char>) -> ActiveRequestCounts {
        if self.in_progress_counts_by_client@.dom().contains(client) {
            self.in_progress_counts_by_client@[client]
        } else {
            ActiveRequestCounts::none()
        }
    }

    pub open spec fn eligibility(
        self,
        properties: RequestSchedulingProperties,
        client: Seq<char>,
    ) -> IsolateQueueEligibility {
        eligibility_of(self.limits(), self.active_counts, self.client_counts(client), properties)
    }

    pub fn can_start_request(
        &self,
        properties: RequestSchedulingProperties,
        client_id: &str,
    ) -> (can_start: bool)
        ensures
            can_start == self.eligibility(properties, client_id@).can_start(),
    {
        self.request_eligibility(properties, client_id).is_eligible()
    }

    /// Which limits keep a request from starting.
    pub fn request_eligibility(
        &self,
        properties: RequestSchedulingProperties,
        client_id: &str,
    ) -> (eligibility: IsolateQueueEligibility)
        ensures
            eligibility == self.eligibility(properties, client_id@),
    {
        let client_active_counts: ActiveRequestCounts = match self.in_progress_counts_by_client.get(
            client_id,
        ) {
            Some(counts) => *counts,
            None => ActiveRequestCounts::default(),
        };
        IsolateQueueEligibility {
            physical_total: self.active_counts.total >= self.max_workers,
            shared_base: !properties.unblocks_ancestor && self.active_counts.total
                >= self.base_worker_capacity,
            per_client_total: client_active_counts.total >= self.max_workers_per_client,
            per_client_base: !properties.unblocks_ancestor && client_active_counts.total
                >= self.base_workers_per_client,
            independent_action_cap: properties.is_isolate_action && !properties.unblocks_ancestor
                && self.active_counts.independent_actions >= self.max_independent_actions,
        }
    }

    /// Whether a request that starts now uses the reserve.
    pub fn dependency_dispatch_uses_reserve(&self) -> (uses: bool)
        ensures
            uses == (self.active_counts.total >= self.base_worker_capacity),
    {
        self.active_counts.total >= self.base_worker_capacity
    }
}

/// Why a request is rejected that limits keep from starting: a limit of its client comes before
/// one of the pool.
pub open spec fn rejection_of(eligibility: IsolateQueueEligibility) -> Option<
    RejectedBeforeExecutionReason,
> {
    if eligibility.can_start() {
        None
    } else if eligibility.per_client_total || eligibility.per_client_base {
        Some(RejectedBeforeExecutionReason::PerClientWorkerOverloaded)
    } else {
        Some(RejectedBeforeExecutionReason::WorkerPoolOverloaded)
    }
}

pub fn worker_rejection_reason(eligibility: IsolateQueueEligibility) -> (reason: Option<
    RejectedBeforeExecutionReason,
>)
    ensures
        reason == rejection_of(eligibility),
{
    if eligibility.is_eligible() {
        None
    } else if eligibility.per_client_total || eligibility.per_client_base {
        Some(RejectedBeforeExecutionReason::PerClientWorkerOverloaded)
    } else {
        Some(RejectedBeforeExecutionReason::WorkerPoolOverloaded)
    }
}

/// Beyond the base capacity only requests start for which another one waits.
pub proof fn reserve_unblocks_ancestors(
    limits: SchedulerLimits,
    active: ActiveRequestCounts,
    client: ActiveRequestCounts,
    properties: RequestSchedulingProperties,
)
    requires
        eligibility_of(limits, active, client, properties).can_start(),
        active.total >= limits.base_worker_capacity || client.total
            >= limits.base_workers_per_client,
    ensures
        properties.unblocks_ancestor,
{
}

/// The limit of actions keeps neither other requests nor actions from starting for which another
/// request waits.
pub proof fn action_limit_is_for_independent_actions(
    limits: SchedulerLimits,
    active: ActiveRequestCounts,
    client: ActiveRequestCounts,
    properties: RequestSchedulingProperties,
)
    requires
        !properties.is_isolate_action || properties.unblocks_ancestor,
    ensures
        !eligibility_of(limits, active, client, properties).independent_action_cap,
{
}

/// A worker without work.
pub struct IdleWorkerState {
    pub worker_id: usize,
    pub client_id: String,
    pub last_used_ts: Moment,
    pub cached_contexts: CachedContexts,
}

/// What an `IdleWorkerState` holds.
pub struct IdleModel {
    pub worker_id: nat,
    pub client: Seq<char>,
    pub last_used: nat,
    pub contexts: Seq<KeyName>,
}

impl View for IdleWorkerState {
    type V = IdleModel;

    open spec fn view(&self) -> IdleModel {
        IdleModel {
            worker_id: self.worker_id as nat,
            client: self.client_id@,
            last_used: self.last_used_ts@,
            contexts: self.cached_contexts@,
        }
    }
}

/// A worker that serves a request.
pub struct ActiveWorkerState {
    pub worker_id: usize,
    pub client_id: String,
    pub scheduling_properties: RequestSchedulingProperties,
}

/// What an `ActiveWorkerState` holds.
pub struct ActiveModel {
    pub worker_id: nat,
    pub client: Seq<char>,
    pub properties: RequestSchedulingProperties,
}

impl View for ActiveWorkerState {
    type V = ActiveModel;

    open spec fn view(&self) -> ActiveModel {
        ActiveModel {
            worker_id: self.worker_id as nat,
            client: self.client_id@,
            properties: self.scheduling_properties,
        }
    }
}

/// The worker that a request goes to.
#[derive(Clone, Copy, Debug, PartialEq, Eq)]
pub struct WorkerSelection {
    pub worker_id: usize,
    pub context_affinity: Option<(ReusableContextKind, SchedulerContextAffinityOutcome)>,
}

/// How many requests are served for a client, and how many of them are independent actions.
pub open spec fn client_active(active: Seq<ActiveModel>, client: Seq<char>) -> (int, int)
    decreases active.len(),
{
    if active.len() == 0 {
        (0, 0)
    } else {
        let rest = client_active(active.drop_last(), client);
        if active.last().client == client {
            (rest.0 + 1, rest.1 + one_if(active.last().properties.is_independent_action()))
        } else {
            rest
        }
    }
}

/// How many independent actions are served.
pub open spec fn actions_active(active: Seq<ActiveModel>) -> int
    decreases active.len(),
{
    if active.len() == 0 {
        0
    } else {
        actions_active(active.drop_last()) + one_if(
            active.last().properties.is_independent_action(),
        )
    }
}

/// The counts of the requests that are served for a client.
pub open spec fn client_counts(active: Seq<ActiveModel>, client: Seq<char>) -> ActiveRequestCounts {
    ActiveRequestCounts {
        total: client_active(active, client).0 as usize,
        independent_actions: client_active(active, client).1 as usize,
    }
}

/// The counts of all requests that are served.
pub open spec fn all_counts(active: Seq<ActiveModel>) -> ActiveRequestCounts {
    ActiveRequestCounts {
        total: active.len() as usize,
        independent_actions: actions_active(active) as usize,
    }
}

/// What the scheduler holds.
#[verifier::ext_equal]
pub struct SchedulerModel {
    /// The workers without work, those first that worked last.
    pub idle: Seq<IdleModel>,
    pub active: Seq<ActiveModel>,
    /// How many workers there are.
    pub workers: nat,
    pub limits: SchedulerLimits,
}

/// Whether a worker can serve a request that reuses contexts of a kind with a context that it has.
pub open spec fn serves(
    worker: IdleModel,
    client: Seq<char>,
    kind: Option<ReusableContextKind>,
    module: Option<ModulePathView>,
) -> bool {
    worker.client == client && (kind matches Some(kind) && module matches Some(module)
        && worker.contexts.contains(KeyName { kind, module }))
}

/// The first worker from `i` on that can serve a request with a context that it has.
pub open spec fn first_serving(
    idle: Seq<IdleModel>,
    client: Seq<char>,
    kind: Option<ReusableContextKind>,
    module: Option<ModulePathView>,
    i: int,
) -> Option<int>
    decreases idle.len() - i,
{
    if i >= idle.len() {
        None
    } else if serves(idle[i], client, kind, module) {
        Some(i)
    } else {
        first_serving(idle, client, kind, module, i + 1)
    }
}

/// The first worker of a client from `i` on that has no context.
pub open spec fn first_empty(idle: Seq<IdleModel>, client: Seq<char>, i: int) -> Option<int>
    decreases idle.len() - i,
{
    if i >= idle.len() {
        None
    } else if idle[i].client == client && idle[i].contexts.len() == 0 {
        Some(i)
    } else {
        first_empty(idle, client, i + 1)
    }
}

/// Whether a worker is the one of its client that is idle for longest.
pub open spec fn is_last_of_client(idle: Seq<IdleModel>, i: int) -> bool {
    0 <= i < idle.len() && forall|j: int|
        i < j < idle.len() ==> (#[trigger] idle[j]).client != idle[i].client
}

/// Whether a worker can be taken from its client: of each client the one that is idle for longest
/// is looked at, and of those the one that worked least lately is taken.
pub open spec fn can_be_stolen(idle: Seq<IdleModel>, i: int) -> bool {
    is_last_of_client(idle, i) && forall|j: int| #[trigger]
        is_last_of_client(idle, j) ==> idle[i].last_used <= idle[j].last_used
}

impl SchedulerModel {
    pub open spec fn eligibility(
        self,
        properties: RequestSchedulingProperties,
        client: Seq<char>,
    ) -> IsolateQueueEligibility {
        eligibility_of(
            self.limits,
            all_counts(self.active),
            client_counts(self.active, client),
            properties,
        )
    }

    pub open spec fn is_idle(self, worker: nat) -> bool {
        exists|i: int| 0 <= i < self.idle.len() && (#[trigger] self.idle[i]).worker_id == worker
    }

    pub open spec fn is_active(self, worker: nat) -> bool {
        exists|i: int| 0 <= i < self.active.len() && (#[trigger] self.active[i]).worker_id == worker
    }

    /// What holds of every scheduler: a worker has at most one request, no worker is both idle and
    /// active, and there are no more workers than allowed.
    pub open spec fn in_order(self) -> bool {
        &&& self.workers <= self.limits.max_workers
        &&& forall|i: int|
            0 <= i < self.idle.len() ==> (#[trigger] self.idle[i]).worker_id < self.workers
        &&& forall|i: int|
            0 <= i < self.active.len() ==> (#[trigger] self.active[i]).worker_id < self.workers
        &&& forall|i: int, j: int|
            0 <= i < j < self.idle.len() ==> (#[trigger] self.idle[i]).worker_id != (
            #[trigger] self.idle[j]).worker_id
        &&& forall|i: int, j: int|
            0 <= i < j < self.active.len() ==> (#[trigger] self.active[i]).worker_id != (
            #[trigger] self.active[j]).worker_id
        &&& forall|i: int, j: int|
            0 <= i < self.idle.len() && 0 <= j < self.active.len() ==> (
            #[trigger] self.idle[i]).worker_id != (#[trigger] self.active[j]).worker_id
        &&& self.active.len() <= self.limits.max_workers
    }

    /// The scheduler without the idle worker at `i`.
    pub open spec fn without_idle(self, i: int) -> SchedulerModel {
        SchedulerModel { idle: self.idle.remove(i), ..self }
    }

    /// The worker that is chosen among those of the client: one that can serve the request with a
    /// context that it has, or else, for a request that reuses contexts, one without contexts.
    pub open spec fn own_worker(
        self,
        client: Seq<char>,
        kind: Option<ReusableContextKind>,
        module: Option<ModulePathView>,
    ) -> Option<(int, SchedulerContextAffinityOutcome)> {
        match first_serving(self.idle, client, kind, module, 0) {
            Some(i) => Some((i, SchedulerContextAffinityOutcome::Hit)),
            None => match (kind, first_empty(self.idle, client, 0)) {
                (Some(_), Some(i)) => Some((i, SchedulerContextAffinityOutcome::EmptyWorker)),
                _ => None,
            },
        }
    }

    /// Whether a selection, a scheduler and the metrics are what choosing a worker gives.
    pub open spec fn is_selection(
        self,
        client: Seq<char>,
        kind: Option<ReusableContextKind>,
        module: Option<ModulePathView>,
        now: nat,
        selection: WorkerSelection,
        after: SchedulerModel,
        shown: Seq<UpdateView>,
    ) -> bool {
        match self.own_worker(client, kind, module) {
            Some((i, outcome)) => {
                &&& selection.worker_id == self.idle[i].worker_id
                &&& selection.context_affinity == affinity(kind, outcome)
                &&& after == self.without_idle(i)
                &&& shown == Seq::<UpdateView>::empty()
            },
            None => if self.workers < self.limits.max_workers {
                &&& selection.worker_id == self.workers
                &&& selection.context_affinity == affinity(
                    kind,
                    SchedulerContextAffinityOutcome::NewWorker,
                )
                &&& after == (SchedulerModel { workers: self.workers + 1, ..self })
                &&& shown == Seq::<UpdateView>::empty()
            } else {
                exists|i: int| #[trigger]
                    can_be_stolen(self.idle, i) && selection.worker_id == self.idle[i].worker_id
                        && selection.context_affinity == affinity(
                        kind,
                        SchedulerContextAffinityOutcome::StolenWorker,
                    ) && after == self.without_idle(i) && shown == seq![
                        stolen_update(elapsed_since(now, self.idle[i].last_used)),
                    ]
            },
        }
    }

    /// Whether no worker can be had: all are there, and none is idle.
    pub open spec fn has_no_worker(self) -> bool {
        self.workers >= self.limits.max_workers && self.idle.len() == 0
    }
}

/// How a worker was found, for a request that reuses contexts.
pub open spec fn affinity(
    kind: Option<ReusableContextKind>,
    outcome: SchedulerContextAffinityOutcome,
) -> Option<(ReusableContextKind, SchedulerContextAffinityOutcome)> {
    match kind {
        Some(kind) => Some((kind, outcome)),
        None => None,
    }
}

pub open spec fn stolen_update(age: nat) -> UpdateView {
    update(
        MetricOperation::RecordDistribution,
        "isolate_scheduler_stolen_worker_age_seconds"@,
        MetricValue::Seconds(duration(age)),
        Seq::empty(),
    )
}

pub open spec fn running_update(pool: Seq<char>, count: int, client: Seq<char>) -> UpdateView {
    gauge(
        "isolate_pool_running_count_info"@,
        count,
        seq![("pool_name"@, pool), ("client_id"@, client)],
    )
}

pub open spec fn capacity_update(pool: Seq<char>, kind: Seq<char>, capacity: int) -> UpdateView {
    gauge(
        "isolate_scheduler_capacity_info"@,
        capacity,
        seq![("pool_name"@, pool), ("capacity_kind"@, kind)],
    )
}

/// What the metrics show when the scheduler starts.
pub open spec fn start_updates(pool: Seq<char>, limits: SchedulerLimits) -> Seq<UpdateView> {
    seq![
        gauge("isolate_pool_max_info"@, limits.max_workers as int, seq![("pool_name"@, pool)]),
        capacity_update(pool, "physical"@, limits.max_workers as int),
        capacity_update(pool, "base"@, limits.base_worker_capacity as int),
        capacity_update(pool, "independent_action"@, limits.max_independent_actions as int),
    ]
}

/// What the metrics show when a worker took a request.
pub open spec fn dispatch_updates(
    pool: Seq<char>,
    client: Seq<char>,
    properties: RequestSchedulingProperties,
    affinity: Option<(ReusableContextKind, SchedulerContextAffinityOutcome)>,
    sojourn: Option<(IsolateQueueLane, Duration)>,
    running: int,
    uses_reserve: bool,
) -> Seq<UpdateView> {
    (match affinity {
        Some((kind, outcome)) => seq![
            counter(
                "isolate_scheduler_context_affinity_total"@,
                1,
                seq![
                    ("pool_name"@, pool),
                    ("context_kind"@, kind.label()),
                    ("outcome"@, outcome.label()),
                ],
            ),
        ],
        None => Seq::empty(),
    }) + (match sojourn {
        Some((lane, sojourn)) => seq![
            update(
                MetricOperation::RecordDistribution,
                "isolate_queue_sojourn_seconds"@,
                MetricValue::Seconds(sojourn),
                seq![("pool_name"@, pool), ("lane"@, lane.label())],
            ),
        ],
        None => Seq::empty(),
    }) + seq![
        running_update(pool, running, client),
        counter(
            "isolate_scheduler_requests_dispatched_total"@,
            1,
            seq![("pool_name"@, pool), ("scheduler_class"@, properties.label())],
        ),
    ] + (if uses_reserve {
        seq![
            counter(
                "isolate_scheduler_dependency_reserve_dispatch_total"@,
                1,
                seq![("pool_name"@, pool)],
            ),
        ]
    } else {
        Seq::empty()
    })
}

proof fn lemma_active_bounds(active: Seq<ActiveModel>, client: Seq<char>)
    ensures
        0 <= client_active(active, client).1 <= client_active(active, client).0 <= active.len(),
        client_active(active, client).1 <= actions_active(active),
        0 <= actions_active(active) <= active.len(),
    decreases active.len(),
{
    if active.len() > 0 {
        lemma_active_bounds(active.drop_last(), client);
    }
}

proof fn lemma_active_push(active: Seq<ActiveModel>, worker: ActiveModel, client: Seq<char>)
    ensures
        client_active(active.push(worker), client) == (if worker.client == client {
            (
                client_active(active, client).0 + 1,
                client_active(active, client).1 + one_if(
                    worker.properties.is_independent_action(),
                ),
            )
        } else {
            client_active(active, client)
        }),
        actions_active(active.push(worker)) == actions_active(active) + one_if(
            worker.properties.is_independent_action(),
        ),
{
    assert(active.push(worker).drop_last() =~= active);
}

proof fn lemma_active_remove(active: Seq<ActiveModel>, i: int, client: Seq<char>)
    requires
        0 <= i < active.len(),
    ensures
        client_active(active, client) == (if active[i].client == client {
            (
                client_active(active.remove(i), client).0 + 1,
                client_active(active.remove(i), client).1 + one_if(
                    active[i].properties.is_independent_action(),
                ),
            )
        } else {
            client_active(active.remove(i), client)
        }),
        actions_active(active) == actions_active(active.remove(i)) + one_if(
            active[i].properties.is_independent_action(),
        ),
    decreases active.len(),
{
    if i == active.len() - 1 {
        assert(active.remove(i) =~= active.drop_last());
    } else {
        lemma_active_remove(active.drop_last(), i, client);
        assert(active.remove(i).drop_last() =~= active.drop_last().remove(i));
        assert(active.remove(i).last() == active.last());
    }
}

proof fn lemma_first_serving(
    idle: Seq<IdleModel>,
    client: Seq<char>,
    kind: Option<ReusableContextKind>,
    module: Option<ModulePathView>,
    i: int,
)
    requires
        0 <= i,
    ensures
        first_serving(idle, client, kind, module, i) matches Some(at) ==> i <= at < idle.len()
            && serves(idle[at], client, kind, module),
    decreases idle.len() - i,
{
    if i < idle.len() && !serves(idle[i], client, kind, module) {
        lemma_first_serving(idle, client, kind, module, i + 1);
    }
}

proof fn lemma_first_empty(idle: Seq<IdleModel>, client: Seq<char>, i: int)
    requires
        0 <= i,
    ensures
        first_empty(idle, client, i) matches Some(at) ==> i <= at < idle.len() && idle[at].client
            == client && idle[at].contexts.len() == 0,
    decreases idle.len() - i,
{
    if i < idle.len() && !(idle[i].client == client && idle[i].contexts.len() == 0) {
        lemma_first_empty(idle, client, i + 1);
    }
}

/// The isolate scheduler.
pub struct SharedIsolateScheduler {
    pool_name: &'static str,
    available_workers: VecDeque<IdleWorkerState>,
    in_progress_workers: Vec<ActiveWorkerState>,
    in_progress_counts_by_client: StringMap<ActiveRequestCounts>,
    in_progress_counts: ActiveRequestCounts,
    workers: usize,
    limits: SchedulerLimits,
    control_plane_lane_enabled: bool,
}

/// What a list of idle workers holds.
pub open spec fn idle_models(workers: Seq<IdleWorkerState>) -> Seq<IdleModel> {
    workers.map_values(|worker: IdleWorkerState| worker@)
}

/// What a list of active workers holds.
pub open spec fn active_models(workers: Seq<ActiveWorkerState>) -> Seq<ActiveModel> {
    workers.map_values(|worker: ActiveWorkerState| worker@)
}

impl View for SharedIsolateScheduler {
    type V = SchedulerModel;

    closed spec fn view(&self) -> SchedulerModel {
        SchedulerModel {
            idle: idle_models(self.available_workers@),
            active: active_models(self.in_progress_workers@),
            workers: self.workers as nat,
            limits: self.limits,
        }
    }
}

impl SharedIsolateScheduler {
    /// The name of the pool that the metrics show.
    pub closed spec fn pool(self) -> Seq<char> {
        self.pool_name@
    }

    pub closed spec fn lane_enabled(self) -> bool {
        self.control_plane_lane_enabled
    }

    /// Whether the scheduler is in order.
    pub closed spec fn wf(self) -> bool {
        &&& self@.in_order()
        &&& self.in_progress_counts == all_counts(self@.active)
        &&& forall|client: Seq<char>|
            #![trigger self.in_progress_counts_by_client@.dom().contains(client)]
            self.in_progress_counts_by_client@.dom().contains(client) == (client_active(
                self@.active,
                client,
            ).0 > 0)
        &&& forall|client: Seq<char>|
            #![trigger self.in_progress_counts_by_client@[client]]
            self.in_progress_counts_by_client@.dom().contains(client)
                ==> self.in_progress_counts_by_client@[client] == client_counts(
                self@.active,
                client,
            )
    }

    /// A scheduler without workers. What one client may use beyond the base is carved out of what
    /// it may use in all, as the reserve is carved out of all workers, but one worker of the base is
    /// left to each client.
    pub fn new(
        pool_name: &'static str,
        max_workers: usize,
        base_worker_capacity: usize,
        max_independent_actions: usize,
        max_percent_per_client: usize,
        control_plane_lane_enabled: bool,
    ) -> (scheduler: SharedIsolateScheduler)
        requires
            base_worker_capacity <= max_workers,
        ensures
            scheduler.wf(),
            scheduler.pool() == pool_name@,
            scheduler.lane_enabled() == control_plane_lane_enabled,
            scheduler@ == (SchedulerModel {
                idle: Seq::empty(),
                active: Seq::empty(),
                workers: 0,
                limits: limits_of(
                    max_workers,
                    base_worker_capacity,
                    max_independent_actions,
                    max_percent_per_client,
                ),
            }),
    {
        let dependency_reserve: usize = max_workers - base_worker_capacity;
        let max_workers_per_client: usize = per_client_worker_capacity(
            max_workers,
            max_percent_per_client,
        );
        let spare: usize = max_workers_per_client.saturating_sub(1);
        let effective_dependency_reserve: usize = if dependency_reserve < spare {
            dependency_reserve
        } else {
            spare
        };
        let scheduler = SharedIsolateScheduler {
            pool_name,
            available_workers: VecDeque::new(),
            in_progress_workers: Vec::new(),
            in_progress_counts_by_client: StringMap::new(),
            in_progress_counts: ActiveRequestCounts::default(),
            workers: 0,
            limits: SchedulerLimits {
                max_workers,
                base_worker_capacity,
                max_independent_actions,
                max_workers_per_client,
                base_workers_per_client: max_workers_per_client - effective_dependency_reserve,
            },
            control_plane_lane_enabled,
        };
        assert(scheduler@.idle =~= Seq::empty());
        assert(scheduler@.active =~= Seq::empty());
        scheduler
    }

    /// Shows the limits.
    pub fn announce(&self, log: &mut MetricLog)
        ensures
            final(log)@ == old(log)@ + start_updates(self.pool(), self@.limits),
    {
        log_pool_max(log, self.pool_name, self.limits.max_workers);
        log_scheduler_capacity(log, self.pool_name, "physical", self.limits.max_workers);
        log_scheduler_capacity(log, self.pool_name, "base", self.limits.base_worker_capacity);
        log_scheduler_capacity(
            log,
            self.pool_name,
            "independent_action",
            self.limits.max_independent_actions,
        );
        assert(log@ =~= old(log)@ + start_updates(self.pool(), self@.limits));
    }

    /// The requests that are being served now, and the limits.
    pub fn state_snapshot(&self) -> (snapshot: SchedulerStateSnapshot)
        requires
            self.wf(),
        ensures
            snapshot.limits() == self@.limits,
            snapshot.active_counts == all_counts(self@.active),
            forall|client: Seq<char>|
                #![trigger snapshot.client_counts(client)]
                snapshot.client_counts(client) == client_counts(self@.active, client),
    {
        let snapshot = SchedulerStateSnapshot {
            in_progress_counts_by_client: self.in_progress_counts_by_client.copied(),
            active_counts: self.in_progress_counts,
            max_workers: self.limits.max_workers,
            base_worker_capacity: self.limits.base_worker_capacity,
            max_independent_actions: self.limits.max_independent_actions,
            max_workers_per_client: self.limits.max_workers_per_client,
            base_workers_per_client: self.limits.base_workers_per_client,
        };
        assert forall|client: Seq<char>|
            #![trigger snapshot.client_counts(client)]
            snapshot.client_counts(client) == client_counts(self@.active, client) by {
            lemma_active_bounds(self@.active, client);
            assert(self.in_progress_counts_by_client@.dom().contains(client) == (client_active(
                self@.active,
                client,
            ).0 > 0));
            if self.in_progress_counts_by_client@.dom().contains(client) {
                assert(self.in_progress_counts_by_client@[client] == client_counts(
                    self@.active,
                    client,
                ));
            }
        }
        snapshot
    }

    fn serving_position(
        &self,
        client_id: &str,
        kind: Option<ReusableContextKind>,
        request: &Request,
    ) -> (position: Option<usize>)
        ensures
            match position {
                Some(i) => first_serving(
                    self@.idle,
                    client_id@,
                    kind,
                    request.module_view(),
                    0,
                ) == Some(i as int) && i < self.available_workers.len(),
                None => first_serving(
                    self@.idle,
                    client_id@,
                    kind,
                    request.module_view(),
                    0,
                ) is None,
            },
    {
        let module = request.module();
        let mut i: usize = 0;
        while i < self.available_workers.len()
            invariant
                i <= self.available_workers.len(),
                match module {
                    Some(module) => request.module_view() == Some(module@),
                    None => request.module_view() is None,
                },
                first_serving(self@.idle, client_id@, kind, request.module_view(), 0)
                    == first_serving(
                    self@.idle,
                    client_id@,
                    kind,
                    request.module_view(),
                    i as int,
                ),
            decreases self.available_workers.len() - i,
        {
            assert(self@.idle[i as int] == self.available_workers@[i as int]@);
            let worker = &self.available_workers[i];
            if same_text(worker.client_id.as_str(), client_id)
                && worker.cached_contexts.can_serve_request(kind, module.as_ref()) {
                return Some(i);
            }
            i = i + 1;
        }
        None
    }

    fn empty_position(&self, client_id: &str) -> (position: Option<usize>)
        ensures
            match position {
                Some(i) => first_empty(self@.idle, client_id@, 0) == Some(i as int) && i
                    < self.available_workers.len(),
                None => first_empty(self@.idle, client_id@, 0) is None,
            },
    {
        let mut i: usize = 0;
        while i < self.available_workers.len()
            invariant
                i <= self.available_workers.len(),
                first_empty(self@.idle, client_id@, 0) == first_empty(
                    self@.idle,
                    client_id@,
                    i as int,
                ),
            decreases self.available_workers.len() - i,
        {
            assert(self@.idle[i as int] == self.available_workers@[i as int]@);
            let worker = &self.available_workers[i];
            if same_text(worker.client_id.as_str(), client_id)
                && worker.cached_contexts.has_no_reusable_context() {
                return Some(i);
            }
            i = i + 1;
        }
        None
    }

    fn is_last_of_its_client(&self, i: usize) -> (last: bool)
        requires
            i < self.available_workers.len(),
        ensures
            last == is_last_of_client(self@.idle, i as int),
    {
        let mut j: usize = i + 1;
        assert(self@.idle[i as int] == self.available_workers@[i as int]@);
        while j < self.available_workers.len()
            invariant
                i < j <= self.available_workers.len(),
                forall|k: int|
                    i < k < j ==> (#[trigger] self@.idle[k]).client != self@.idle[i as int].client,
                self@.idle[i as int] == self.available_workers@[i as int]@,
            decreases self.available_workers.len() - j,
        {
            assert(self@.idle[j as int] == self.available_workers@[j as int]@);
            if same_text(
                self.available_workers[j].client_id.as_str(),
                self.available_workers[i].client_id.as_str(),
            ) {
                return false;
            }
            j = j + 1;
        }
        true
    }

    fn stealable_position(&self) -> (position: Option<usize>)
        ensures
            match position {
                Some(i) => can_be_stolen(self@.idle, i as int) && i < self.available_workers.len(),
                None => self@.idle.len() == 0,
            },
    {
        let mut best: Option<usize> = None;
        let mut i: usize = 0;
        while i < self.available_workers.len()
            invariant
                i <= self.available_workers.len(),
                match best {
                    Some(best) => {
                        &&& best < i
                        &&& is_last_of_client(self@.idle, best as int)
                        &&& forall|j: int|
                            0 <= j < i && #[trigger] is_last_of_client(self@.idle, j)
                                ==> self@.idle[best as int].last_used <= self@.idle[j].last_used
                    },
                    None => forall|j: int|
                        0 <= j < i ==> !(#[trigger] is_last_of_client(self@.idle, j)),
                },
            decreases self.available_workers.len() - i,
        {
            assert(self@.idle[i as int] == self.available_workers@[i as int]@);
            if self.is_last_of_its_client(i) {
                best =
                match best {
                    Some(current) => {
                        assert(self@.idle[current as int]
                            == self.available_workers@[current as int]@);
                        if self.available_workers[i].last_used_ts.as_nanos()
                            < self.available_workers[current].last_used_ts.as_nanos() {
                            Some(i)
                        } else {
                            Some(current)
                        }
                    },
                    None => Some(i),
                };
            }
            i = i + 1;
        }
        proof {
            if self@.idle.len() > 0 {
                let last = self@.idle.len() - 1;
                assert(is_last_of_client(self@.idle, last));
            }
        }
        best
    }

    fn take_idle(&mut self, i: usize) -> (worker: IdleWorkerState)
        requires
            old(self).wf(),
            i < old(self).available_workers.len(),
        ensures
            final(self).wf(),
            final(self).pool() == old(self).pool(),
            final(self).lane_enabled() == old(self).lane_enabled(),
            final(self)@ == old(self)@.without_idle(i as int),
            worker@ == old(self)@.idle[i as int],
    {
        let ghost before = self@;
        let worker = match self.available_workers.remove(i) {
            Some(worker) => worker,
            None => {
                // The position is within the list.
                assert(false);
                loop
                    invariant
                        false,
                    decreases 0nat,
                {
                }
            },
        };
        proof {
            assert(self@.idle =~= before.idle.remove(i as int));
            assert(self@.active =~= before.active);
            assert forall|k: int| 0 <= k < self@.idle.len() implies #[trigger] self@.idle[k]
                == before.idle[if k < i {
                k
            } else {
                k + 1
            }] by {}
        }
        worker
    }

    /// Finds a worker for a request. The worker is no longer idle then: it has to be given the
    /// request.
    pub fn get_worker(
        &mut self,
        request: &Request,
        state: &SchedulerStateSnapshot,
        reuse_http_action_contexts: bool,
        now: Moment,
        log: &mut MetricLog,
    ) -> (selected: Result<WorkerSelection, RejectedBeforeExecutionReason>)
        requires
            old(self).wf(),
            request.wf(),
        ensures
            final(self).wf(),
            final(self).pool() == old(self).pool(),
            final(self).lane_enabled() == old(self).lane_enabled(),
            match rejection_of(
                state.eligibility(
                    request.properties(old(self).lane_enabled()),
                    request.client_id@,
                ),
            ) {
                Some(reason) => {
                    &&& selected == Err::<WorkerSelection, _>(reason)
                    &&& final(self)@ == old(self)@
                    &&& final(log)@ == old(log)@
                },
                None => match selected {
                    Ok(selection) => exists|shown: Seq<UpdateView>|
                        #![trigger old(log)@ + shown]
                        old(self)@.is_selection(
                            request.client_id@,
                            request.context_kind(reuse_http_action_contexts),
                            request.module_view(),
                            now@,
                            selection,
                            final(self)@,
                            shown,
                        ) && final(log)@ == old(log)@ + shown,
                    Err(reason) => {
                        &&& reason == RejectedBeforeExecutionReason::WorkerPoolOverloaded
                        &&& old(self)@.has_no_worker()
                        &&& final(self)@ == old(self)@
                        &&& final(log)@ == old(log)@
                    },
                },
            },
    {
        let ghost before = self@;
        let client_id = request.client_id.as_str();
        let properties = request.scheduling_properties(self.control_plane_lane_enabled);
        let eligibility = state.request_eligibility(properties, client_id);
        if let Some(reason) = worker_rejection_reason(eligibility) {
            return Err(reason);
        }
        let kind = request.reusable_context_kind(reuse_http_action_contexts);
        let ghost module = request.module_view();
        proof {
            lemma_first_serving(before.idle, client_id@, kind, module, 0);
            lemma_first_empty(before.idle, client_id@, 0);
            assert(log@ =~= old(log)@ + Seq::<UpdateView>::empty());
        }
        let own = match self.serving_position(client_id, kind, request) {
            Some(i) => Some((i, SchedulerContextAffinityOutcome::Hit)),
            None => {
                if kind.is_some() {
                    match self.empty_position(client_id) {
                        Some(i) => Some((i, SchedulerContextAffinityOutcome::EmptyWorker)),
                        None => None,
                    }
                } else {
                    None
                }
            },
        };
        if let Some((i, outcome)) = own {
            let worker = self.take_idle(i);
            let selection = WorkerSelection {
                worker_id: worker.worker_id,
                context_affinity: with_outcome(kind, outcome),
            };
            assert(before.is_selection(
                client_id@,
                kind,
                module,
                now@,
                selection,
                self@,
                Seq::empty(),
            ));
            return Ok(selection);
        }
        if self.workers < self.limits.max_workers {
            let worker_id: usize = self.workers;
            self.workers = self.workers + 1;
            let selection = WorkerSelection {
                worker_id,
                context_affinity: with_outcome(kind, SchedulerContextAffinityOutcome::NewWorker),
            };
            assert(self@.idle =~= before.idle);
            assert(self@.active =~= before.active);
            assert(before.is_selection(
                client_id@,
                kind,
                module,
                now@,
                selection,
                self@,
                Seq::empty(),
            ));
            return Ok(selection);
        }
        let position: usize = match self.stealable_position() {
            Some(position) => position,
            None => {
                return Err(RejectedBeforeExecutionReason::WorkerPoolOverloaded);
            },
        };
        let worker = self.take_idle(position);
        let age = now.saturating_duration_since(worker.last_used_ts);
        log_worker_stolen(log, age);
        let selection = WorkerSelection {
            worker_id: worker.worker_id,
            context_affinity: with_outcome(kind, SchedulerContextAffinityOutcome::StolenWorker),
        };
        proof {
            let shown = seq![stolen_update(elapsed_since(now@, worker@.last_used))];
            assert(log@ =~= old(log)@ + shown);
            assert(can_be_stolen(before.idle, position as int));
            assert(before.is_selection(client_id@, kind, module, now@, selection, self@, shown));
        }
        Ok(selection)
    }

    /// Takes notice that a worker took a request.
    pub fn record_dispatch(
        &mut self,
        client_id: String,
        scheduling_properties: RequestSchedulingProperties,
        selection: WorkerSelection,
        dispatch_sojourn: Option<(IsolateQueueLane, Duration)>,
        dependency_reserve_dispatch: bool,
        log: &mut MetricLog,
    )
        requires
            old(self).wf(),
            scheduling_properties.consistent(),
            selection.worker_id < old(self)@.workers,
            !old(self)@.is_idle(selection.worker_id as nat),
            !old(self)@.is_active(selection.worker_id as nat),
            old(self)@.active.len() < old(self)@.limits.max_workers,
        ensures
            final(self).wf(),
            final(self).pool() == old(self).pool(),
            final(self).lane_enabled() == old(self).lane_enabled(),
            final(self)@ == (SchedulerModel {
                active: old(self)@.active.push(
                    ActiveModel {
                        worker_id: selection.worker_id as nat,
                        client: client_id@,
                        properties: scheduling_properties,
                    },
                ),
                ..old(self)@
            }),
            final(self)@ == old(self)@.dispatched(
                selection.worker_id as nat,
                client_id@,
                scheduling_properties,
            ),
            final(log)@ == old(log)@ + dispatch_updates(
                old(self).pool(),
                client_id@,
                scheduling_properties,
                selection.context_affinity,
                dispatch_sojourn,
                client_active(final(self)@.active, client_id@).0,
                dependency_reserve_dispatch,
            ),
    {
        let ghost before = self@;
        let ghost client = client_id@;
        let ghost worker = ActiveModel {
            worker_id: selection.worker_id as nat,
            client,
            properties: scheduling_properties,
        };
        proof {
            lemma_active_bounds(before.active, client);
            lemma_active_push(before.active, worker, client);
        }
        if let Some((context_kind, outcome)) = selection.context_affinity {
            log_scheduler_context_affinity(log, self.pool_name, context_kind, outcome);
        }
        if let Some((lane, sojourn)) = dispatch_sojourn {
            log_isolate_queue_sojourn(log, self.pool_name, lane.as_label(), sojourn);
        }
        assert(self.in_progress_counts_by_client@.dom().contains(client) == (client_active(
            before.active,
            client,
        ).0 > 0));
        let mut counts: ActiveRequestCounts = match self.in_progress_counts_by_client.get(
            client_id.as_str(),
        ) {
            Some(counts) => *counts,
            None => ActiveRequestCounts::default(),
        };
        assert(counts == client_counts(before.active, client));
        counts.increment(scheduling_properties);
        self.in_progress_counts.increment(scheduling_properties);
        let _ = self.in_progress_counts_by_client.insert(client_id.clone(), counts);
        log_pool_running_count(log, self.pool_name, counts.total, client_id.as_str());
        log_scheduler_request_dispatched(log, self.pool_name, scheduling_properties.as_label());
        if dependency_reserve_dispatch {
            log_scheduler_dependency_reserve_dispatch(log, self.pool_name);
        }
        self.in_progress_workers.push(
            ActiveWorkerState { worker_id: selection.worker_id, client_id, scheduling_properties },
        );
        proof {
            assert(self@.active =~= before.active.push(worker));
            assert(self@.idle =~= before.idle);
            assert forall|other: Seq<char>|
                #![trigger self.in_progress_counts_by_client@.dom().contains(other)]
                self.in_progress_counts_by_client@.dom().contains(other) == (client_active(
                    self@.active,
                    other,
                ).0 > 0) by {
                lemma_active_push(before.active, worker, other);
                lemma_active_bounds(before.active, other);
                assert(old(self).in_progress_counts_by_client@.dom().contains(other) == (
                client_active(before.active, other).0 > 0));
            }
            assert forall|other: Seq<char>|
                #![trigger self.in_progress_counts_by_client@[other]]
                self.in_progress_counts_by_client@.dom().contains(
                    other,
                ) implies self.in_progress_counts_by_client@[other] == client_counts(
                self@.active,
                other,
            ) by {
                lemma_active_push(before.active, worker, other);
                if other != client {
                    assert(old(self).in_progress_counts_by_client@.dom().contains(other));
                    assert(old(self).in_progress_counts_by_client@[other] == client_counts(
                        before.active,
                        other,
                    ));
                }
            }
            assert(self@.in_order()) by {
                assert forall|i: int, j: int|
                    0 <= i < j < self@.active.len() implies (#[trigger] self@.active[i]).worker_id
                    != (#[trigger] self@.active[j]).worker_id by {
                    if j == before.active.len() {
                        assert(before.active[i].worker_id != worker.worker_id);
                    }
                }
                assert forall|i: int, j: int|
                    0 <= i < self@.idle.len() && 0 <= j < self@.active.len() implies (
                #[trigger] self@.idle[i]).worker_id != (#[trigger] self@.active[j]).worker_id by {
                    if j == before.active.len() {
                        assert(before.idle[i].worker_id != worker.worker_id);
                    }
                }
            }
            assert(log@ =~= old(log)@ + dispatch_updates(
                old(self).pool(),
                client,
                scheduling_properties,
                selection.context_affinity,
                dispatch_sojourn,
                client_active(self@.active, client).0,
                dependency_reserve_dispatch,
            ));
        }
    }
}

/// How a worker was found, for a request that reuses contexts.
fn with_outcome(
    kind: Option<ReusableContextKind>,
    outcome: SchedulerContextAffinityOutcome,
) -> (shown: Option<(ReusableContextKind, SchedulerContextAffinityOutcome)>)
    ensures
        shown == affinity(kind, outcome),
{
    match kind {
        Some(kind) => Some((kind, outcome)),
        None => None,
    }
}

/// The limits of a scheduler.
pub open spec fn limits_of(
    max_workers: usize,
    base_worker_capacity: usize,
    max_independent_actions: usize,
    max_percent_per_client: usize,
) -> SchedulerLimits {
    let per_client = client_capacity(max_workers as int, max_percent_per_client as int);
    let reserve = max_workers - base_worker_capacity;
    let spare = if per_client > 0 {
        per_client - 1
    } else {
        0
    };
    SchedulerLimits {
        max_workers,
        base_worker_capacity,
        max_independent_actions,
        max_workers_per_client: per_client as usize,
        base_workers_per_client: (per_client - if reserve < spare {
            reserve
        } else {
            spare
        }) as usize,
    }
}

impl SharedIsolateScheduler {
    /// Takes notice that a worker has served its request: it is idle again, in front of all others.
    pub fn handle_completed_worker(
        &mut self,
        worker_id: usize,
        cached_contexts: CachedContexts,
        now: Moment,
        log: &mut MetricLog,
    )
        requires
            old(self).wf(),
            old(self)@.is_active(worker_id as nat),
        ensures
            final(self).wf(),
            final(self).pool() == old(self).pool(),
            final(self).lane_enabled() == old(self).lane_enabled(),
            exists|i: int|
                #![trigger old(self)@.active[i]]
                0 <= i < old(self)@.active.len() && old(self)@.active[i].worker_id == worker_id
                    && final(self)@ == old(self)@.completed(i, now@, cached_contexts@)
                    && final(log)@ == old(log)@.push(
                    running_update(
                        old(self).pool(),
                        client_active(final(self)@.active, old(self)@.active[i].client).0,
                        old(self)@.active[i].client,
                    ),
                ),
    {
        let ghost before = self@;
        let mut i: usize = 0;
        while i < self.in_progress_workers.len() && self.in_progress_workers[i].worker_id
            != worker_id
            invariant
                i <= self.in_progress_workers.len(),
                *self == *old(self),
                before == self@,
                forall|k: int| 0 <= k < i ==> (#[trigger] before.active[k]).worker_id != worker_id,
            decreases self.in_progress_workers.len() - i,
        {
            assert(before.active[i as int] == self.in_progress_workers@[i as int]@);
            i = i + 1;
        }
        proof {
            if i >= self.in_progress_workers.len() {
                let k = choose|k: int|
                    0 <= k < before.active.len() && (#[trigger] before.active[k]).worker_id
                        == worker_id;
                assert(before.active[k].worker_id != worker_id);
            }
        }
        let completed = self.in_progress_workers.remove(i);
        let ghost client = completed.client_id@;
        proof {
            assert(completed@ == before.active[i as int]);
            lemma_active_remove(before.active, i as int, client);
            lemma_active_bounds(before.active.remove(i as int), client);
            lemma_active_bounds(before.active, client);
            assert(self.in_progress_counts_by_client@.dom().contains(client) == (client_active(
                before.active,
                client,
            ).0 > 0));
            assert(self.in_progress_counts_by_client@[client] == client_counts(
                before.active,
                client,
            ));
        }
        let mut new_count: usize = 0;
        if let Some(counts) = self.in_progress_counts_by_client.remove(
            completed.client_id.as_str(),
        ) {
            let mut counts = counts;
            counts.decrement(completed.scheduling_properties);
            new_count = counts.total;
            if !counts.is_empty() {
                let _ = self.in_progress_counts_by_client.insert(
                    completed.client_id.clone(),
                    counts,
                );
            }
        }
        self.in_progress_counts.decrement(completed.scheduling_properties);
        log_pool_running_count(log, self.pool_name, new_count, completed.client_id.as_str());
        self.available_workers.push_front(
            IdleWorkerState {
                worker_id: completed.worker_id,
                client_id: completed.client_id,
                last_used_ts: now,
                cached_contexts,
            },
        );
        proof {
            let after = before.completed(i as int, now@, cached_contexts@);
            assert(self@.active =~= after.active);
            assert(self@.idle =~= after.idle);
            assert forall|other: Seq<char>|
                #![trigger self.in_progress_counts_by_client@.dom().contains(other)]
                self.in_progress_counts_by_client@.dom().contains(other) == (client_active(
                    self@.active,
                    other,
                ).0 > 0) by {
                lemma_active_remove(before.active, i as int, other);
                lemma_active_bounds(self@.active, other);
                assert(old(self).in_progress_counts_by_client@.dom().contains(other) == (
                client_active(before.active, other).0 > 0));
            }
            assert forall|other: Seq<char>|
                #![trigger self.in_progress_counts_by_client@[other]]
                self.in_progress_counts_by_client@.dom().contains(
                    other,
                ) implies self.in_progress_counts_by_client@[other] == client_counts(
                self@.active,
                other,
            ) by {
                lemma_active_remove(before.active, i as int, other);
                lemma_active_bounds(self@.active, other);
                if other != client {
                    assert(old(self).in_progress_counts_by_client@.dom().contains(other));
                    assert(old(self).in_progress_counts_by_client@[other] == client_counts(
                        before.active,
                        other,
                    ));
                }
            }
            lemma_completed_in_order(before, i as int, now@, cached_contexts@);
            assert(before.active[i as int].worker_id == worker_id);
        }
    }
}

impl SchedulerModel {
    /// The scheduler after a worker took a request.
    pub open spec fn dispatched(
        self,
        worker_id: nat,
        client: Seq<char>,
        properties: RequestSchedulingProperties,
    ) -> SchedulerModel {
        SchedulerModel {
            active: self.active.push(ActiveModel { worker_id, client, properties }),
            ..self
        }
    }
}

impl SchedulerModel {
    /// The scheduler after the active worker at `i` has served its request.
    pub open spec fn completed(self, i: int, now: nat, contexts: Seq<KeyName>) -> SchedulerModel {
        SchedulerModel {
            idle: seq![
                IdleModel {
                    worker_id: self.active[i].worker_id,
                    client: self.active[i].client,
                    last_used: now,
                    contexts,
                },
            ] + self.idle,
            active: self.active.remove(i),
            ..self
        }
    }
}

impl SchedulerModel {
    /// The scheduler once the contexts of an idle worker are others than those that it knew.
    pub open spec fn with_contexts(self, worker: nat, contexts: Seq<KeyName>) -> SchedulerModel {
        SchedulerModel {
            idle: self.idle.map_values(
                |idle: IdleModel|
                    if idle.worker_id == worker {
                        IdleModel { contexts, ..idle }
                    } else {
                        idle
                    },
            ),
            ..self
        }
    }
}

impl SharedIsolateScheduler {
    /// Takes notice that the contexts of a worker changed while it had no work, as they do when it
    /// makes its isolate anew. Of a worker that is not idle nothing is kept: it shows its contexts
    /// once it is done with its request.
    pub fn contexts_changed(&mut self, worker_id: usize, contexts: CachedContexts)
        requires
            old(self).wf(),
        ensures
            final(self).wf(),
            final(self).pool() == old(self).pool(),
            final(self).lane_enabled() == old(self).lane_enabled(),
            final(self)@ == old(self)@.with_contexts(worker_id as nat, contexts@),
    {
        let ghost before = self@;
        let ghost after = before.with_contexts(worker_id as nat, contexts@);
        let mut i: usize = 0;
        while i < self.available_workers.len() && self.available_workers[i].worker_id != worker_id
            invariant
                i <= self.available_workers.len(),
                *self == *old(self),
                before == self@,
                forall|k: int| 0 <= k < i ==> (#[trigger] before.idle[k]).worker_id != worker_id,
            decreases self.available_workers.len() - i,
        {
            assert(before.idle[i as int] == self.available_workers@[i as int]@);
            i = i + 1;
        }
        if i < self.available_workers.len() {
            assert(before.idle[i as int] == self.available_workers@[i as int]@);
            if let Some(worker) = self.available_workers.remove(i) {
                self.available_workers.insert(
                    i,
                    IdleWorkerState {
                        worker_id: worker.worker_id,
                        client_id: worker.client_id,
                        last_used_ts: worker.last_used_ts,
                        cached_contexts: contexts,
                    },
                );
            }
        }
        proof {
            assert(self@.idle =~= after.idle);
            assert(self@.active =~= before.active);
            lemma_contexts_in_order(before, worker_id as nat, contexts@);
        }
    }
}

proof fn lemma_contexts_in_order(before: SchedulerModel, worker: nat, contexts: Seq<KeyName>)
    requires
        before.in_order(),
    ensures
        before.with_contexts(worker, contexts).in_order(),
{
    let after = before.with_contexts(worker, contexts);
    assert forall|k: int| 0 <= k < after.idle.len() implies (#[trigger] after.idle[k]).worker_id
        == before.idle[k].worker_id by {}
}

/// A worker that made its isolate anew shows the scheduler no context of the old one: once the
/// scheduler took notice, the worker shows none at all, is not chosen for a context that it has,
/// and can be chosen as a worker without contexts. Nothing else changes.
pub proof fn destroyed_contexts_are_not_shown(
    before: SchedulerModel,
    worker: nat,
    client: Seq<char>,
    kind: Option<ReusableContextKind>,
    module: Option<ModulePathView>,
)
    requires
        before.in_order(),
    ensures
        ({
            let after = before.with_contexts(worker, Seq::empty());
            &&& after.in_order()
            &&& after.idle.len() == before.idle.len()
            &&& forall|i: int|
                #![trigger after.idle[i]]
                0 <= i < after.idle.len() ==> if before.idle[i].worker_id == worker {
                    after.idle[i] == (IdleModel { contexts: Seq::empty(), ..before.idle[i] })
                } else {
                    after.idle[i] == before.idle[i]
                }
            &&& after == SchedulerModel { idle: after.idle, ..before }
            &&& !before.is_idle(worker) ==> after == before
            &&& after.own_worker(client, kind, module) matches Some((i, outcome)) ==> (outcome
                == SchedulerContextAffinityOutcome::Hit ==> after.idle[i].worker_id != worker)
            &&& kind is Some && (exists|i: int|
                0 <= i < before.idle.len() && (#[trigger] before.idle[i]).worker_id == worker
                    && before.idle[i].client == client) ==> after.own_worker(
                client,
                kind,
                module,
            ) is Some
        }),
{
    let after = before.with_contexts(worker, Seq::empty());
    lemma_contexts_in_order(before, worker, Seq::empty());
    lemma_first_serving(after.idle, client, kind, module, 0);
    if !before.is_idle(worker) {
        assert(after.idle =~= before.idle);
    }
    if exists|i: int|
        0 <= i < before.idle.len() && (#[trigger] before.idle[i]).worker_id == worker
            && before.idle[i].client == client {
        let i = choose|i: int|
            0 <= i < before.idle.len() && (#[trigger] before.idle[i]).worker_id == worker
                && before.idle[i].client == client;
        assert(after.idle[i].client == client && after.idle[i].contexts.len() == 0);
        lemma_empty_is_found(after.idle, client, 0, i);
    }
}

proof fn lemma_empty_is_found(idle: Seq<IdleModel>, client: Seq<char>, i: int, at: int)
    requires
        0 <= i <= at < idle.len(),
        idle[at].client == client,
        idle[at].contexts.len() == 0,
    ensures
        first_empty(idle, client, i) is Some,
    decreases at - i,
{
    if i < at {
        lemma_empty_is_found(idle, client, i + 1, at);
    }
}

proof fn lemma_completed_in_order(
    before: SchedulerModel,
    i: int,
    now: nat,
    contexts: Seq<KeyName>,
)
    requires
        before.in_order(),
        0 <= i < before.active.len(),
    ensures
        before.completed(i, now, contexts).in_order(),
{
    let after = before.completed(i, now, contexts);
    let id = before.active[i].worker_id;
    assert forall|k: int| 0 <= k < after.active.len() implies (#[trigger] after.active[k]).worker_id
        < after.workers && after.active[k].worker_id != id by {
        if k < i {
            assert(after.active[k] == before.active[k]);
        } else {
            assert(after.active[k] == before.active[k + 1]);
        }
    }
    assert forall|k: int| 0 <= k < after.idle.len() implies (#[trigger] after.idle[k]).worker_id
        < after.workers by {
        if k > 0 {
            assert(after.idle[k] == before.idle[k - 1]);
        }
    }
    assert forall|a: int, b: int| 0 <= a < b < after.idle.len() implies (
    #[trigger] after.idle[a]).worker_id != (#[trigger] after.idle[b]).worker_id by {
        assert(after.idle[b] == before.idle[b - 1]);
        if a > 0 {
            assert(after.idle[a] == before.idle[a - 1]);
        }
    }
    assert forall|a: int, b: int| 0 <= a < b < after.active.len() implies (
    #[trigger] after.active[a]).worker_id != (#[trigger] after.active[b]).worker_id by {
        let x = if a < i {
            a
        } else {
            a + 1
        };
        let y = if b < i {
            b
        } else {
            b + 1
        };
        assert(after.active[a] == before.active[x] && after.active[b] == before.active[y]);
    }
    assert forall|a: int, b: int| 0 <= a < after.idle.len() && 0 <= b
        < after.active.len() implies (#[trigger] after.idle[a]).worker_id != (
    #[trigger] after.active[b]).worker_id by {
        let y = if b < i {
            b
        } else {
            b + 1
        };
        assert(after.active[b] == before.active[y]);
        if a > 0 {
            assert(after.idle[a] == before.idle[a - 1]);
        }
    }
}

/// Whatever is done with a scheduler, a worker has at most one request, no worker is both idle and
/// active, and there are no more workers, and no more requests served, than allowed.
pub proof fn scheduler_stays_in_order(scheduler: SharedIsolateScheduler)
    requires
        scheduler.wf(),
    ensures
        scheduler@.in_order(),
{
}

/// A worker that is chosen for a request serves no other request, and is no longer idle.
pub proof fn chosen_workers_are_free(
    before: SchedulerModel,
    client: Seq<char>,
    kind: Option<ReusableContextKind>,
    module: Option<ModulePathView>,
    now: nat,
    selection: WorkerSelection,
    after: SchedulerModel,
    shown: Seq<UpdateView>,
)
    requires
        before.in_order(),
        before.is_selection(client, kind, module, now, selection, after, shown),
    ensures
        after.in_order(),
        selection.worker_id < after.workers,
        !after.is_idle(selection.worker_id as nat),
        !after.is_active(selection.worker_id as nat),
        after.active == before.active,
        after.limits == before.limits,
{
    lemma_first_serving(before.idle, client, kind, module, 0);
    lemma_first_empty(before.idle, client, 0);
    let id = selection.worker_id as nat;
    match before.own_worker(client, kind, module) {
        Some((i, _)) => {
            lemma_taken_in_order(before, i);
        },
        None => if before.workers < before.limits.max_workers {
        } else {
            let i = choose|i: int| #[trigger]
                can_be_stolen(before.idle, i) && selection.worker_id == before.idle[i].worker_id
                    && after == before.without_idle(i);
            lemma_taken_in_order(before, i);
        },
    }
}

proof fn lemma_taken_in_order(before: SchedulerModel, i: int)
    requires
        before.in_order(),
        0 <= i < before.idle.len(),
    ensures
        before.without_idle(i).in_order(),
        !before.without_idle(i).is_idle(before.idle[i].worker_id),
        !before.without_idle(i).is_active(before.idle[i].worker_id),
{
    let after = before.without_idle(i);
    assert forall|k: int| 0 <= k < after.idle.len() implies (#[trigger] after.idle[k]).worker_id
        < after.workers && after.idle[k].worker_id != before.idle[i].worker_id by {
        if k < i {
            assert(after.idle[k] == before.idle[k]);
        } else {
            assert(after.idle[k] == before.idle[k + 1]);
        }
    }
    assert forall|a: int, b: int| 0 <= a < b < after.idle.len() implies (
    #[trigger] after.idle[a]).worker_id != (#[trigger] after.idle[b]).worker_id by {
        let x = if a < i {
            a
        } else {
            a + 1
        };
        let y = if b < i {
            b
        } else {
            b + 1
        };
        assert(after.idle[a] == before.idle[x] && after.idle[b] == before.idle[y]);
    }
    assert forall|a: int, b: int| 0 <= a < after.idle.len() && 0 <= b
        < after.active.len() implies (#[trigger] after.idle[a]).worker_id != (
    #[trigger] after.active[b]).worker_id by {
        let x = if a < i {
            a
        } else {
            a + 1
        };
        assert(after.idle[a] == before.idle[x]);
    }
    assert forall|k: int| 0 <= k < after.active.len() implies (#[trigger] after.active[k]).worker_id
        != before.idle[i].worker_id by {
        assert(before.active[k].worker_id != before.idle[i].worker_id);
    }
}

/// A request that may start while the scheduler is in order always finds a worker, as long as every
/// worker is idle or active.
pub proof fn eligible_requests_find_workers(
    scheduler: SchedulerModel,
    properties: RequestSchedulingProperties,
    client: Seq<char>,
)
    requires
        scheduler.in_order(),
        scheduler.idle.len() + scheduler.active.len() == scheduler.workers,
        scheduler.eligibility(properties, client).can_start(),
    ensures
        !scheduler.has_no_worker(),
{
    lemma_active_bounds(scheduler.active, client);
}

/// The worker that is taken from its client was used least lately of all, as long as workers became
/// idle in the order of their last use.
pub proof fn least_recently_used_workers_are_stolen(idle: Seq<IdleModel>, i: int, k: int)
    requires
        can_be_stolen(idle, i),
        0 <= k < idle.len(),
        forall|a: int, b: int|
            0 <= a < b < idle.len() ==> (#[trigger] idle[a]).last_used >= (
            #[trigger] idle[b]).last_used,
    ensures
        idle[i].last_used <= idle[k].last_used,
{
    let last = lemma_last_of_client(idle, k, idle.len() - 1);
    assert(is_last_of_client(idle, last));
}

proof fn lemma_last_of_client(idle: Seq<IdleModel>, k: int, n: int) -> (last: int)
    requires
        0 <= k <= n < idle.len(),
        forall|j: int| n < j < idle.len() ==> (#[trigger] idle[j]).client != idle[k].client,
    ensures
        k <= last < idle.len(),
        idle[last].client == idle[k].client,
        is_last_of_client(idle, last),
    decreases n - k,
{
    if idle[n].client == idle[k].client {
        n
    } else {
        lemma_last_of_client(idle, k, n - 1)
    }
}

/// A worker that is chosen among those of the client is one of the idle ones.
pub proof fn own_workers_are_idle(
    scheduler: SchedulerModel,
    client: Seq<char>,
    kind: Option<ReusableContextKind>,
    module: Option<ModulePathView>,
)
    ensures
        scheduler.own_worker(client, kind, module) matches Some((i, _)) ==> 0 <= i
            < scheduler.idle.len() && scheduler.idle[i].client == client,
{
    lemma_first_serving(scheduler.idle, client, kind, module, 0);
    lemma_first_empty(scheduler.idle, client, 0);
}

impl SharedIsolateScheduler {
    pub fn control_plane_lane_enabled(&self) -> (enabled: bool)
        ensures
            enabled == self.lane_enabled(),
    {
        self.control_plane_lane_enabled
    }

    /// Whether a worker serves a request.
    pub fn is_active(&self, worker_id: usize) -> (active: bool)
        ensures
            active == self@.is_active(worker_id as nat),
    {
        let mut i: usize = 0;
        while i < self.in_progress_workers.len()
            invariant
                i <= self.in_progress_workers.len(),
                forall|k: int|
                    0 <= k < i ==> (#[trigger] self@.active[k]).worker_id != worker_id,
            decreases self.in_progress_workers.len() - i,
        {
            assert(self@.active[i as int] == self.in_progress_workers@[i as int]@);
            if self.in_progress_workers[i].worker_id == worker_id {
                return true;
            }
            i = i + 1;
        }
        false
    }

    /// How many workers serve requests.
    pub fn active_count(&self) -> (count: usize)
        ensures
            count == self@.active.len(),
    {
        self.in_progress_workers.len()
    }
}

/// Whether an idle worker of a client holds a context of a kind for a module.
pub open spec fn holds(
    worker: IdleModel,
    client: Seq<char>,
    kind: ReusableContextKind,
    module: ModulePathView,
) -> bool {
    worker.client == client && worker.contexts.contains(KeyName { kind, module })
}

proof fn lemma_first_serving_is_first(
    idle: Seq<IdleModel>,
    client: Seq<char>,
    kind: Option<ReusableContextKind>,
    module: Option<ModulePathView>,
    i: int,
)
    requires
        0 <= i,
    ensures
        match first_serving(idle, client, kind, module, i) {
            Some(at) => i <= at < idle.len() && serves(idle[at], client, kind, module)
                && forall|k: int| i <= k < at ==> !serves(#[trigger] idle[k], client, kind, module),
            None => forall|k: int|
                i <= k < idle.len() ==> !serves(#[trigger] idle[k], client, kind, module),
        },
    decreases idle.len() - i,
{
    if i < idle.len() && !serves(idle[i], client, kind, module) {
        lemma_first_serving_is_first(idle, client, kind, module, i + 1);
    }
}

proof fn lemma_first_empty_is_first(idle: Seq<IdleModel>, client: Seq<char>, i: int)
    requires
        0 <= i,
    ensures
        match first_empty(idle, client, i) {
            Some(at) => i <= at < idle.len() && idle[at].client == client && idle[at].contexts.len()
                == 0 && forall|k: int|
                i <= k < at ==> !((#[trigger] idle[k]).client == client && idle[k].contexts.len()
                    == 0),
            None => forall|k: int|
                i <= k < idle.len() ==> !((#[trigger] idle[k]).client == client
                    && idle[k].contexts.len() == 0),
        },
    decreases idle.len() - i,
{
    if i < idle.len() && !(idle[i].client == client && idle[i].contexts.len() == 0) {
        lemma_first_empty_is_first(idle, client, i + 1);
    }
}

/// A context that is held is used: if idle workers of the client hold a context for the request,
/// the one of them that worked last gets it, and that is the only way to a hit. A worker of the
/// client without contexts is chosen only if none holds one.
pub proof fn held_contexts_are_used(
    before: SchedulerModel,
    client: Seq<char>,
    kind: ReusableContextKind,
    module: ModulePathView,
    now: nat,
    selection: WorkerSelection,
    after: SchedulerModel,
    shown: Seq<UpdateView>,
)
    requires
        before.is_selection(client, Some(kind), Some(module), now, selection, after, shown),
    ensures
        (exists|i: int| 0 <= i < before.idle.len() && holds(#[trigger] before.idle[i], client, kind,
            module)) <==> selection.context_affinity == Some(
            (kind, SchedulerContextAffinityOutcome::Hit),
        ),
        selection.context_affinity == Some((kind, SchedulerContextAffinityOutcome::Hit)) ==> exists|
            i: int,
        |
            0 <= i < before.idle.len() && (#[trigger] before.idle[i]).worker_id
                == selection.worker_id && holds(before.idle[i], client, kind, module) && (forall|
                k: int,
            |
                0 <= k < i ==> !holds(#[trigger] before.idle[k], client, kind, module))
                && after.idle == before.idle.remove(i),
        selection.context_affinity == Some((kind, SchedulerContextAffinityOutcome::EmptyWorker))
            ==> forall|i: int|
            0 <= i < before.idle.len() ==> !holds(#[trigger] before.idle[i], client, kind, module),
{
    lemma_first_serving_is_first(before.idle, client, Some(kind), Some(module), 0);
    lemma_first_empty_is_first(before.idle, client, 0);
    assert forall|i: int| 0 <= i < before.idle.len() implies serves(
        #[trigger] before.idle[i],
        client,
        Some(kind),
        Some(module),
    ) == holds(before.idle[i], client, kind, module) by {}
    if let Some(i) = first_serving(before.idle, client, Some(kind), Some(module), 0) {
        assert(holds(before.idle[i], client, kind, module));
        assert(before.idle[i].worker_id == selection.worker_id);
        assert forall|k: int| 0 <= k < i implies !holds(
            #[trigger] before.idle[k],
            client,
            kind,
            module,
        ) by {
            assert(!serves(before.idle[k], client, Some(kind), Some(module)));
        }
    } else {
        assert forall|k: int| 0 <= k < before.idle.len() implies !holds(
            #[trigger] before.idle[k],
            client,
            kind,
            module,
        ) by {
            assert(!serves(before.idle[k], client, Some(kind), Some(module)));
        }
    }
}

/// A request that reuses contexts, none of which is held, goes to the worker of its client without
/// contexts that worked last, if there is one.
pub proof fn empty_workers_come_before_new_ones(
    before: SchedulerModel,
    client: Seq<char>,
    kind: ReusableContextKind,
    module: Option<ModulePathView>,
    now: nat,
    selection: WorkerSelection,
    after: SchedulerModel,
    shown: Seq<UpdateView>,
)
    requires
        before.is_selection(client, Some(kind), module, now, selection, after, shown),
        module matches Some(module) ==> forall|i: int|
            0 <= i < before.idle.len() ==> !holds(#[trigger] before.idle[i], client, kind, module),
    ensures
        (exists|i: int|
            0 <= i < before.idle.len() && (#[trigger] before.idle[i]).client == client
                && before.idle[i].contexts.len() == 0) <==> selection.context_affinity == Some(
            (kind, SchedulerContextAffinityOutcome::EmptyWorker),
        ),
        selection.context_affinity == Some((kind, SchedulerContextAffinityOutcome::EmptyWorker))
            ==> exists|i: int|
            0 <= i < before.idle.len() && (#[trigger] before.idle[i]).worker_id
                == selection.worker_id && before.idle[i].client == client
                && before.idle[i].contexts.len() == 0 && (forall|k: int|
                0 <= k < i ==> !((#[trigger] before.idle[k]).client == client
                    && before.idle[k].contexts.len() == 0)) && after.idle == before.idle.remove(i),
        selection.context_affinity != Some((kind, SchedulerContextAffinityOutcome::Hit)),
{
    lemma_first_serving_is_first(before.idle, client, Some(kind), module, 0);
    lemma_first_empty_is_first(before.idle, client, 0);
    if let Some(i) = first_serving(before.idle, client, Some(kind), module, 0) {
        assert(holds(before.idle[i], client, kind, module->0));
    }
    if let Some(i) = first_empty(before.idle, client, 0) {
        assert(before.idle[i].client == client && before.idle[i].contexts.len() == 0);
    }
}

/// A request that finds no worker of its client to its liking gets a new worker as long as there
/// may be more, and only then one that is taken from its client. A request that reuses no contexts
/// asks for none of the workers of its client.
pub proof fn workers_are_taken_only_when_all_are_there(
    before: SchedulerModel,
    client: Seq<char>,
    kind: Option<ReusableContextKind>,
    module: Option<ModulePathView>,
    now: nat,
    selection: WorkerSelection,
    after: SchedulerModel,
    shown: Seq<UpdateView>,
)
    requires
        before.in_order(),
        before.is_selection(client, kind, module, now, selection, after, shown),
        kind matches Some(kind) ==> (forall|i: int|
            0 <= i < before.idle.len() && (#[trigger] before.idle[i]).client == client
                ==> before.idle[i].contexts.len() > 0 && (module matches Some(module)
                ==> !before.idle[i].contexts.contains(KeyName { kind, module }))),
    ensures
        before.workers < before.limits.max_workers ==> {
            &&& selection.worker_id == before.workers
            &&& after == (SchedulerModel { workers: before.workers + 1, ..before })
            &&& shown.len() == 0
            &&& kind matches Some(kind) ==> selection.context_affinity == Some(
                (kind, SchedulerContextAffinityOutcome::NewWorker),
            )
        },
        before.workers >= before.limits.max_workers ==> {
            &&& after.workers == before.workers && after.active == before.active
            &&& kind matches Some(kind) ==> selection.context_affinity == Some(
                (kind, SchedulerContextAffinityOutcome::StolenWorker),
            )
            &&& exists|i: int|
                0 <= i < before.idle.len() && (#[trigger] before.idle[i]).worker_id
                    == selection.worker_id && after.idle == before.idle.remove(i)
        },
        kind is None ==> selection.context_affinity is None,
{
    lemma_first_serving_is_first(before.idle, client, kind, module, 0);
    lemma_first_empty_is_first(before.idle, client, 0);
    if before.workers >= before.limits.max_workers {
        let i = choose|i: int| #[trigger]
            can_be_stolen(before.idle, i) && selection.worker_id == before.idle[i].worker_id && after
                == before.without_idle(i);
        assert(before.idle[i].worker_id == selection.worker_id);
    }
}

/// Of the workers that are taken from their clients the one goes that worked least lately: none
/// that is idle worked before it, as long as workers became idle in the order of their last use.
pub proof fn the_longest_idle_worker_is_taken(
    before: SchedulerModel,
    client: Seq<char>,
    module: Option<ModulePathView>,
    now: nat,
    selection: WorkerSelection,
    after: SchedulerModel,
    shown: Seq<UpdateView>,
    k: int,
)
    requires
        before.is_selection(client, None, module, now, selection, after, shown),
        before.workers >= before.limits.max_workers,
        forall|a: int, b: int|
            0 <= a < b < before.idle.len() ==> (#[trigger] before.idle[a]).last_used >= (
            #[trigger] before.idle[b]).last_used,
        0 <= k < before.idle.len(),
    ensures
        exists|i: int|
            0 <= i < before.idle.len() && (#[trigger] before.idle[i]).worker_id
                == selection.worker_id && before.idle[i].last_used <= before.idle[k].last_used
                && shown == seq![
                stolen_update(
                    if now >= before.idle[i].last_used {
                        (now - before.idle[i].last_used) as nat
                    } else {
                        0
                    },
                ),
            ],
{
    lemma_first_serving_is_first(before.idle, client, None, module, 0);
    let i = choose|i: int| #[trigger]
        can_be_stolen(before.idle, i) && selection.worker_id == before.idle[i].worker_id && after
            == before.without_idle(i) && shown == seq![
            stolen_update(elapsed_since(now, before.idle[i].last_used)),
        ];
    least_recently_used_workers_are_stolen(before.idle, i, k);
    assert(before.idle[i].worker_id == selection.worker_id);
}

/// A request starts if and only if there is a worker for it, its client may use one more, and,
/// unless another request waits for it, the base has room for it and for its client; and an action
/// for which none waits also has to find room among the actions.
pub proof fn requests_start_within_the_limits(
    limits: SchedulerLimits,
    active: ActiveRequestCounts,
    client: ActiveRequestCounts,
    properties: RequestSchedulingProperties,
)
    ensures
        rejection_of(eligibility_of(limits, active, client, properties)) is None <==> {
            &&& active.total < limits.max_workers
            &&& client.total < limits.max_workers_per_client
            &&& properties.unblocks_ancestor || active.total < limits.base_worker_capacity
            &&& properties.unblocks_ancestor || client.total < limits.base_workers_per_client
            &&& properties.unblocks_ancestor || !properties.is_isolate_action
                || active.independent_actions < limits.max_independent_actions
        },
        eligibility_of(limits, active, client, properties).can_start() <==> rejection_of(
            eligibility_of(limits, active, client, properties),
        ) is None,
        rejection_of(eligibility_of(limits, active, client, properties)) == Some(
            RejectedBeforeExecutionReason::PerClientWorkerOverloaded,
        ) <==> client.total >= limits.max_workers_per_client || (!properties.unblocks_ancestor
            && client.total >= limits.base_workers_per_client),
{
}

/// What is counted for a client are the requests of that client that are served, and what is
/// counted in all are all of them.
pub proof fn counts_are_those_of_the_served_requests(active: Seq<ActiveModel>, client: Seq<char>)
    ensures
        client_active(active, client).0 == active.filter(
            |served: ActiveModel| served.client == client,
        ).len(),
        client_active(active, client).1 == active.filter(
            |served: ActiveModel|
                served.client == client && served.properties.is_isolate_action
                    && !served.properties.unblocks_ancestor,
        ).len(),
        actions_active(active) == active.filter(
            |served: ActiveModel|
                served.properties.is_isolate_action && !served.properties.unblocks_ancestor,
        ).len(),
    decreases active.len(),
{
    reveal(Seq::filter);
    if active.len() > 0 {
        counts_are_those_of_the_served_requests(active.drop_last(), client);
    }
}

/// A worker that is done is idle again, in front of all others, for the client that it served, and
/// shows the contexts that it kept; no other worker changes.
pub proof fn completed_workers_are_idle(
    before: SchedulerModel,
    i: int,
    now: nat,
    contexts: Seq<KeyName>,
)
    requires
        before.in_order(),
        0 <= i < before.active.len(),
    ensures
        ({
            let after = before.completed(i, now, contexts);
            &&& after.idle.len() == before.idle.len() + 1
            &&& after.idle[0] == (IdleModel {
                worker_id: before.active[i].worker_id,
                client: before.active[i].client,
                last_used: now,
                contexts,
            })
            &&& forall|k: int|
                0 <= k < before.idle.len() ==> after.idle[k + 1] == #[trigger] before.idle[k]
            &&& after.active == before.active.remove(i)
            &&& after.workers == before.workers && after.limits == before.limits
            &&& !after.is_active(before.active[i].worker_id)
        }),
{
    lemma_completed_in_order(before, i, now, contexts);
    let after = before.completed(i, now, contexts);
    assert forall|k: int| 0 <= k < after.active.len() implies (#[trigger] after.active[k]).worker_id
        != before.active[i].worker_id by {
        assert(after.idle[0].worker_id != after.active[k].worker_id);
    }
}

/// A request that a worker took counts for its client, and for no other, until the worker is done:
/// with it as many requests are served as before.
pub proof fn requests_count_while_they_are_served(
    before: SchedulerModel,
    worker_id: nat,
    client: Seq<char>,
    properties: RequestSchedulingProperties,
    other: Seq<char>,
    now: nat,
    contexts: Seq<KeyName>,
)
    requires
        properties.consistent(),
    ensures
        ({
            let taken = before.dispatched(worker_id, client, properties);
            let done = taken.completed(before.active.len() as int, now, contexts);
            &&& taken.is_active(worker_id)
            &&& taken.idle == before.idle && taken.workers == before.workers
            &&& client_active(taken.active, client).0 == client_active(before.active, client).0 + 1
            &&& other != client ==> client_active(taken.active, other) == client_active(
                before.active,
                other,
            )
            &&& actions_active(taken.active) - actions_active(before.active) == (
            if properties.is_isolate_action && !properties.unblocks_ancestor {
                1int
            } else {
                0int
            })
            &&& done.active == before.active
            &&& done.idle[0].worker_id == worker_id && done.idle[0].client == client
        }),
{
    let worker = ActiveModel { worker_id, client, properties };
    let taken = before.dispatched(worker_id, client, properties);
    lemma_active_push(before.active, worker, client);
    lemma_active_push(before.active, worker, other);
    assert(taken.active[before.active.len() as int] == worker);
    assert(taken.active.remove(before.active.len() as int) =~= before.active);
}

/// What a client may use beyond the base is no more than the reserve, and all of the reserve unless
/// the client would be left without a worker of the base; a client that may use a worker at all may
/// use one of the base.
pub proof fn clients_keep_a_worker_of_the_base(
    max_workers: usize,
    base_worker_capacity: usize,
    max_independent_actions: usize,
    max_percent_per_client: usize,
)
    requires
        base_worker_capacity <= max_workers,
    ensures
        ({
            let limits = limits_of(
                max_workers,
                base_worker_capacity,
                max_independent_actions,
                max_percent_per_client,
            );
            let reserve = limits.max_workers - limits.base_worker_capacity;
            let reserve_of_client = limits.max_workers_per_client - limits.base_workers_per_client;
            &&& limits.max_workers == max_workers
            &&& limits.base_worker_capacity == base_worker_capacity
            &&& limits.max_independent_actions == max_independent_actions
            &&& limits.max_workers_per_client <= max_workers
            &&& max_workers > 0 ==> limits.max_workers_per_client >= 1
                && limits.base_workers_per_client >= 1
            &&& 0 <= reserve_of_client <= reserve
            &&& limits.base_workers_per_client > 1 ==> reserve_of_client == reserve
            &&& max_workers * max_percent_per_client <= 100 * limits.max_workers_per_client
                || limits.max_workers_per_client == max_workers
            &&& limits.max_workers_per_client > 1 ==> 100 * (limits.max_workers_per_client - 1)
                < max_workers * max_percent_per_client
        }),
{
    let share = crate::isolate_limits::percent_of_workers(
        max_workers as int,
        max_percent_per_client as int,
    );
    assert(max_workers * max_percent_per_client >= 0) by (nonlinear_arith)
        requires
            max_workers >= 0,
            max_percent_per_client >= 0,
    ;
    assert(share >= 0);
    if max_percent_per_client >= 100 {
        assert(max_workers * max_percent_per_client >= max_workers * 100) by (nonlinear_arith)
            requires
                max_workers >= 0,
                max_percent_per_client >= 100,
        ;
    }
}

} // verus!

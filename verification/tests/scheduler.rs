use std::collections::HashMap;

use backend_runtime::component::{
    context_cache_key, ComponentId, ResolvedComponentFunctionPath,
};
use backend_runtime::context_cache::{CachedContexts, ReusableContextKey};
use backend_runtime::context_kind::{ReusableContextKind, SchedulerContextAffinityOutcome};
use backend_runtime::isolate_client::{
    aggregate_heap_stats, auth_config_error, check_app_definitions, check_nested_outcome,
    modules_to_analyze, nested_value_error, send_request, AnalyzedModules, AuthConfigError,
    ControlPlaneAttempts, FunctionOutcomeKind, ModuleConfig, ModuleEnvironment, ModuleError,
    SendRequestError,
};
use backend_runtime::isolate_limits::{
    legacy_output, legacy_send_error, legacy_uses_reserve, per_client_worker_capacity, validate_control_plane_lane_config, IsolateConfig,
    IsolateLimitError, IsolateSettings, LegacyQueueSendError,
};
use backend_runtime::isolate_queue::{
    IsolateQueueConfig, IsolateQueueEligibility, IsolateQueueLane, IsolateQueueRejection,
    IsolateQueueSendError,
};
use backend_runtime::isolate_queue_state::{new_isolate_queue, IsolateQueueState, ReceiveStep};
use backend_runtime::isolate_worker::{
    should_recreate_isolate, v8_flags, IsolateState, PeekStep, PrepareStep, WorkerLoop,
};
use backend_runtime::metric_log::MetricLog;
use backend_runtime::metrics::{IsolateHeapStats, RejectedBeforeExecutionReason, RejectionError};
use backend_runtime::request::{
    ActiveRequestCounts, Request, RequestSchedulingProperties, RequestType,
    SchedulerDependencyClass,
};
use backend_runtime::scheduler::{
    worker_rejection_reason, SchedulerStateSnapshot, SharedIsolateScheduler,
};
use backend_runtime::scheduler_loop::{
    external_permit_result, external_request, wait_for_external_permit, wait_for_internal_permit,
    ExternalPermitWaitOutcome,
    ExternalStep, InternalRequest, PendingInternal, PermitStep, RequestStep, SchedulerBranch,
    SchedulerLoop, SchedulerReadiness, SchedulerStop,
};
use backend_runtime::string_map::StringMap;
use backend_runtime::time::{Duration, Moment};

fn start() -> Moment {
    Moment::after_origin(Duration::from_secs(1_000))
}

fn at(millis: u64) -> Moment {
    start().plus(Duration::from_millis(millis))
}

fn properties(
    unblocks_ancestor: bool,
    can_block_on_descendant: bool,
    is_isolate_action: bool,
) -> RequestSchedulingProperties {
    RequestSchedulingProperties {
        unblocks_ancestor,
        can_block_on_descendant,
        is_isolate_action,
        is_control_plane: false,
    }
}

fn snapshot(
    global_active: ActiveRequestCounts,
    client_active: ActiveRequestCounts,
) -> SchedulerStateSnapshot {
    let mut in_progress_counts_by_client = StringMap::new();
    in_progress_counts_by_client.insert("deployment".to_string(), client_active);
    SchedulerStateSnapshot {
        in_progress_counts_by_client,
        active_counts: global_active,
        max_workers: 6,
        base_worker_capacity: 5,
        max_independent_actions: 3,
        max_workers_per_client: 6,
        base_workers_per_client: 5,
    }
}

fn function_path() -> ResolvedComponentFunctionPath {
    ResolvedComponentFunctionPath {
        component: ComponentId::Root,
        module: "test.js".to_string(),
        function_name: "default".to_string(),
    }
}

fn control_plane_request_types() -> Vec<RequestType> {
    vec![
        RequestType::Analyze,
        RequestType::EvaluateSchema,
        RequestType::EvaluateAuthConfig,
        RequestType::EvaluateAppDefinitions,
        RequestType::EvaluateComponentInitializer,
    ]
}

#[test]
fn dependency_and_descendant_capability_are_independent() {
    assert_eq!(properties(false, false, false).as_label(), "independent");
    assert_eq!(properties(false, true, false).as_label(), "descendant_holder");
    assert_eq!(properties(true, false, false).as_label(), "dependency");
    assert_eq!(properties(true, true, false).as_label(), "dependency_descendant_holder");
}

#[test]
fn exact_backend_control_plane_variants_use_the_lane_only_when_enabled() {
    let requests = control_plane_request_types();
    assert_eq!(requests.len(), 5);
    for inner in requests {
        assert!(inner.is_control_plane());
        let request = Request::new("deployment".to_string(), inner);
        let enabled = request.scheduling_properties(true);
        assert_eq!(enabled.queue_lane(), IsolateQueueLane::ControlPlane);
        assert_eq!(enabled.as_label(), "control_plane");
        assert!(!enabled.can_block_on_descendant);
        assert!(!enabled.is_isolate_action);

        let disabled = request.scheduling_properties(false);
        assert_eq!(disabled.queue_lane(), IsolateQueueLane::Ordinary);
        assert_eq!(disabled.as_label(), "independent");
    }
}

#[test]
fn enabled_control_plane_configuration_requires_lane_policy_and_bounded_values() {
    let validate = |enabled: bool,
                    capacity: usize,
                    max_age: Duration,
                    queue: usize,
                    delay_control: bool,
                    analyze: usize| {
        validate_control_plane_lane_config(
            enabled,
            capacity,
            max_age,
            queue,
            Duration::from_secs(5),
            delay_control,
            analyze,
        )
    };
    assert!(validate(true, 16, Duration::from_secs(30), 2000, true, 4).is_ok());
    assert!(validate(false, 1, Duration::from_millis(1), 1, false, 4).is_ok());
    assert_eq!(
        validate(false, 1, Duration::from_millis(1), 1, false, 0),
        Err(IsolateLimitError::NoAnalyzeConcurrency)
    );
    assert_eq!(
        validate(true, 16, Duration::from_secs(30), 2000, false, 4),
        Err(IsolateLimitError::LaneWithoutDelayControl)
    );
    assert_eq!(
        validate(true, 3, Duration::from_secs(30), 2000, true, 4),
        Err(IsolateLimitError::LaneSmallerThanAnalyzeConcurrency)
    );
    assert_eq!(
        validate(true, 2001, Duration::from_secs(30), 2000, true, 4),
        Err(IsolateLimitError::LaneLargerThanQueue)
    );
    assert_eq!(
        validate(true, 16, Duration::from_secs(5), 2000, true, 4),
        Err(IsolateLimitError::LaneMaxAgeTooSmall)
    );
}

#[test]
fn external_permit_notification_at_deadline_is_rejected() {
    let deadline = start().plus(Duration::from_secs(60));
    assert!(wait_for_external_permit::<u32>(false, false, None, start(), deadline).is_none());
    // The permit comes at the very moment of the deadline.
    assert!(matches!(
        wait_for_external_permit(false, false, Some(1), deadline, deadline),
        Some(ExternalPermitWaitOutcome::DeadlineElapsed)
    ));
    assert!(matches!(
        wait_for_external_permit(false, false, Some(1), at(59_999), deadline),
        Some(ExternalPermitWaitOutcome::Acquired(1))
    ));
}

#[test]
fn control_plane_uses_shared_base_and_not_action_or_dependency_reserve() {
    let active = ActiveRequestCounts { total: 5, independent_actions: 3 };
    let state = snapshot(active, active);
    let control_plane = RequestSchedulingProperties {
        unblocks_ancestor: false,
        can_block_on_descendant: false,
        is_isolate_action: false,
        is_control_plane: true,
    };
    assert_eq!(control_plane.queue_lane(), IsolateQueueLane::ControlPlane);
    assert!(!state.can_start_request(control_plane, "deployment"));
    assert!(state.can_start_request(properties(true, false, false), "deployment"));

    let mut counts = ActiveRequestCounts::default();
    counts.increment(control_plane);
    assert_eq!(counts.total, 1);
    assert_eq!(counts.independent_actions, 0);
}

#[test]
fn total_base_occupancy_preserves_dependency_overflow() {
    // Four dependencies and one root occupy all five shared base slots.
    let active = ActiveRequestCounts { total: 5, independent_actions: 0 };
    let state = snapshot(active, active);
    assert!(!state.can_start_request(properties(false, false, false), "deployment"));
    assert!(state.can_start_request(properties(true, false, false), "deployment"));
    assert!(state.dependency_dispatch_uses_reserve());
}

#[test]
fn dependencies_use_base_before_overflow() {
    let active = ActiveRequestCounts { total: 4, independent_actions: 0 };
    let state = snapshot(active, active);
    assert!(state.can_start_request(properties(false, false, false), "deployment"));
    assert!(state.can_start_request(properties(true, false, false), "deployment"));
    assert!(!state.dependency_dispatch_uses_reserve());
}

#[test]
fn total_capacity_blocks_every_request_class() {
    let active = ActiveRequestCounts { total: 6, independent_actions: 0 };
    let state = snapshot(active, active);
    assert!(!state.can_start_request(properties(false, false, false), "deployment"));
    assert!(!state.can_start_request(properties(true, false, false), "deployment"));
}

#[test]
fn stale_worker_recheck_distinguishes_global_and_per_client_overload() {
    assert!(matches!(
        worker_rejection_reason(IsolateQueueEligibility {
            physical_total: true,
            ..Default::default()
        }),
        Some(RejectedBeforeExecutionReason::WorkerPoolOverloaded)
    ));
    assert!(matches!(
        worker_rejection_reason(IsolateQueueEligibility {
            physical_total: true,
            per_client_total: true,
            ..Default::default()
        }),
        Some(RejectedBeforeExecutionReason::PerClientWorkerOverloaded)
    ));
    assert!(worker_rejection_reason(IsolateQueueEligibility::eligible()).is_none());
}

#[test]
fn per_client_capacity_handles_large_worker_totals_without_overflow() {
    assert_eq!(per_client_worker_capacity(usize::MAX, 50), usize::MAX.div_ceil(2));
    assert_eq!(per_client_worker_capacity(usize::MAX, 100), usize::MAX);
    assert_eq!(per_client_worker_capacity(usize::MAX, usize::MAX), usize::MAX);
}

#[test]
fn per_client_capacity_uses_total_occupancy() {
    let global = ActiveRequestCounts { total: 4, independent_actions: 0 };
    let client = ActiveRequestCounts { total: 2, independent_actions: 0 };
    let mut state = snapshot(global, client);
    state.base_workers_per_client = 2;
    state.max_workers_per_client = 3;
    assert!(!state.can_start_request(properties(false, false, false), "deployment"));
    assert!(state.can_start_request(properties(true, false, false), "deployment"));
    assert!(!state.dependency_dispatch_uses_reserve());

    let client_at_total = ActiveRequestCounts { total: 3, independent_actions: 0 };
    let mut state = snapshot(global, client_at_total);
    state.base_workers_per_client = 2;
    state.max_workers_per_client = 3;
    assert!(!state.can_start_request(properties(false, false, false), "deployment"));
    assert!(!state.can_start_request(properties(true, false, false), "deployment"));
}

#[test]
fn reusable_request_prefers_same_client_worker_without_reusable_context() {
    let mut log = MetricLog::new();
    let mut scheduler = SharedIsolateScheduler::new("scheduler_test", 1, 1, 1, 100, false);
    // One request makes a worker that is left without a context.
    let first = independent("deployment");
    let state = scheduler.state_snapshot();
    let selection = scheduler.get_worker(&first, &state, false, start(), &mut log).unwrap();
    scheduler.record_dispatch(
        "deployment".to_string(),
        first.scheduling_properties(false),
        selection,
        None,
        false,
        &mut log,
    );
    scheduler.handle_completed_worker(
        0,
        CachedContexts { saved_contexts: Vec::new() },
        start(),
        &mut log,
    );

    let request = Request::new(
        "deployment".to_string(),
        RequestType::Udf {
            path: function_path(),
            reuses_context: true,
            has_udf_callback: false,
        },
    );
    let state = scheduler.state_snapshot();
    let selection = scheduler
        .get_worker(&request, &state, false, start(), &mut log)
        .expect("same-client worker without a reusable context was not selected");
    assert_eq!(selection.worker_id, 0);
    assert_eq!(
        selection.context_affinity,
        Some((ReusableContextKind::DatabaseUdf, SchedulerContextAffinityOutcome::EmptyWorker))
    );
}

#[test]
fn action_cap_does_not_cap_queries_or_dependency_actions() {
    let active = ActiveRequestCounts { total: 3, independent_actions: 3 };
    let state = snapshot(active, active);
    assert!(!state.can_start_request(properties(false, true, true), "deployment"));
    assert!(state.can_start_request(properties(false, true, false), "deployment"));
    assert!(state.can_start_request(properties(true, true, true), "deployment"));
}

fn settings() -> IsolateSettings {
    IsolateSettings {
        max_isolate_workers: 8,
        queue_size: 100,
        dependency_worker_reserve: 2,
        max_action_workers: 0,
        delay_target: Duration::from_millis(10),
        delay_interval: Duration::from_millis(100),
        hard_max_age: Duration::from_secs(5),
        control_plane_hard_max_age: Duration::from_secs(30),
        control_plane_queue_capacity: 16,
        control_plane_lane_enabled: true,
        delay_control_enabled: true,
        analyze_concurrency: 4,
        active_threads: 0,
    }
}

#[test]
fn zero_workers_are_rejected_at_construction() {
    let zero = IsolateSettings { max_isolate_workers: 0, ..settings() };
    let error = zero.check().expect_err("zero-worker isolate client unexpectedly succeeded");
    assert_eq!(error, IsolateLimitError::NoWorkers);
    assert!(error.message().contains("greater than zero"));
}

#[test]
fn settings_are_turned_into_limits() {
    let limits = settings().check().unwrap();
    assert_eq!(limits.base_worker_capacity, 6);
    assert_eq!(limits.max_independent_actions, 6);
    assert!(limits.delay_control.is_some());
    assert_eq!(limits.active_threads, None);

    let limits = IsolateSettings { max_action_workers: 2, active_threads: 3, ..settings() }
        .check()
        .unwrap();
    assert_eq!(limits.max_independent_actions, 2);
    assert_eq!(limits.active_threads, Some(3));
    let chosen = IsolateConfig::or_default(None, &limits);
    assert_eq!(chosen.limiter, Some(3));
    let chosen = IsolateConfig::or_default(Some(IsolateConfig::new("own", None)), &limits);
    assert_eq!((chosen.name, chosen.limiter), ("own", None));
}

#[test]
fn each_bad_setting_has_its_own_error() {
    let check = |settings: IsolateSettings| settings.check().err();
    assert_eq!(
        check(IsolateSettings { queue_size: 0, ..settings() }),
        Some(IsolateLimitError::NoQueue)
    );
    assert_eq!(
        check(IsolateSettings { dependency_worker_reserve: 8, ..settings() }),
        Some(IsolateLimitError::ReserveTooLarge)
    );
    assert_eq!(
        check(IsolateSettings { queue_size: usize::MAX, ..settings() }),
        Some(IsolateLimitError::QueueOverflow)
    );
    assert_eq!(
        check(IsolateSettings { max_action_workers: 7, ..settings() }),
        Some(IsolateLimitError::TooManyActionWorkers)
    );
    assert!(matches!(
        check(IsolateSettings { delay_target: Duration::zero(), ..settings() }),
        Some(IsolateLimitError::Queue(_))
    ));
}

#[derive(Clone, Copy)]
enum TestRequestKind {
    Dependency,
    DependencyHolder,
    Independent,
    Action,
    ControlPlane,
}

fn independent(client_id: &str) -> Request {
    test_request(TestRequestKind::Independent, client_id)
}

fn test_request(kind: TestRequestKind, client_id: &str) -> Request {
    let udf = |has_udf_callback: bool| RequestType::Udf {
        path: function_path(),
        reuses_context: false,
        has_udf_callback,
    };
    let client_id = client_id.to_string();
    match kind {
        TestRequestKind::Dependency => Request::new_with_scheduler_dependency(
            client_id,
            udf(false),
            SchedulerDependencyClass::UnblocksAncestor,
        ),
        TestRequestKind::DependencyHolder => Request::new_with_scheduler_dependency(
            client_id,
            udf(true),
            SchedulerDependencyClass::UnblocksAncestor,
        ),
        TestRequestKind::Independent => Request::new(client_id, udf(false)),
        TestRequestKind::Action => {
            Request::new(client_id, RequestType::Action { path: function_path() })
        }
        TestRequestKind::ControlPlane => Request::new(client_id, RequestType::Analyze),
    }
}

/// A scheduler whose workers do nothing until they are told that they are done.
struct SchedulerHarness {
    queue: IsolateQueueState<(usize, Request)>,
    run: SchedulerLoop,
    internal: PendingInternal<usize>,
    control_plane_lane_enabled: bool,
    canceled: Vec<usize>,
    started: Vec<usize>,
    expired: Vec<(usize, RejectionError)>,
    workers: HashMap<usize, usize>,
    now: Moment,
    log: MetricLog,
}

impl SchedulerHarness {
    fn new(
        max_workers: usize,
        base_worker_capacity: usize,
        max_independent_actions: usize,
        max_percent_per_client: usize,
        queue_capacity: usize,
    ) -> Self {
        Self::new_with_policy(
            max_workers,
            base_worker_capacity,
            max_independent_actions,
            max_percent_per_client,
            queue_capacity,
            IsolateQueueConfig::new(
                Duration::from_secs(1),
                Duration::from_secs(10),
                Duration::from_secs(60),
                Duration::from_secs(90),
                queue_capacity,
            )
            .unwrap(),
            false,
        )
    }

    fn new_control_plane(
        max_workers: usize,
        base_worker_capacity: usize,
        max_independent_actions: usize,
        max_percent_per_client: usize,
        queue_capacity: usize,
    ) -> Self {
        let queue_config = IsolateQueueConfig::new(
            Duration::from_millis(10),
            Duration::from_millis(100),
            Duration::from_secs(1),
            Duration::from_secs(30),
            queue_capacity,
        )
        .unwrap();
        Self::new_with_policy(
            max_workers,
            base_worker_capacity,
            max_independent_actions,
            max_percent_per_client,
            queue_capacity,
            queue_config,
            true,
        )
    }

    fn new_with_policy(
        max_workers: usize,
        base_worker_capacity: usize,
        max_independent_actions: usize,
        max_percent_per_client: usize,
        queue_capacity: usize,
        queue_config: IsolateQueueConfig,
        control_plane_lane_enabled: bool,
    ) -> Self {
        let mut log = MetricLog::new();
        SchedulerHarness {
            queue: new_isolate_queue(
                "scheduler_test",
                start(),
                queue_capacity,
                max_workers - base_worker_capacity,
                queue_config,
                &mut log,
            ),
            run: SchedulerLoop::start(
                "scheduler_test",
                max_workers,
                base_worker_capacity,
                max_independent_actions,
                max_percent_per_client,
                control_plane_lane_enabled,
                true,
                &mut log,
            ),
            internal: PendingInternal::new(),
            control_plane_lane_enabled,
            canceled: Vec::new(),
            started: Vec::new(),
            expired: Vec::new(),
            workers: HashMap::new(),
            now: start(),
            log,
        }
    }

    fn enqueue_for(&mut self, id: usize, kind: TestRequestKind, client_id: &str) {
        let request = test_request(kind, client_id);
        let properties = request.scheduling_properties(self.control_plane_lane_enabled);
        let (sent, _) = send_request(
            &mut self.queue,
            (id, request),
            properties,
            self.now,
            "scheduler_test",
            &mut self.log,
        );
        assert!(sent.is_ok(), "test queue including dependency reserve is full");
    }

    fn enqueue(&mut self, id: usize, kind: TestRequestKind) {
        self.enqueue_for(id, kind, "deployment");
    }

    fn enqueue_internal(&mut self, id: usize, client_id: &str) {
        self.internal.push(InternalRequest {
            request: test_request(TestRequestKind::Dependency, client_id),
            payload: id,
        });
    }

    /// Hands a request that may run to a worker.
    fn dispatch(
        &mut self,
        id: usize,
        request: &Request,
        sojourn: Option<(IsolateQueueLane, Duration)>,
    ) {
        let closed = self.canceled.contains(&id);
        match self.run.request_ready(Some(request), closed, sojourn, false, self.now, &mut self.log)
        {
            RequestStep::Drop => assert!(closed),
            RequestStep::Reject(_) => panic!("an eligible request was rejected"),
            RequestStep::Send(worker) => {
                self.run.sent(true, &mut self.log);
                self.workers.insert(id, worker);
                self.started.push(id);
            }
            RequestStep::Stop(_) => panic!("the scheduler stopped"),
        }
    }

    /// Runs the scheduler until nothing more can be started.
    fn pump(&mut self) {
        loop {
            let state = self.run.state_snapshot();
            let lane_enabled = self.control_plane_lane_enabled;
            let canceled = self.canceled.clone();
            if let Some(selected) =
                self.internal.select(&|id: &usize| canceled.contains(id), &state, lane_enabled)
            {
                self.dispatch(selected.payload, &selected.request, None);
                continue;
            }
            let select = |item: &(usize, Request)| {
                state.request_eligibility(
                    item.1.scheduling_properties(lane_enabled),
                    &item.1.client_id,
                )
            };
            match self.queue.receive(self.now, &select, &mut self.log).0 {
                ReceiveStep::Ready(output) => {
                    let (id, request) = output.item;
                    let properties = request.scheduling_properties(lane_enabled);
                    match external_request(
                        properties,
                        output.rejection,
                        output.permit_deadline,
                        self.canceled.contains(&id),
                        "scheduler_test",
                        &mut self.log,
                    ) {
                        ExternalStep::Reject(error) => self.expired.push((id, error)),
                        ExternalStep::Drop => {}
                        ExternalStep::WaitForPermit(_) => {
                            self.dispatch(id, &request, output.dispatch_sojourn)
                        }
                    }
                }
                ReceiveStep::Closed | ReceiveStep::Wait(_) => return,
            }
        }
    }

    /// Runs the scheduler and says what it started.
    fn started(&mut self) -> Vec<usize> {
        self.pump();
        std::mem::take(&mut self.started)
    }

    fn complete(&mut self, id: usize) {
        let worker = self.workers.remove(&id).expect("request was not running");
        self.run.worker_completed(
            worker,
            Some(CachedContexts { saved_contexts: Vec::new() }),
            self.now,
            &mut self.log,
        );
    }
}

#[test]
fn congested_scheduler_preserves_worker_and_queue_dependency_reserves() {
    let mut harness = SchedulerHarness::new(3, 2, 1, 100, 2);
    harness.enqueue(1, TestRequestKind::Action);
    harness.enqueue(2, TestRequestKind::Independent);
    assert_eq!(harness.started(), vec![1, 2]);

    harness.enqueue(3, TestRequestKind::Independent);
    harness.enqueue(4, TestRequestKind::Independent);
    harness.enqueue(5, TestRequestKind::DependencyHolder);

    // Both shared base worker slots and both base queue slots are full. The dependency uses the
    // extra queue and worker capacities.
    assert_eq!(harness.started(), vec![5]);
    harness.complete(5);
    assert!(harness.started().is_empty());
    harness.complete(1);
    assert_eq!(harness.started(), vec![3]);
    harness.complete(3);
    assert_eq!(harness.started(), vec![4]);
    harness.complete(4);
    harness.complete(2);
    assert_eq!(harness.run.active_count(), 0);
}

#[test]
fn dependencies_use_shared_base_capacity() {
    let mut harness = SchedulerHarness::new(3, 2, 2, 100, 64);
    for id in 1..=3 {
        harness.enqueue(id, TestRequestKind::Dependency);
    }
    assert_eq!(harness.started(), vec![1, 2, 3]);
    for id in 1..=3 {
        harness.complete(id);
    }
    assert_eq!(harness.run.active_count(), 0);
}

#[test]
fn internal_nested_callback_uses_physical_reserve() {
    let mut harness = SchedulerHarness::new(2, 1, 1, 100, 64);
    harness.enqueue(1, TestRequestKind::Action);
    assert_eq!(harness.started(), vec![1]);

    // Callbacks that nest consume the same physical reserve as dependencies that come in from
    // outside.
    harness.enqueue_internal(2, "deployment");
    assert_eq!(harness.started(), vec![2]);
    harness.complete(2);
    harness.complete(1);
    assert_eq!(harness.run.active_count(), 0);
}

#[test]
fn internal_callbacks_skip_canceled_and_per_client_ineligible_entries() {
    // Four workers and 50% give each client a total of two and a shared base of one. Client A
    // starts at its total while one physical reserve slot remains usable by a client B descendant.
    let mut harness = SchedulerHarness::new(4, 3, 3, 50, 64);
    harness.enqueue_for(1, TestRequestKind::Independent, "deployment_a");
    harness.enqueue_for(2, TestRequestKind::Dependency, "deployment_a");
    harness.enqueue_for(3, TestRequestKind::Independent, "deployment_b");
    assert_eq!(harness.started(), vec![1, 2, 3]);

    harness.enqueue_internal(4, "deployment_a");
    harness.canceled.push(4);
    harness.enqueue_internal(5, "deployment_a");
    harness.enqueue_internal(6, "deployment_b");

    // Canceled work is removed, and the live but per-client-ineligible A request cannot hide B's
    // eligible callback behind it.
    assert_eq!(harness.started(), vec![6]);
    assert_eq!(harness.internal.pending.len(), 1);
    harness.complete(2);
    assert_eq!(harness.started(), vec![5]);
    for id in [5, 6, 1, 3] {
        harness.complete(id);
    }
    assert_eq!(harness.run.active_count(), 0);
    assert!(harness.internal.is_finished(true));
}

#[test]
fn canceled_external_permit_wait_does_not_retain_the_request_or_permit() {
    let mut log = MetricLog::new();
    let deadline = at(60_000);
    // The caller goes away while its request waits, even as a permit comes.
    let outcome = wait_for_external_permit(true, false, Some(9), at(10), deadline)
        .expect("canceled external request remained in its permit wait");
    assert!(matches!(outcome, ExternalPermitWaitOutcome::CallerDropped));
    assert!(matches!(
        external_permit_result(
            outcome,
            properties(false, false, false),
            "scheduler_test",
            &mut log
        ),
        PermitStep::Drop
    ));
}

#[test]
fn canceled_internal_permit_wait_does_not_retain_the_request_or_permit() {
    assert_eq!(wait_for_internal_permit::<u32>(false, None), None);
    assert_eq!(wait_for_internal_permit(true, Some(2)), Some(None));
    assert_eq!(wait_for_internal_permit(false, Some(3)), Some(Some(3)));
}

#[test]
fn a_permit_that_comes_too_late_rejects_the_request() {
    let mut log = MetricLog::new();
    let outcome = wait_for_external_permit::<u32>(false, true, None, at(60_000), at(60_000))
        .expect("the deadline passed");
    match external_permit_result(
        outcome,
        properties(false, false, false),
        "scheduler_test",
        &mut log,
    ) {
        PermitStep::Reject(error) => assert_eq!(error.short_msg, "InitialPermitTimeoutError"),
        _ => panic!("a late request was let through"),
    }
}

#[test]
fn queued_dependency_expires_while_selected_control_plane_waits_for_permit() {
    let queue_config = IsolateQueueConfig::new(
        Duration::from_millis(1),
        Duration::from_millis(10),
        Duration::from_millis(50),
        Duration::from_secs(2),
        64,
    )
    .unwrap();
    // Two workers with a 50% per-client limit let client B's control-plane request leave the queue
    // while client A's dependency remains ineligible behind A's active request.
    let mut harness = SchedulerHarness::new_with_policy(2, 2, 2, 50, 64, queue_config, true);
    harness.enqueue_for(1, TestRequestKind::Independent, "deployment_a");
    assert_eq!(harness.started(), vec![1]);

    harness.enqueue_for(2, TestRequestKind::Dependency, "deployment_a");
    harness.enqueue_for(3, TestRequestKind::ControlPlane, "deployment_b");
    let state = harness.run.state_snapshot();
    let select = |item: &(usize, Request)| {
        state.request_eligibility(item.1.scheduling_properties(true), &item.1.client_id)
    };
    let selected = match harness.queue.receive(start(), &select, &mut harness.log).0 {
        ReceiveStep::Ready(output) => output,
        _ => panic!("control-plane request never entered its active-permit wait"),
    };
    assert_eq!(selected.item.0, 3);
    assert_eq!(harness.queue.len(), 1);

    // Nothing takes requests while the selected one waits for its permit; the companion does.
    match harness.queue.receive_expired(at(51), &select, &mut harness.log).0 {
        ReceiveStep::Ready(output) => {
            assert_eq!(output.item.0, 2);
            assert_eq!(output.rejection, Some(IsolateQueueRejection::HardExpired));
            let error = harness
                .run
                .expired(Some(output.item.1.scheduling_properties(true)), &mut harness.log)
                .expect("an expired request is answered");
            assert_eq!(error.short_msg, "ExpiredInQueue");
        }
        _ => panic!("dependency outlived its deadline behind another request's permit wait"),
    }
}

#[test]
fn per_client_overflow_stays_within_percentage_derived_total() {
    // Four workers at 50% keep the per-client total of two. The dependency overflow is carved out
    // of that total, so that the client's base is one.
    let mut harness = SchedulerHarness::new(4, 3, 3, 50, 64);
    harness.enqueue_for(1, TestRequestKind::Independent, "deployment_a");
    assert_eq!(harness.started(), vec![1]);

    harness.enqueue_for(2, TestRequestKind::Independent, "deployment_a");
    harness.enqueue_for(3, TestRequestKind::Dependency, "deployment_a");
    assert_eq!(harness.started(), vec![3]);

    harness.enqueue_for(4, TestRequestKind::Dependency, "deployment_a");
    harness.enqueue_for(5, TestRequestKind::Independent, "deployment_b");
    assert_eq!(harness.started(), vec![5]);

    harness.complete(3);
    assert_eq!(harness.started(), vec![4]);
    harness.complete(1);
    assert!(harness.started().is_empty());
    harness.complete(4);
    assert_eq!(harness.started(), vec![2]);
    harness.complete(2);
    harness.complete(5);
    assert_eq!(harness.run.active_count(), 0);
}

#[test]
fn one_worker_dependency_expires_instead_of_hanging() {
    let mut harness = SchedulerHarness::new(1, 1, 1, 100, 64);
    harness.enqueue(1, TestRequestKind::Action);
    assert_eq!(harness.started(), vec![1]);

    harness.enqueue(2, TestRequestKind::Dependency);
    harness.now = at(60_000);
    harness.enqueue(3, TestRequestKind::Dependency);
    assert!(harness.started().is_empty());
    assert_eq!(harness.expired.len(), 1);
    assert_eq!(harness.expired[0].0, 2);
    assert_eq!(harness.expired[0].1.short_msg, "ExpiredInQueue");

    harness.complete(1);
    assert_eq!(harness.started(), vec![3]);
    harness.complete(3);
}

#[test]
fn worker_failure_closes_queue_and_clears_active_accounting() {
    let mut harness = SchedulerHarness::new(1, 1, 1, 100, 64);
    harness.enqueue(1, TestRequestKind::Independent);
    harness.enqueue(2, TestRequestKind::Independent);
    assert_eq!(harness.started(), vec![1]);
    harness.run.worker_completed(0, None, start(), &mut harness.log);
    assert_eq!(harness.run.stopped(), Some(SchedulerStop::WorkerShutDownUncleanly));
    let (drained, _) = harness.queue.drop_receiver(start(), &mut harness.log);
    assert_eq!(drained.map(|entries| entries.len()), Some(1));
    assert!(harness.queue.is_closed());
}

#[test]
fn canceled_queued_request_does_not_leak_active_accounting() {
    let mut harness = SchedulerHarness::new(1, 1, 1, 100, 64);
    harness.enqueue(1, TestRequestKind::Independent);
    assert_eq!(harness.started(), vec![1]);
    harness.enqueue(2, TestRequestKind::Independent);
    harness.canceled.push(2);
    harness.complete(1);
    harness.enqueue(3, TestRequestKind::Independent);
    assert_eq!(harness.started(), vec![3]);
    harness.complete(3);
    assert_eq!(harness.run.active_count(), 0);
}

#[test]
fn canceled_control_plane_request_is_discarded_before_worker_assignment() {
    let mut harness = SchedulerHarness::new_control_plane(1, 1, 1, 100, 64);
    harness.enqueue(1, TestRequestKind::Independent);
    assert_eq!(harness.started(), vec![1]);
    harness.enqueue(2, TestRequestKind::ControlPlane);
    harness.canceled.push(2);
    harness.enqueue(3, TestRequestKind::Independent);
    harness.log.take();
    harness.complete(1);
    assert_eq!(harness.started(), vec![3]);
    let updates = harness.log.take();
    assert!(updates.iter().any(|update| {
        update.family == "isolate_scheduler_requests_rejected_total"
            && update.labels.iter().any(|label| label.value == "caller_dropped")
    }));
    harness.complete(3);
    assert_eq!(harness.run.active_count(), 0);
}

#[test]
fn control_plane_waits_in_shared_base_while_dependency_uses_reserves() {
    // One request occupies the only shared-base worker. The older control-plane request also fills
    // the shared queue entry, so only the newer dependency may use both overflow capacities.
    let mut harness = SchedulerHarness::new_control_plane(2, 1, 1, 100, 1);
    harness.enqueue(1, TestRequestKind::Independent);
    assert_eq!(harness.started(), vec![1]);

    harness.enqueue(2, TestRequestKind::ControlPlane);
    harness.enqueue(3, TestRequestKind::Dependency);
    assert_eq!(harness.started(), vec![3]);

    harness.complete(3);
    assert!(harness.started().is_empty());
    harness.complete(1);
    assert_eq!(harness.started(), vec![2]);
    harness.complete(2);
}

#[test]
fn scheduler_admits_all_classes_below_base_capacity() {
    let mut harness = SchedulerHarness::new(3, 2, 2, 100, 64);
    harness.enqueue(0, TestRequestKind::Independent);
    harness.enqueue(1, TestRequestKind::Dependency);
    harness.enqueue(2, TestRequestKind::Dependency);
    assert_eq!(harness.started(), vec![0, 1, 2]);
    for id in [1, 0, 2] {
        harness.complete(id);
    }
    assert_eq!(harness.run.active_count(), 0);
}

#[test]
fn completed_workers_and_ready_requests_come_before_expired_ones() {
    let mut harness = SchedulerHarness::new(1, 1, 1, 100, 4);
    let all = SchedulerReadiness {
        completed_worker: true,
        queue_metrics_due: true,
        request: true,
        expired: true,
        heap_stats_due: true,
    };
    assert_eq!(harness.run.next_branch(all), Some(SchedulerBranch::ReportQueue));
    harness.enqueue(1, TestRequestKind::Independent);
    assert_eq!(harness.started(), vec![1]);
    assert_eq!(harness.run.next_branch(all), Some(SchedulerBranch::CompletedWorker));
    let some = SchedulerReadiness { completed_worker: false, queue_metrics_due: false, ..all };
    assert_eq!(harness.run.next_branch(some), Some(SchedulerBranch::TakeRequest));
    let none = SchedulerReadiness {
        completed_worker: false,
        queue_metrics_due: false,
        request: false,
        expired: false,
        heap_stats_due: false,
    };
    assert_eq!(harness.run.next_branch(none), None);
}

#[test]
fn a_full_queue_sends_the_request_back() {
    let mut log = MetricLog::new();
    let config = IsolateQueueConfig::new(
        Duration::from_millis(10),
        Duration::from_millis(100),
        Duration::from_secs(1),
        Duration::from_secs(30),
        1,
    )
    .unwrap();
    let mut queue: IsolateQueueState<u32> =
        new_isolate_queue("scheduler_test", start(), 1, 0, config, &mut log);
    let properties = properties(false, false, false);
    let (sent, _) = send_request(&mut queue, 1, properties, start(), "scheduler_test", &mut log);
    assert!(sent.is_ok());
    let (sent, _) = send_request(&mut queue, 2, properties, start(), "scheduler_test", &mut log);
    match sent {
        Err((SendRequestError::Full(error), item)) => {
            assert_eq!(item, 2);
            assert_eq!(error.short_msg, "ExecuteFullError");
        }
        _ => panic!("a full queue took a request"),
    }
    queue.drop_receiver(start(), &mut log);
    let (sent, _) = send_request(&mut queue, 3, properties, start(), "scheduler_test", &mut log);
    assert!(matches!(sent, Err((SendRequestError::Shutdown, 3))));
}

#[test]
fn counts_return_to_nothing_once_every_request_is_done() {
    let mut counts = ActiveRequestCounts::default();
    let action = properties(false, true, true);
    counts.increment(action);
    counts.increment(properties(true, true, true));
    assert_eq!((counts.total, counts.independent_actions), (2, 1));
    counts.decrement(properties(true, true, true));
    counts.decrement(action);
    assert!(counts.is_empty());
}

fn module(path: &str, is_deps: bool, environment: ModuleEnvironment) -> ModuleConfig {
    ModuleConfig { path: path.to_string(), is_deps, environment }
}

#[test]
fn only_modules_of_the_isolate_are_analyzed() {
    let modules = vec![
        module("a.js", false, ModuleEnvironment::Isolate),
        module("_deps/b.js", true, ModuleEnvironment::Isolate),
        module("c.js", false, ModuleEnvironment::Isolate),
    ];
    assert_eq!(modules_to_analyze(&modules).unwrap(), vec!["a.js", "c.js"]);
    let mixed = vec![module("n.js", false, ModuleEnvironment::Node)];
    assert_eq!(modules_to_analyze(&mixed).err(), Some(ModuleError::AnalyzeOutsideIsolate));
    assert_eq!(
        check_app_definitions(&module("a.js", false, ModuleEnvironment::Isolate), &mixed).err(),
        Some(ModuleError::EvaluateOutsideIsolate)
    );
    assert!(check_app_definitions(
        &module("a.js", false, ModuleEnvironment::Isolate),
        &Vec::new()
    )
    .is_ok());
}

#[test]
fn the_first_module_that_fails_ends_the_analysis() {
    let mut analyzed: AnalyzedModules<u32> = AnalyzedModules::new();
    assert!(analyzed.add_module::<&str>("a.js".to_string(), Ok(1)).is_ok());
    assert_eq!(analyzed.add_module("b.js".to_string(), Err("broken")), Err("broken"));
    assert_eq!(analyzed.modules.get("a.js"), Some(&1));
    assert!(analyzed.modules.get("b.js").is_none());
}

#[test]
fn control_plane_requests_are_tried_three_times() {
    let mut attempts = ControlPlaneAttempts::new();
    assert!(attempts.failed(true, true));
    assert!(attempts.failed(true, true));
    assert!(!attempts.failed(true, true));
    assert!(!ControlPlaneAttempts::new().failed(false, false));
}

#[test]
fn auth_config_errors_are_explained_unless_nothing_ran() {
    assert!(matches!(auth_config_error("a", "b", true, "why"), AuthConfigError::AsItIs));
    match auth_config_error("original", "recaptured", false, "why") {
        AuthConfigError::BadRequest { short_msg, msg } => {
            assert_eq!(short_msg, "InvalidAuthConfig");
            assert_eq!(msg, "why: recaptured");
        }
        AuthConfigError::AsItIs => panic!("a failed evaluation is explained"),
    }
    match auth_config_error(
        "Uncaught Error: Environment variable X is missing",
        "Uncaught Error: Uncaught Error: Environment variable X is missing",
        false,
        "why",
    ) {
        AuthConfigError::BadRequest { short_msg, msg } => {
            assert_eq!(short_msg, "AuthConfigMissingEnvironmentVariable");
            assert_eq!(msg, "Environment variable X is missing");
        }
        AuthConfigError::AsItIs => panic!("a failed evaluation is explained"),
    }
}

#[test]
fn nested_calls_only_run_functions_with_a_value() {
    assert!(check_nested_outcome(FunctionOutcomeKind::Query).is_ok());
    assert!(check_nested_outcome(FunctionOutcomeKind::Mutation).is_ok());
    assert!(check_nested_outcome(FunctionOutcomeKind::HttpAction).is_err());
    assert!(nested_value_error("a:b", "bad").contains("a:b"));
}

#[test]
fn an_isolate_serves_one_client() {
    let mut log = MetricLog::new();
    let mut worker = WorkerLoop::new();
    let clean = IsolateState {
        reuse_isolates: true,
        unclean: None,
        age: Duration::zero(),
        max_lifetime: Duration::from_secs(60),
    };
    assert!(matches!(worker.prepare(&clean, &mut log), PrepareStep::Wait));
    assert!(!worker.has_idle_timeout());
    assert!(matches!(
        worker.peeked(Some("a"), &mut log),
        PeekStep::Accept { reused: false }
    ));
    assert!(!worker.served("first".to_string(), true));
    assert!(matches!(worker.prepare(&clean, &mut log), PrepareStep::Announce));
    assert!(worker.has_idle_timeout());
    assert!(matches!(worker.peeked(Some("a"), &mut log), PeekStep::Accept { reused: true }));
    assert!(!worker.served("second".to_string(), true));
    assert!(matches!(worker.peeked(Some("b"), &mut log), PeekStep::Recreate));
    assert!(matches!(worker.peeked(Some("b"), &mut log), PeekStep::Accept { reused: false }));
    assert!(worker.served("third".to_string(), false));
    assert!(matches!(worker.peeked(None, &mut log), PeekStep::End));
}

#[test]
fn contexts_of_an_old_isolate_are_not_shown() {
    let mut log = MetricLog::new();
    let path = function_path();
    let kept = || CachedContexts {
        saved_contexts: vec![ReusableContextKey::database_udf(context_cache_key(&path))],
    };
    let request = Request::new(
        "deployment".to_string(),
        RequestType::Udf {
            path: function_path(),
            reuses_context: true,
            has_udf_callback: false,
        },
    );
    let mut run = SchedulerLoop::start("pool", 2, 2, 2, 100, false, false, &mut log);
    let serve = |run: &mut SchedulerLoop, log: &mut MetricLog| {
        let worker =
            match run.request_ready(Some(&request), false, None, false, start(), log) {
                RequestStep::Send(worker) => worker,
                _ => panic!("the request found no worker"),
            };
        log.take();
        run.sent(true, log);
        let outcome = log.take()[0].labels[2].value.clone();
        (worker, outcome)
    };
    assert_eq!(serve(&mut run, &mut log), (0, "new_worker".to_string()));
    // Of a worker that is not idle nothing is kept.
    run.contexts_changed(0, CachedContexts { saved_contexts: Vec::new() });
    run.worker_completed(0, Some(kept()), start(), &mut log);
    // Nor does a worker change for another one.
    run.contexts_changed(1, CachedContexts { saved_contexts: Vec::new() });
    assert_eq!(serve(&mut run, &mut log), (0, "hit".to_string()));
    run.worker_completed(0, Some(kept()), start(), &mut log);

    let mut worker = WorkerLoop::new();
    assert!(matches!(
        worker.peeked(Some("deployment"), &mut log),
        PeekStep::Accept { reused: false }
    ));
    assert!(worker.has_idle_timeout());
    run.contexts_changed(0, worker.idle_timeout(&mut log));
    assert_eq!(serve(&mut run, &mut log), (0, "same_client_worker".to_string()));
}

#[test]
fn a_queue_without_lanes_is_understood() {
    assert!(legacy_uses_reserve(IsolateQueueLane::Dependency));
    for lane in [
        IsolateQueueLane::ControlPlane,
        IsolateQueueLane::Ordinary,
        IsolateQueueLane::IndependentAction,
    ] {
        assert!(!legacy_uses_reserve(lane));
    }
    assert_eq!(
        legacy_send_error(LegacyQueueSendError::Full),
        IsolateQueueSendError::QueueFull
    );
    assert_eq!(
        legacy_send_error(LegacyQueueSendError::Closed),
        IsolateQueueSendError::SchedulerClosed
    );
    let waiting = legacy_output("a", Some(at(5)));
    assert_eq!(waiting.item, "a");
    assert_eq!(waiting.rejection, None);
    assert_eq!(waiting.permit_deadline, Some(at(5)));
    assert_eq!(waiting.dispatch_sojourn, None);
    let expired = legacy_output("b", None);
    assert_eq!(expired.item, "b");
    assert_eq!(expired.rejection, Some(IsolateQueueRejection::HardExpired));
    assert_eq!(expired.permit_deadline, None);
    assert_eq!(expired.dispatch_sojourn, None);
}

#[test]
fn old_and_unclean_isolates_are_made_anew() {
    let mut log = MetricLog::new();
    let clean = IsolateState {
        reuse_isolates: true,
        unclean: None,
        age: Duration::from_secs(1),
        max_lifetime: Duration::from_secs(60),
    };
    assert!(!should_recreate_isolate(&clean, &mut log));
    let old = IsolateState { age: Duration::from_secs(61), ..clean };
    assert!(should_recreate_isolate(&old, &mut log));
    let unclean = IsolateState { age: Duration::zero(), unclean: Some("oom"), ..old };
    log.take();
    assert!(should_recreate_isolate(&unclean, &mut log));
    let updates = log.take();
    assert_eq!(updates.len(), 1);
    assert_eq!(updates[0].labels[0].value, "oom");
    let single = IsolateState { reuse_isolates: false, unclean: None, ..unclean };
    assert!(should_recreate_isolate(&single, &mut log));
}

#[test]
fn extra_v8_flags_come_after_the_fixed_ones() {
    let plain = v8_flags(None);
    let extra = v8_flags(Some("--a --b"));
    assert_eq!(extra.len(), plain.len() + 2);
    assert_eq!(&extra[..plain.len()], &plain[..]);
    assert_eq!(&extra[plain.len()..], &["--a".to_string(), "--b".to_string()][..]);
}

#[test]
fn heap_statistics_add_up() {
    let one = IsolateHeapStats {
        v8_used_heap_size: 1,
        v8_total_heap_size: 2,
        v8_total_heap_size_executable: 3,
        v8_external_memory_bytes: 4,
        v8_total_physical_size: 5,
        v8_malloced_memory: 6,
        array_buffer_size: 7,
    };
    let total = aggregate_heap_stats(&vec![one, one]);
    assert_eq!(total.v8_used_heap_size, 2);
    assert_eq!(total.array_buffer_size, 14);
}

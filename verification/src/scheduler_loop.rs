//! The loop of the isolate scheduler: what it does when something happens.
//!
//! Waiting, sending and answering are done outside. Each step here takes in what happened, keeps the
//! scheduler up to date, and says what to do.
use vstd::prelude::*;
use vstd::string::*;

use crate::context_cache::CachedContexts;
use crate::isolate_queue::{IsolateQueueLane, IsolateQueueRejection};
use crate::isolate_queue_state::rejection_update;
use crate::metric_log::{counter, update, MetricLog, MetricOperation, MetricValue, UpdateView};
use crate::metrics::{
    bool_text, log_isolate_queue_rejection, log_scheduler_active_request_finished,
    log_scheduler_active_request_started, log_scheduler_request_expired,
    log_scheduler_request_rejected, rejected_before_execution_error, rejection_counted,
    rejection_texts, RejectedBeforeExecutionReason, RejectionError,
};
use crate::request::{Request, RequestSchedulingProperties};
use crate::scheduler::{
    all_counts, chosen_workers_are_free, client_active, client_counts, dispatch_updates,
    rejection_of, running_update, scheduler_stays_in_order, ActiveModel, SchedulerModel,
    SchedulerStateSnapshot, SharedIsolateScheduler, WorkerSelection,
};
use crate::time::{Duration, Moment};

verus! {

pub open spec fn class_labels(pool: Seq<char>, properties: RequestSchedulingProperties) -> Seq<
    (Seq<char>, Seq<char>),
> {
    seq![("pool_name"@, pool), ("scheduler_class"@, properties.label())]
}

pub open spec fn request_rejected_update(
    pool: Seq<char>,
    properties: RequestSchedulingProperties,
    reason: Seq<char>,
) -> UpdateView {
    counter(
        "isolate_scheduler_requests_rejected_total"@,
        1,
        seq![("pool_name"@, pool), ("scheduler_class"@, properties.label()), ("reason"@, reason)],
    )
}

pub open spec fn request_expired_update(
    pool: Seq<char>,
    properties: RequestSchedulingProperties,
) -> UpdateView {
    counter("isolate_scheduler_requests_expired_total"@, 1, class_labels(pool, properties))
}

/// What the metrics count when the caller of a request went away: only control-plane requests are
/// counted.
pub open spec fn caller_dropped_updates(
    pool: Seq<char>,
    properties: RequestSchedulingProperties,
) -> Seq<UpdateView> {
    if properties.is_control_plane {
        seq![
            request_rejected_update(pool, properties, "caller_dropped"@),
            rejection_update(pool, properties.lane(), "caller_dropped"@),
        ]
    } else {
        Seq::empty()
    }
}

/// Counts a request whose caller went away.
pub fn log_scheduler_caller_dropped(
    pool_name: &'static str,
    scheduling_properties: RequestSchedulingProperties,
    log: &mut MetricLog,
)
    requires
        scheduling_properties.consistent(),
    ensures
        final(log)@ == old(log)@ + caller_dropped_updates(pool_name@, scheduling_properties),
{
    if scheduling_properties.is_control_plane {
        let lane = scheduling_properties.queue_lane();
        log_scheduler_request_rejected(
            log,
            pool_name,
            scheduling_properties.as_label(),
            "caller_dropped",
        );
        log_isolate_queue_rejection(log, pool_name, lane.as_label(), "caller_dropped");
        assert(crate::isolate_queue_state::lane_labels(pool_name@, lane).push(
            ("reason"@, "caller_dropped"@),
        ) =~= seq![
            ("pool_name"@, pool_name@),
            ("lane"@, lane.label()),
            ("reason"@, "caller_dropped"@),
        ]);
    }
    assert(log@ =~= old(log)@ + caller_dropped_updates(pool_name@, scheduling_properties));
}

/// What the metrics count when a request that left the queue is rejected.
pub open spec fn queue_rejection_updates(
    pool: Seq<char>,
    properties: RequestSchedulingProperties,
    rejection: IsolateQueueRejection,
) -> Seq<UpdateView> {
    seq![
        match rejection {
            IsolateQueueRejection::HardExpired => request_expired_update(pool, properties),
            IsolateQueueRejection::DelayControlShed => request_rejected_update(
                pool,
                properties,
                "delay_control_shed"@,
            ),
        },
        rejection_counted(RejectedBeforeExecutionReason::ExpiredInQueue),
    ]
}

/// Rejects a request that left the queue without being selected. The caller is told that the
/// request expired, whether it did or was shed.
pub fn reject_queued_request(
    scheduling_properties: RequestSchedulingProperties,
    rejection: IsolateQueueRejection,
    pool_name: &'static str,
    log: &mut MetricLog,
) -> (error: RejectionError)
    requires
        scheduling_properties.consistent(),
    ensures
        rejection_texts(error) == RejectedBeforeExecutionReason::ExpiredInQueue.error(),
        final(log)@ == old(log)@ + queue_rejection_updates(
            pool_name@,
            scheduling_properties,
            rejection,
        ),
{
    match rejection {
        IsolateQueueRejection::HardExpired => {
            log_scheduler_request_expired(log, pool_name, scheduling_properties.as_label());
        },
        IsolateQueueRejection::DelayControlShed => {
            log_scheduler_request_rejected(
                log,
                pool_name,
                scheduling_properties.as_label(),
                "delay_control_shed",
            );
        },
    }
    let error = rejected_before_execution_error(log, RejectedBeforeExecutionReason::ExpiredInQueue);
    assert(log@ =~= old(log)@ + queue_rejection_updates(
        pool_name@,
        scheduling_properties,
        rejection,
    ));
    error
}

/// What becomes of a request that left the queue.
#[derive(Debug)]
pub enum ExternalStep {
    /// The caller is told why it was rejected.
    Reject(RejectionError),
    /// The caller went away.
    Drop,
    /// The request waits for a permit, until its deadline.
    WaitForPermit(Moment),
}

/// Decides what becomes of a request that left the queue.
pub fn external_request(
    scheduling_properties: RequestSchedulingProperties,
    rejection: Option<IsolateQueueRejection>,
    permit_deadline: Option<Moment>,
    response_closed: bool,
    pool_name: &'static str,
    log: &mut MetricLog,
) -> (step: ExternalStep)
    requires
        scheduling_properties.consistent(),
        rejection is None ==> permit_deadline is Some,
    ensures
        match rejection {
            Some(rejection) => {
                &&& step matches ExternalStep::Reject(error) && rejection_texts(error)
                    == RejectedBeforeExecutionReason::ExpiredInQueue.error()
                &&& final(log)@ == old(log)@ + queue_rejection_updates(
                    pool_name@,
                    scheduling_properties,
                    rejection,
                )
            },
            None => if response_closed {
                &&& step is Drop
                &&& final(log)@ == old(log)@ + caller_dropped_updates(
                    pool_name@,
                    scheduling_properties,
                )
            } else {
                &&& step matches ExternalStep::WaitForPermit(deadline) && Some(deadline)
                    == permit_deadline
                &&& final(log)@ == old(log)@
            },
        },
{
    if let Some(rejection) = rejection {
        return ExternalStep::Reject(
            reject_queued_request(scheduling_properties, rejection, pool_name, log),
        );
    }
    if response_closed {
        log_scheduler_caller_dropped(pool_name, scheduling_properties, log);
        return ExternalStep::Drop;
    }
    match permit_deadline {
        Some(deadline) => ExternalStep::WaitForPermit(deadline),
        None => ExternalStep::Drop,
    }
}

/// How the wait for a permit ended.
#[derive(Debug)]
pub enum ExternalPermitWaitOutcome<P> {
    Acquired(P),
    CallerDropped,
    DeadlineElapsed,
}

/// How the wait for a permit ends, if it does.
pub open spec fn permit_wait<P>(
    response_closed: bool,
    timer_elapsed: bool,
    permit: Option<P>,
    now: nat,
    permit_deadline: nat,
) -> Option<ExternalPermitWaitOutcome<P>> {
    if response_closed {
        Some(ExternalPermitWaitOutcome::CallerDropped)
    } else if timer_elapsed || (permit is Some && now >= permit_deadline) {
        Some(ExternalPermitWaitOutcome::DeadlineElapsed)
    } else if let Some(permit) = permit {
        Some(ExternalPermitWaitOutcome::Acquired(permit))
    } else {
        None
    }
}

/// Decides how the wait for a permit ends, if it does. A caller that went away comes first, then
/// the deadline. The time is looked at again with a permit at hand, which may have come late.
pub fn wait_for_external_permit<P>(
    response_closed: bool,
    timer_elapsed: bool,
    permit: Option<P>,
    now: Moment,
    permit_deadline: Moment,
) -> (outcome: Option<ExternalPermitWaitOutcome<P>>)
    ensures
        outcome == permit_wait(response_closed, timer_elapsed, permit, now@, permit_deadline@),
        if response_closed {
            outcome matches Some(ExternalPermitWaitOutcome::CallerDropped)
        } else if timer_elapsed {
            outcome matches Some(ExternalPermitWaitOutcome::DeadlineElapsed)
        } else {
            match permit {
                Some(permit) => if now@ >= permit_deadline@ {
                    outcome matches Some(ExternalPermitWaitOutcome::DeadlineElapsed)
                } else {
                    outcome == Some(ExternalPermitWaitOutcome::Acquired(permit))
                },
                None => outcome is None,
            }
        },
{
    if response_closed {
        return Some(ExternalPermitWaitOutcome::CallerDropped);
    }
    if timer_elapsed {
        return Some(ExternalPermitWaitOutcome::DeadlineElapsed);
    }
    match permit {
        Some(permit) => {
            if now.as_nanos() >= permit_deadline.as_nanos() {
                Some(ExternalPermitWaitOutcome::DeadlineElapsed)
            } else {
                Some(ExternalPermitWaitOutcome::Acquired(permit))
            }
        },
        None => None,
    }
}

/// What is known of an internal request that waits for a permit, by whether its caller went away.
pub open spec fn internal_wait<P>(response_closed: bool, permit: Option<P>) -> Option<Option<P>> {
    if response_closed {
        Some(None)
    } else {
        match permit {
            Some(permit) => Some(Some(permit)),
            None => None,
        }
    }
}

/// What is known of an internal request that waits for a permit. It has no deadline, for a nested
/// function cannot be retried safely; a caller that went away ends the wait, even where the permit
/// came.
pub fn wait_for_internal_permit<P>(response_closed: bool, permit: Option<P>) -> (outcome: Option<
    Option<P>,
>)
    ensures
        outcome == (if response_closed {
            Some(None::<P>)
        } else {
            match permit {
                Some(permit) => Some(Some(permit)),
                None => None,
            }
        }),
        outcome == internal_wait(response_closed, permit),
{
    if response_closed {
        return Some(None);
    }
    match permit {
        Some(permit) => Some(Some(permit)),
        None => None,
    }
}

/// What becomes of a request after it waited for a permit.
#[derive(Debug)]
pub enum PermitStep<P> {
    /// It goes to a worker.
    Proceed(P),
    Drop,
    Reject(RejectionError),
}

/// Decides what becomes of a request after it waited for a permit.
pub fn external_permit_result<P>(
    outcome: ExternalPermitWaitOutcome<P>,
    scheduling_properties: RequestSchedulingProperties,
    pool_name: &'static str,
    log: &mut MetricLog,
) -> (step: PermitStep<P>)
    requires
        scheduling_properties.consistent(),
    ensures
        match outcome {
            ExternalPermitWaitOutcome::Acquired(permit) => step == PermitStep::Proceed(permit)
                && final(log)@ == old(log)@,
            ExternalPermitWaitOutcome::CallerDropped => step is Drop && final(log)@ == old(log)@
                + caller_dropped_updates(pool_name@, scheduling_properties),
            ExternalPermitWaitOutcome::DeadlineElapsed => {
                &&& step matches PermitStep::Reject(error) && rejection_texts(error)
                    == RejectedBeforeExecutionReason::InitialPermitTimeout.error()
                &&& final(log)@ == old(log)@.push(
                    request_expired_update(pool_name@, scheduling_properties),
                ).push(rejection_counted(RejectedBeforeExecutionReason::InitialPermitTimeout))
            },
        },
{
    match outcome {
        ExternalPermitWaitOutcome::Acquired(permit) => PermitStep::Proceed(permit),
        ExternalPermitWaitOutcome::CallerDropped => {
            log_scheduler_caller_dropped(pool_name, scheduling_properties, log);
            PermitStep::Drop
        },
        ExternalPermitWaitOutcome::DeadlineElapsed => {
            log_scheduler_request_expired(log, pool_name, scheduling_properties.as_label());
            PermitStep::Reject(
                rejected_before_execution_error(
                    log,
                    RejectedBeforeExecutionReason::InitialPermitTimeout,
                ),
            )
        },
    }
}

/// A request of a function that holds a worker and waits for it.
pub struct InternalRequest<P> {
    pub request: Request,
    pub payload: P,
}

/// The requests of functions that hold workers and wait for them, in the order in which they came.
pub struct PendingInternal<P> {
    pub pending: Vec<InternalRequest<P>>,
}

/// Whether answers are what asking for each request gives whether its caller went away.
pub open spec fn are_closed<P, C: Fn(&P) -> bool>(
    closed: C,
    pending: Seq<InternalRequest<P>>,
    flags: Seq<bool>,
) -> bool {
    &&& flags.len() == pending.len()
    &&& forall|i: int|
        0 <= i < pending.len() ==> closed.ensures((&pending[i].payload,), #[trigger] flags[i])
}

/// The requests whose callers are still there, among the first `n`.
pub open spec fn still_wanted<P>(
    pending: Seq<InternalRequest<P>>,
    flags: Seq<bool>,
    n: int,
) -> Seq<InternalRequest<P>>
    decreases n,
{
    if n <= 0 {
        Seq::empty()
    } else if flags[n - 1] {
        still_wanted(pending, flags, n - 1)
    } else {
        still_wanted(pending, flags, n - 1).push(pending[n - 1])
    }
}

/// The first request from `i` on that can start.
pub open spec fn first_startable<P>(
    pending: Seq<InternalRequest<P>>,
    state: SchedulerStateSnapshot,
    control_plane_lane_enabled: bool,
    i: int,
) -> Option<int>
    decreases pending.len() - i,
{
    if i >= pending.len() {
        None
    } else if state.eligibility(
        pending[i].request.properties(control_plane_lane_enabled),
        pending[i].request.client_id@,
    ).can_start() {
        Some(i)
    } else {
        first_startable(pending, state, control_plane_lane_enabled, i + 1)
    }
}

impl<P> PendingInternal<P> {
    pub open spec fn wf(self) -> bool {
        forall|i: int| 0 <= i < self.pending@.len() ==> (#[trigger] self.pending@[i]).request.wf()
    }

    pub fn new() -> (pending: PendingInternal<P>)
        ensures
            pending.wf(),
            pending.pending@.len() == 0,
    {
        PendingInternal { pending: Vec::new() }
    }

    /// A request came.
    pub fn push(&mut self, request: InternalRequest<P>)
        requires
            old(self).wf(),
            request.request.wf(),
        ensures
            final(self).wf(),
            final(self).pending@ == old(self).pending@.push(request),
    {
        self.pending.push(request);
    }

    /// Forgets the requests whose callers went away, and takes out the first of the others that can
    /// start. A client at its limit does not keep requests of other clients from starting.
    pub fn select<C: Fn(&P) -> bool>(
        &mut self,
        closed: &C,
        state: &SchedulerStateSnapshot,
        control_plane_lane_enabled: bool,
    ) -> (selected: Option<InternalRequest<P>>)
        requires
            old(self).wf(),
            forall|payload: &P| #[trigger] closed.requires((payload,)),
        ensures
            final(self).wf(),
            exists|flags: Seq<bool>|
                #![trigger are_closed(*closed, old(self).pending@, flags)]
                are_closed(*closed, old(self).pending@, flags) && ({
                    let wanted = still_wanted(
                        old(self).pending@,
                        flags,
                        old(self).pending@.len() as int,
                    );
                    match first_startable(wanted, *state, control_plane_lane_enabled, 0) {
                        Some(i) => selected == Some(wanted[i]) && final(self).pending@
                            == wanted.remove(i),
                        None => selected is None && final(self).pending@ == wanted,
                    }
                }),
    {
        let ghost all = self.pending@;
        let mut rest: Vec<InternalRequest<P>> = Vec::new();
        std::mem::swap(&mut rest, &mut self.pending);
        // The requests are moved from the end of one list to the end of another, and back again.
        let mut reversed: Vec<InternalRequest<P>> = Vec::new();
        while rest.len() > 0
            invariant
                rest@.len() + reversed@.len() == all.len(),
                forall|k: int| 0 <= k < rest@.len() ==> #[trigger] rest@[k] == all[k],
                forall|k: int|
                    0 <= k < reversed@.len() ==> #[trigger] reversed@[k] == all[all.len() - 1 - k],
            decreases rest@.len(),
        {
            if let Some(request) = rest.pop() {
                reversed.push(request);
            }
        }
        let mut wanted: Vec<InternalRequest<P>> = Vec::new();
        let ghost mut flags: Seq<bool> = Seq::empty();
        assert(wanted@ =~= still_wanted(all, flags, 0));
        while reversed.len() > 0
            invariant
                flags.len() + reversed@.len() == all.len(),
                forall|payload: &P| #[trigger] closed.requires((payload,)),
                forall|k: int| 0 <= k < all.len() ==> (#[trigger] all[k]).request.wf(),
                forall|k: int|
                    0 <= k < reversed@.len() ==> #[trigger] reversed@[k] == all[all.len() - 1 - k],
                forall|k: int|
                    0 <= k < flags.len() ==> closed.ensures((&all[k].payload,), #[trigger] flags[k]),
                wanted@ == still_wanted(all, flags, flags.len() as int),
                forall|k: int| 0 <= k < wanted@.len() ==> (#[trigger] wanted@[k]).request.wf(),
            decreases reversed@.len(),
        {
            let ghost before = flags;
            if let Some(request) = reversed.pop() {
                assert(request == all[before.len() as int]);
                let gone = closed(&request.payload);
                proof {
                    flags = flags.push(gone);
                    lemma_wanted_prefix(all, before, flags, before.len() as int);
                }
                if !gone {
                    wanted.push(request);
                }
                assert(wanted@ =~= still_wanted(all, flags, flags.len() as int));
            }
        }
        assert(are_closed(*closed, all, flags));
        let mut i: usize = 0;
        while i < wanted.len()
            invariant
                i <= wanted.len(),
                forall|k: int| 0 <= k < wanted@.len() ==> (#[trigger] wanted@[k]).request.wf(),
                first_startable(wanted@, *state, control_plane_lane_enabled, 0)
                    == first_startable(wanted@, *state, control_plane_lane_enabled, i as int),
                are_closed(*closed, old(self).pending@, flags),
                wanted@ == still_wanted(
                    old(self).pending@,
                    flags,
                    old(self).pending@.len() as int,
                ),
            decreases wanted.len() - i,
        {
            let properties = wanted[i].request.scheduling_properties(control_plane_lane_enabled);
            if state.can_start_request(properties, wanted[i].request.client_id.as_str()) {
                let selected = wanted.remove(i);
                self.pending = wanted;
                return Some(selected);
            }
            i = i + 1;
        }
        self.pending = wanted;
        None
    }

    /// Whether the stream of requests is over, when no more will come.
    pub fn is_finished(&self, senders_gone: bool) -> (finished: bool)
        ensures
            finished == (senders_gone && self.pending@.len() == 0),
    {
        senders_gone && self.pending.len() == 0
    }
}

proof fn lemma_wanted_prefix<P>(
    pending: Seq<InternalRequest<P>>,
    before: Seq<bool>,
    after: Seq<bool>,
    n: int,
)
    requires
        n <= before.len() <= after.len(),
        forall|k: int| 0 <= k < before.len() ==> #[trigger] after[k] == before[k],
    ensures
        still_wanted(pending, after, n) == still_wanted(pending, before, n),
    decreases n,
{
    if n > 0 {
        lemma_wanted_prefix(pending, before, after, n - 1);
        assert(after[n - 1] == before[n - 1]);
    }
}

/// How many requests workers hold, as it is shown outside.
#[derive(Clone, Copy, Debug, PartialEq, Eq, Structural)]
pub struct ActiveWorkers {
    pub count: usize,
}

pub open spec fn active_request_update(
    operation: MetricOperation,
    pool: Seq<char>,
    properties: RequestSchedulingProperties,
) -> UpdateView {
    update(
        operation,
        "isolate_scheduler_active_requests_info"@,
        MetricValue::Integer(1),
        seq![
            ("pool_name"@, pool),
            ("scheduler_class"@, properties.label()),
            ("is_isolate_action"@, bool_text(properties.is_isolate_action)),
        ],
    )
}

impl ActiveWorkers {
    /// A request goes to a worker.
    pub fn start(
        &mut self,
        pool_name: &'static str,
        scheduling_properties: RequestSchedulingProperties,
        log: &mut MetricLog,
    )
        requires
            old(self).count < usize::MAX,
            scheduling_properties.consistent(),
        ensures
            final(self).count == old(self).count + 1,
            final(log)@ == old(log)@.push(
                active_request_update(
                    MetricOperation::AddToGauge,
                    pool_name@,
                    scheduling_properties,
                ),
            ),
    {
        self.count = self.count + 1;
        log_scheduler_active_request_started(
            log,
            pool_name,
            scheduling_properties.as_label(),
            scheduling_properties.is_isolate_action,
        );
    }

    /// A request is done with, however it ended.
    pub fn finish(
        &mut self,
        pool_name: &'static str,
        scheduling_properties: RequestSchedulingProperties,
        log: &mut MetricLog,
    )
        requires
            old(self).count > 0,
            scheduling_properties.consistent(),
        ensures
            final(self).count == old(self).count - 1,
            final(log)@ == old(log)@.push(
                active_request_update(
                    MetricOperation::SubtractFromGauge,
                    pool_name@,
                    scheduling_properties,
                ),
            ),
    {
        self.count = self.count - 1;
        log_scheduler_active_request_finished(
            log,
            pool_name,
            scheduling_properties.as_label(),
            scheduling_properties.is_isolate_action,
        );
    }
}

/// What is ready in the loop of the scheduler.
#[derive(Clone, Copy, Debug, PartialEq, Eq, Structural)]
pub struct SchedulerReadiness {
    pub completed_worker: bool,
    pub queue_metrics_due: bool,
    pub request: bool,
    pub expired: bool,
    pub heap_stats_due: bool,
}

/// What the loop of the scheduler does next.
#[derive(Clone, Copy, Debug, PartialEq, Eq, Structural)]
pub enum SchedulerBranch {
    CompletedWorker,
    ReportQueue,
    TakeRequest,
    TakeExpired,
    ReportHeap,
}

/// Why the loop of the scheduler ends.
#[derive(Clone, Copy, Debug, PartialEq, Eq, Structural)]
pub enum SchedulerStop {
    WorkerShutDownUncleanly,
    RequestSendersGone,
    WorkerDied,
}

/// A request that was given a worker, but that the worker has not taken yet.
pub struct PendingDispatch {
    pub client_id: String,
    pub scheduling_properties: RequestSchedulingProperties,
    pub selection: WorkerSelection,
    pub dispatch_sojourn: Option<(IsolateQueueLane, Duration)>,
    pub dependency_reserve_dispatch: bool,
}

/// What is done with a request that is ready to run.
pub enum RequestStep {
    /// The caller went away.
    Drop,
    Reject(RejectionError),
    /// The request is sent to a worker. A worker that does not exist yet is started first.
    Send(usize),
    Stop(SchedulerStop),
}

/// The loop of the scheduler.
pub struct SchedulerLoop {
    pool_name: &'static str,
    scheduler: SharedIsolateScheduler,
    dispatch: Option<PendingDispatch>,
    expiration_open: bool,
    queue_metrics_enabled: bool,
    stopped: Option<SchedulerStop>,
}

/// What a `SchedulerLoop` holds.
#[verifier::ext_equal]
pub struct LoopModel {
    pub pool: Seq<char>,
    pub scheduler: SchedulerModel,
    pub lane_enabled: bool,
    pub dispatch: Option<PendingDispatch>,
    /// Whether the companion that looks for expired requests is still there.
    pub expiration_open: bool,
    pub queue_metrics_enabled: bool,
    pub stopped: Option<SchedulerStop>,
}

impl View for SchedulerLoop {
    type V = LoopModel;

    closed spec fn view(&self) -> LoopModel {
        LoopModel {
            pool: self.pool_name@,
            scheduler: self.scheduler@,
            lane_enabled: self.scheduler.lane_enabled(),
            dispatch: self.dispatch,
            expiration_open: self.expiration_open,
            queue_metrics_enabled: self.queue_metrics_enabled,
            stopped: self.stopped,
        }
    }
}

impl LoopModel {
    /// What the loop does next, in order of importance: workers that are done come first, and
    /// requests that are ready to run come before those that expired.
    pub open spec fn branch(self, ready: SchedulerReadiness) -> Option<SchedulerBranch> {
        if self.scheduler.active.len() > 0 && ready.completed_worker {
            Some(SchedulerBranch::CompletedWorker)
        } else if self.queue_metrics_enabled && ready.queue_metrics_due {
            Some(SchedulerBranch::ReportQueue)
        } else if ready.request {
            Some(SchedulerBranch::TakeRequest)
        } else if self.expiration_open && ready.expired {
            Some(SchedulerBranch::TakeExpired)
        } else if ready.heap_stats_due {
            Some(SchedulerBranch::ReportHeap)
        } else {
            None
        }
    }

    /// What holds of every loop: the scheduler is in order, and a worker that is about to get a
    /// request is free.
    pub open spec fn in_order(self) -> bool {
        &&& self.scheduler.in_order()
        &&& self.dispatch matches Some(dispatch) ==> {
            &&& dispatch.scheduling_properties.consistent()
            &&& dispatch.selection.worker_id < self.scheduler.workers
            &&& !self.scheduler.is_idle(dispatch.selection.worker_id as nat)
            &&& !self.scheduler.is_active(dispatch.selection.worker_id as nat)
            &&& self.scheduler.active.len() < self.scheduler.limits.max_workers
        }
        &&& self.scheduler.idle.len() + self.scheduler.active.len() + (if self.dispatch is Some {
            1int
        } else {
            0int
        }) == self.scheduler.workers
    }

    /// Whether the request would use the reserve.
    pub open spec fn uses_reserve(self, properties: RequestSchedulingProperties) -> bool {
        properties.unblocks_ancestor && all_counts(self.scheduler.active).total
            >= self.scheduler.limits.base_worker_capacity
    }
}

impl SchedulerLoop {
    /// Whether the loop is in order.
    pub closed spec fn wf(self) -> bool {
        &&& self.scheduler.wf()
        &&& self.scheduler.pool() == self.pool_name@
        &&& self@.in_order()
    }

    /// Starts the loop, without workers.
    pub fn start(
        pool_name: &'static str,
        max_workers: usize,
        base_worker_capacity: usize,
        max_independent_actions: usize,
        max_percent_per_client: usize,
        control_plane_lane_enabled: bool,
        queue_metrics_enabled: bool,
        log: &mut MetricLog,
    ) -> (run: SchedulerLoop)
        requires
            base_worker_capacity <= max_workers,
        ensures
            run.wf(),
            run@ == (LoopModel {
                pool: pool_name@,
                scheduler: SchedulerModel {
                    idle: Seq::empty(),
                    active: Seq::empty(),
                    workers: 0,
                    limits: crate::scheduler::limits_of(
                        max_workers,
                        base_worker_capacity,
                        max_independent_actions,
                        max_percent_per_client,
                    ),
                },
                lane_enabled: control_plane_lane_enabled,
                dispatch: None,
                expiration_open: true,
                queue_metrics_enabled,
                stopped: None,
            }),
            final(log)@ == old(log)@ + crate::scheduler::start_updates(
                pool_name@,
                run@.scheduler.limits,
            ),
    {
        let scheduler = SharedIsolateScheduler::new(
            pool_name,
            max_workers,
            base_worker_capacity,
            max_independent_actions,
            max_percent_per_client,
            control_plane_lane_enabled,
        );
        proof {
            scheduler_stays_in_order(scheduler);
        }
        scheduler.announce(log);
        SchedulerLoop {
            pool_name,
            scheduler,
            dispatch: None,
            expiration_open: true,
            queue_metrics_enabled,
            stopped: None,
        }
    }

    /// What the loop does next.
    pub fn next_branch(&self, ready: SchedulerReadiness) -> (branch: Option<SchedulerBranch>)
        ensures
            branch == self@.branch(ready),
    {
        if self.scheduler.active_count() > 0 && ready.completed_worker {
            Some(SchedulerBranch::CompletedWorker)
        } else if self.queue_metrics_enabled && ready.queue_metrics_due {
            Some(SchedulerBranch::ReportQueue)
        } else if ready.request {
            Some(SchedulerBranch::TakeRequest)
        } else if self.expiration_open && ready.expired {
            Some(SchedulerBranch::TakeExpired)
        } else if ready.heap_stats_due {
            Some(SchedulerBranch::ReportHeap)
        } else {
            None
        }
    }

    /// The requests that are being served now, and the limits.
    pub fn state_snapshot(&self) -> (snapshot: SchedulerStateSnapshot)
        requires
            self.wf(),
        ensures
            snapshot.limits() == self@.scheduler.limits,
            snapshot.active_counts == all_counts(self@.scheduler.active),
            forall|client: Seq<char>|
                #![trigger snapshot.client_counts(client)]
                snapshot.client_counts(client) == client_counts(self@.scheduler.active, client),
    {
        self.scheduler.state_snapshot()
    }

    /// A worker is done with its request, or went away without saying so.
    pub fn worker_completed(
        &mut self,
        worker_id: usize,
        cached_contexts: Option<CachedContexts>,
        now: Moment,
        log: &mut MetricLog,
    )
        requires
            old(self).wf(),
            old(self)@.stopped is None,
            old(self)@.scheduler.is_active(worker_id as nat),
            old(self)@.dispatch is None,
        ensures
            final(self).wf(),
            match cached_contexts {
                Some(contexts) => exists|i: int|
                    #![trigger old(self)@.scheduler.active[i]]
                    0 <= i < old(self)@.scheduler.active.len() && old(
                        self)@.scheduler.active[i].worker_id == worker_id && final(self)@ == (
                    LoopModel {
                        scheduler: old(self)@.scheduler.completed(i, now@, contexts@),
                        ..old(self)@
                    }) && final(log)@ == old(log)@.push(
                        running_update(
                            old(self)@.pool,
                            client_active(
                                final(self)@.scheduler.active,
                                old(self)@.scheduler.active[i].client,
                            ).0,
                            old(self)@.scheduler.active[i].client,
                        ),
                    ),
                None => final(self)@ == (LoopModel {
                    stopped: Some(SchedulerStop::WorkerShutDownUncleanly),
                    ..old(self)@
                }) && final(log)@ == old(log)@,
            },
    {
        match cached_contexts {
            Some(contexts) => {
                self.scheduler.handle_completed_worker(worker_id, contexts, now, log);
                proof {
                    scheduler_stays_in_order(self.scheduler);
                }
            },
            None => {
                self.stopped = Some(SchedulerStop::WorkerShutDownUncleanly);
            },
        }
    }

    /// The contexts of a worker changed while it had no work.
    pub fn contexts_changed(&mut self, worker_id: usize, contexts: CachedContexts)
        requires
            old(self).wf(),
        ensures
            final(self).wf(),
            final(self)@ == (LoopModel {
                scheduler: old(self)@.scheduler.with_contexts(worker_id as nat, contexts@),
                ..old(self)@
            }),
    {
        let ghost before = self@.scheduler;
        self.scheduler.contexts_changed(worker_id, contexts);
        proof {
            scheduler_stays_in_order(self.scheduler);
            let after = self@.scheduler;
            if let Some(dispatch) = self@.dispatch {
                let chosen = dispatch.selection.worker_id as nat;
                assert forall|i: int| 0 <= i < after.idle.len() implies (
                #[trigger] after.idle[i]).worker_id != chosen by {
                    assert(after.idle[i].worker_id == before.idle[i].worker_id);
                }
            }
        }
    }

    /// A request is ready to run, or no more will come.
    pub fn request_ready(
        &mut self,
        request: Option<&Request>,
        response_closed: bool,
        dispatch_sojourn: Option<(IsolateQueueLane, Duration)>,
        reuse_http_action_contexts: bool,
        now: Moment,
        log: &mut MetricLog,
    ) -> (step: RequestStep)
        requires
            old(self).wf(),
            old(self)@.stopped is None,
            old(self)@.dispatch is None,
            request matches Some(request) ==> request.wf(),
        ensures
            final(self).wf(),
            match request {
                None => {
                    &&& step == RequestStep::Stop(SchedulerStop::RequestSendersGone)
                    &&& final(self)@ == (LoopModel {
                        stopped: Some(SchedulerStop::RequestSendersGone),
                        ..old(self)@
                    })
                    &&& final(log)@ == old(log)@
                },
                Some(request) => {
                    let properties = request.properties(old(self)@.lane_enabled);
                    if response_closed {
                        &&& step is Drop
                        &&& final(self)@ == old(self)@
                        &&& final(log)@ == old(log)@ + caller_dropped_updates(
                            old(self)@.pool,
                            properties,
                        )
                    } else {
                        match rejection_of(
                            old(self)@.scheduler.eligibility(properties, request.client_id@),
                        ) {
                            Some(reason) => {
                                &&& step matches RequestStep::Reject(error) && rejection_texts(
                                    error,
                                ) == reason.error()
                                &&& final(self)@ == old(self)@
                                &&& final(log)@ == old(log)@.push(
                                    request_rejected_update(
                                        old(self)@.pool,
                                        properties,
                                        "no_worker"@,
                                    ),
                                ).push(rejection_counted(reason))
                            },
                            None => exists|selection: WorkerSelection, shown: Seq<UpdateView>|
                                #![trigger is_dispatch(
                                    old(self)@,
                                    *request,
                                    dispatch_sojourn,
                                    reuse_http_action_contexts,
                                    now@,
                                    selection,
                                    shown,
                                    final(self)@,
                                )]
                                is_dispatch(
                                    old(self)@,
                                    *request,
                                    dispatch_sojourn,
                                    reuse_http_action_contexts,
                                    now@,
                                    selection,
                                    shown,
                                    final(self)@,
                                ) && step == RequestStep::Send(selection.worker_id) && final(log)@
                                    == old(log)@ + shown,
                        }
                    }
                },
            },
    {
        let request = match request {
            Some(request) => request,
            None => {
                self.stopped = Some(SchedulerStop::RequestSendersGone);
                return RequestStep::Stop(SchedulerStop::RequestSendersGone);
            },
        };
        let lane_enabled = self.scheduler.control_plane_lane_enabled();
        let properties = request.scheduling_properties(lane_enabled);
        if response_closed {
            log_scheduler_caller_dropped(self.pool_name, properties, log);
            return RequestStep::Drop;
        }
        let ghost before = self@;
        let dispatch_state = self.scheduler.state_snapshot();
        let dependency_reserve_dispatch = properties.unblocks_ancestor
            && dispatch_state.dependency_dispatch_uses_reserve();
        proof {
            assert(dispatch_state.client_counts(request.client_id@) == client_counts(
                before.scheduler.active,
                request.client_id@,
            ));
            assert(dispatch_state.eligibility(properties, request.client_id@)
                == before.scheduler.eligibility(properties, request.client_id@));
            if before.scheduler.eligibility(properties, request.client_id@).can_start() {
                crate::scheduler::eligible_requests_find_workers(
                    before.scheduler,
                    properties,
                    request.client_id@,
                );
            }
        }
        let selection = match self.scheduler.get_worker(
            request,
            &dispatch_state,
            reuse_http_action_contexts,
            now,
            log,
        ) {
            Ok(selection) => selection,
            Err(reason) => {
                log_scheduler_request_rejected(
                    log,
                    self.pool_name,
                    properties.as_label(),
                    "no_worker",
                );
                return RequestStep::Reject(rejected_before_execution_error(log, reason));
            },
        };
        let ghost after = self.scheduler@;
        let ghost shown = choose|shown: Seq<UpdateView>|
            #![trigger old(log)@ + shown]
            before.scheduler.is_selection(
                request.client_id@,
                request.context_kind(reuse_http_action_contexts),
                request.module_view(),
                now@,
                selection,
                after,
                shown,
            ) && log@ == old(log)@ + shown;
        proof {
            chosen_workers_are_free(
                before.scheduler,
                request.client_id@,
                request.context_kind(reuse_http_action_contexts),
                request.module_view(),
                now@,
                selection,
                after,
                shown,
            );
            lemma_selection_takes_one(
                before.scheduler,
                request.client_id@,
                request.context_kind(reuse_http_action_contexts),
                request.module_view(),
                now@,
                selection,
                after,
                shown,
            );
        }
        self.dispatch =
        Some(
            PendingDispatch {
                client_id: request.client_id.clone(),
                scheduling_properties: properties,
                selection,
                dispatch_sojourn,
                dependency_reserve_dispatch,
            },
        );
        assert(is_dispatch(
            before,
            *request,
            dispatch_sojourn,
            reuse_http_action_contexts,
            now@,
            selection,
            shown,
            self@,
        ));
        RequestStep::Send(selection.worker_id)
    }

    /// The worker took the request that it was sent, or is gone. A worker without work has room for
    /// a request, so one that takes none is shut down, and the loop ends.
    pub fn sent(&mut self, accepted: bool, log: &mut MetricLog)
        requires
            old(self).wf(),
            old(self)@.stopped is None,
            old(self)@.dispatch is Some,
        ensures
            final(self).wf(),
            if accepted {
                let dispatch = old(self)@.dispatch->0;
                let active = old(self)@.scheduler.active.push(
                    ActiveModel {
                        worker_id: dispatch.selection.worker_id as nat,
                        client: dispatch.client_id@,
                        properties: dispatch.scheduling_properties,
                    },
                );
                &&& final(self)@ == (LoopModel {
                    scheduler: SchedulerModel { active, ..old(self)@.scheduler },
                    dispatch: None,
                    ..old(self)@
                })
                &&& final(log)@ == old(log)@ + dispatch_updates(
                    old(self)@.pool,
                    dispatch.client_id@,
                    dispatch.scheduling_properties,
                    dispatch.selection.context_affinity,
                    dispatch.dispatch_sojourn,
                    client_active(active, dispatch.client_id@).0,
                    dispatch.dependency_reserve_dispatch,
                )
            } else {
                &&& final(self)@ == (LoopModel {
                    stopped: Some(SchedulerStop::WorkerDied),
                    ..old(self)@
                })
                &&& final(log)@ == old(log)@
            },
    {
        if !accepted {
            self.stopped = Some(SchedulerStop::WorkerDied);
            return ;
        }
        if let Some(dispatch) = self.dispatch.take() {
            self.scheduler.record_dispatch(
                dispatch.client_id,
                dispatch.scheduling_properties,
                dispatch.selection,
                dispatch.dispatch_sojourn,
                dispatch.dependency_reserve_dispatch,
                log,
            );
            proof {
                scheduler_stays_in_order(self.scheduler);
            }
        }
    }

    /// The companion found a request that expired, or nothing more to look for. The loop does not
    /// end with the companion: a request that was selected may still wait for its permit.
    pub fn expired(
        &mut self,
        scheduling_properties: Option<RequestSchedulingProperties>,
        log: &mut MetricLog,
    ) -> (error: Option<RejectionError>)
        requires
            old(self).wf(),
            old(self)@.stopped is None,
            scheduling_properties matches Some(properties) ==> properties.consistent(),
        ensures
            final(self).wf(),
            match scheduling_properties {
                Some(properties) => {
                    &&& error matches Some(error) && rejection_texts(error)
                        == RejectedBeforeExecutionReason::ExpiredInQueue.error()
                    &&& final(self)@ == old(self)@
                    &&& final(log)@ == old(log)@ + queue_rejection_updates(
                        old(self)@.pool,
                        properties,
                        IsolateQueueRejection::HardExpired,
                    )
                },
                None => {
                    &&& error is None
                    &&& final(self)@ == (LoopModel { expiration_open: false, ..old(self)@ })
                    &&& final(log)@ == old(log)@
                },
            },
    {
        match scheduling_properties {
            Some(properties) => Some(
                reject_queued_request(
                    properties,
                    IsolateQueueRejection::HardExpired,
                    self.pool_name,
                    log,
                ),
            ),
            None => {
                self.expiration_open = false;
                None
            },
        }
    }

    /// Why the loop ended, if it did.
    pub fn stopped(&self) -> (stop: Option<SchedulerStop>)
        ensures
            stop == self@.stopped,
    {
        self.stopped
    }

    /// Whether a worker serves a request.
    pub fn is_active(&self, worker_id: usize) -> (active: bool)
        ensures
            active == self@.scheduler.is_active(worker_id as nat),
    {
        self.scheduler.is_active(worker_id)
    }

    /// How many workers serve requests.
    pub fn active_count(&self) -> (count: usize)
        ensures
            count == self@.scheduler.active.len(),
    {
        self.scheduler.active_count()
    }
}

/// Whether a selection and a loop are those of a request that is sent to a worker.
pub open spec fn is_dispatch(
    before: LoopModel,
    request: Request,
    dispatch_sojourn: Option<(IsolateQueueLane, Duration)>,
    reuse_http_action_contexts: bool,
    now: nat,
    selection: WorkerSelection,
    shown: Seq<UpdateView>,
    after: LoopModel,
) -> bool {
    let properties = request.properties(before.lane_enabled);
    &&& before.scheduler.is_selection(
        request.client_id@,
        request.context_kind(reuse_http_action_contexts),
        request.module_view(),
        now,
        selection,
        after.scheduler,
        shown,
    )
    &&& after.dispatch matches Some(dispatch) && {
        &&& dispatch.client_id@ == request.client_id@
        &&& dispatch.scheduling_properties == properties
        &&& dispatch.selection == selection
        &&& dispatch.dispatch_sojourn == dispatch_sojourn
        &&& dispatch.dependency_reserve_dispatch == before.uses_reserve(properties)
    }
    &&& after == LoopModel { scheduler: after.scheduler, dispatch: after.dispatch, ..before }
}

proof fn lemma_selection_takes_one(
    before: SchedulerModel,
    client: Seq<char>,
    kind: Option<crate::context_kind::ReusableContextKind>,
    module: Option<crate::component::ModulePathView>,
    now: nat,
    selection: WorkerSelection,
    after: SchedulerModel,
    shown: Seq<UpdateView>,
)
    requires
        before.is_selection(client, kind, module, now, selection, after, shown),
    ensures
        after.workers - after.idle.len() == before.workers - before.idle.len() + 1,
{
    crate::scheduler::own_workers_are_idle(before, client, kind, module);
}

/// As long as a loop has not ended, every worker is idle, active or about to get a request, and no
/// worker is two of these.
pub proof fn every_worker_is_accounted_for(run: SchedulerLoop)
    requires
        run.wf(),
    ensures
        run@.in_order(),
{
}

/// Workers that are done come before all else, and requests that are ready to run come before those
/// that expired.
pub proof fn ready_requests_come_before_expired_ones(run: LoopModel, ready: SchedulerReadiness)
    ensures
        ready.completed_worker && run.scheduler.active.len() > 0 ==> run.branch(ready) == Some(
            SchedulerBranch::CompletedWorker,
        ),
        ready.request ==> run.branch(ready) != Some(SchedulerBranch::TakeExpired),
        !run.expiration_open ==> run.branch(ready) != Some(SchedulerBranch::TakeExpired),
{
}

/// A request gets a permit only if one is there, its caller is still there, its timer has not
/// elapsed, and its deadline has not come. A caller that went away always ends the wait, and the
/// wait goes on exactly while nothing happened.
pub proof fn late_permits_are_not_used<P>(
    response_closed: bool,
    timer_elapsed: bool,
    permit: Option<P>,
    now: nat,
    permit_deadline: nat,
)
    ensures
        ({
            let outcome = permit_wait(response_closed, timer_elapsed, permit, now, permit_deadline);
            &&& outcome matches Some(ExternalPermitWaitOutcome::Acquired(got)) ==> permit == Some(got)
                && !response_closed && !timer_elapsed && now < permit_deadline
            &&& permit is Some && !response_closed && !timer_elapsed && now < permit_deadline
                ==> outcome == Some(ExternalPermitWaitOutcome::Acquired(permit->0))
            &&& response_closed <==> outcome is Some && outcome->0 is CallerDropped
            &&& outcome is None <==> !response_closed && !timer_elapsed && permit is None
        }),
{
}

/// Of the requests that wait, exactly those stay whose callers are still there, in their order.
pub proof fn abandoned_requests_are_forgotten<P>(
    pending: Seq<InternalRequest<P>>,
    flags: Seq<bool>,
    n: int,
)
    requires
        0 <= n <= pending.len(),
        flags.len() == pending.len(),
    ensures
        still_wanted(pending, flags, n) == pending.zip_with(flags).take(n).filter(
            |waiting: (InternalRequest<P>, bool)| !waiting.1,
        ).map_values(|waiting: (InternalRequest<P>, bool)| waiting.0),
    decreases n,
{
    reveal(Seq::filter);
    let all = pending.zip_with(flags);
    let kept = |waiting: (InternalRequest<P>, bool)| !waiting.1;
    let request = |waiting: (InternalRequest<P>, bool)| waiting.0;
    if n > 0 {
        abandoned_requests_are_forgotten(pending, flags, n - 1);
        let taken = all.take(n);
        assert(taken.drop_last() =~= all.take(n - 1));
        assert(taken.last() == (pending[n - 1], flags[n - 1]));
        let before = all.take(n - 1).filter(kept);
        assert(taken.filter(kept) == if kept(taken.last()) {
            before.push(taken.last())
        } else {
            before
        });
        assert(before.push(taken.last()).map_values(request) =~= before.map_values(request).push(
            pending[n - 1],
        ));
    } else {
        assert(all.take(0).filter(kept) =~= Seq::empty());
        assert(all.take(0).filter(kept).map_values(request) =~= Seq::empty());
    }
}

/// The request that starts is the first one that can, and if none starts, none can.
pub proof fn the_first_that_can_start_starts<P>(
    pending: Seq<InternalRequest<P>>,
    state: SchedulerStateSnapshot,
    control_plane_lane_enabled: bool,
    i: int,
)
    requires
        0 <= i,
    ensures
        match first_startable(pending, state, control_plane_lane_enabled, i) {
            Some(k) => {
                &&& i <= k < pending.len()
                &&& state.eligibility(
                    pending[k].request.properties(control_plane_lane_enabled),
                    pending[k].request.client_id@,
                ).can_start()
                &&& forall|j: int|
                    i <= j < k ==> !state.eligibility(
                        (#[trigger] pending[j]).request.properties(control_plane_lane_enabled),
                        pending[j].request.client_id@,
                    ).can_start()
            },
            None => forall|j: int|
                i <= j < pending.len() ==> !state.eligibility(
                    (#[trigger] pending[j]).request.properties(control_plane_lane_enabled),
                    pending[j].request.client_id@,
                ).can_start(),
        },
    decreases pending.len() - i,
{
    if i < pending.len() {
        the_first_that_can_start_starts(pending, state, control_plane_lane_enabled, i + 1);
    }
}

/// What the loop does next is the most important thing that is ready: a worker that is done, a
/// report of the queue that is due, a request, a request that expired, and last a report of the
/// heaps; it waits only if none of them is ready.
pub proof fn the_most_important_comes_first(run: LoopModel, ready: SchedulerReadiness)
    ensures
        ({
            let done = ready.completed_worker && run.scheduler.active.len() > 0;
            let report = ready.queue_metrics_due && run.queue_metrics_enabled;
            let expired = ready.expired && run.expiration_open;
            let branch = run.branch(ready);
            &&& branch == Some(SchedulerBranch::CompletedWorker) <==> done
            &&& branch == Some(SchedulerBranch::ReportQueue) <==> report && !done
            &&& branch == Some(SchedulerBranch::TakeRequest) <==> ready.request && !done && !report
            &&& branch == Some(SchedulerBranch::TakeExpired) <==> expired && !ready.request && !done
                && !report
            &&& branch == Some(SchedulerBranch::ReportHeap) <==> ready.heap_stats_due && !expired
                && !ready.request && !done && !report
            &&& branch is None <==> !ready.heap_stats_due && !expired && !ready.request && !done
                && !report
        }),
{
}

/// A request uses the reserve if and only if another one waits for it and as many requests are being
/// served as all may have.
pub proof fn the_reserve_is_used_beyond_the_base(
    run: LoopModel,
    properties: RequestSchedulingProperties,
)
    requires
        run.scheduler.active.len() <= usize::MAX,
    ensures
        run.uses_reserve(properties) <==> properties.unblocks_ancestor && run.scheduler.active.len()
            >= run.scheduler.limits.base_worker_capacity,
{
    crate::scheduler::counts_are_those_of_the_served_requests(run.scheduler.active, Seq::empty());
}

/// A request whose caller went away is counted only if it serves a deployment, and then both as a
/// request that was rejected and as one that left its lane.
pub proof fn only_abandoned_deployments_are_counted(
    pool: Seq<char>,
    properties: RequestSchedulingProperties,
)
    requires
        properties.consistent(),
    ensures
        caller_dropped_updates(pool, properties).len() == (if properties.is_control_plane {
            2nat
        } else {
            0
        }),
        properties.is_control_plane ==> caller_dropped_updates(pool, properties)[1]
            == rejection_update(pool, IsolateQueueLane::ControlPlane, "caller_dropped"@),
{
}

/// An internal request waits until its permit comes or its caller goes away; it gets the permit if
/// and only if the caller is still there, and is never given another.
pub proof fn internal_requests_wait_for_their_caller<P>(response_closed: bool, permit: Option<P>)
    ensures
        internal_wait(response_closed, permit) is None <==> !response_closed && permit is None,
        internal_wait(response_closed, permit) == Some(None::<P>) <==> response_closed,
        internal_wait(response_closed, permit) matches Some(Some(given)) ==> permit == Some(given),
{
}

} // verus!

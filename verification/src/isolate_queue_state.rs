//! What the senders and receivers of the isolate queue share.
//!
//! The queue lives as long as it has senders or receivers. A queue without receivers takes no more
//! requests, and the last receiver throws out what still waits. Every step records the metrics of
//! the queue and says which waiting receivers have to look at the queue again.
use std::collections::VecDeque;
use vstd::prelude::*;
use vstd::std_specs::vecdeque::*;

use crate::isolate_queue::{
    counts_blocked, entry_models, first_due, is_attempt, judges, oldest_age,
    ControllerTransitions, IneligibleCounts, IsolateDelayQueue, IsolateQueueConfig,
    IsolateQueueEligibility, IsolateQueueIneligibilityReason, IsolateQueueLane, IsolateQueueOutput,
    IsolateQueueRejection, IsolateQueueSendError, PopModel, QueueEntry, QueueModel, QueuePop,
    SelectionAttempt,
};
use crate::metric_log::{counter, flag, gauge, update, MetricLog, MetricOperation, MetricValue, UpdateView};
use crate::metrics::{
    log_isolate_queue_config, log_isolate_queue_depth, log_isolate_queue_ineligible,
    log_isolate_queue_oldest_age, log_isolate_queue_overload_transition,
    log_isolate_queue_overloaded, log_isolate_queue_policy, log_isolate_queue_rejection,
};
use crate::time::{duration, duration_of_its_nanos, elapsed_since, Duration, Moment};

verus! {

broadcast use duration_of_its_nanos;

/// The lane of a number.
pub open spec fn lane_of(i: int) -> IsolateQueueLane {
    if i == 0 {
        IsolateQueueLane::Dependency
    } else if i == 1 {
        IsolateQueueLane::ControlPlane
    } else if i == 2 {
        IsolateQueueLane::IndependentAction
    } else {
        IsolateQueueLane::Ordinary
    }
}

fn lane_at(i: usize) -> (lane: IsolateQueueLane)
    ensures
        lane == lane_of(i as int),
{
    match i {
        0 => IsolateQueueLane::Dependency,
        1 => IsolateQueueLane::ControlPlane,
        2 => IsolateQueueLane::IndependentAction,
        _ => IsolateQueueLane::Ordinary,
    }
}

/// The reason of a number.
pub open spec fn reason_of(i: int) -> IsolateQueueIneligibilityReason {
    if i == 0 {
        IsolateQueueIneligibilityReason::PhysicalTotal
    } else if i == 1 {
        IsolateQueueIneligibilityReason::SharedBase
    } else if i == 2 {
        IsolateQueueIneligibilityReason::PerClientTotal
    } else if i == 3 {
        IsolateQueueIneligibilityReason::PerClientBase
    } else {
        IsolateQueueIneligibilityReason::IndependentActionCap
    }
}

fn reason_at(i: usize) -> (reason: IsolateQueueIneligibilityReason)
    ensures
        reason == reason_of(i as int),
{
    match i {
        0 => IsolateQueueIneligibilityReason::PhysicalTotal,
        1 => IsolateQueueIneligibilityReason::SharedBase,
        2 => IsolateQueueIneligibilityReason::PerClientTotal,
        3 => IsolateQueueIneligibilityReason::PerClientBase,
        _ => IsolateQueueIneligibilityReason::IndependentActionCap,
    }
}

/// The labels of a lane of a pool.
pub open spec fn lane_labels(pool: Seq<char>, lane: IsolateQueueLane) -> Seq<
    (Seq<char>, Seq<char>),
> {
    seq![("pool_name"@, pool), ("lane"@, lane.label())]
}

pub open spec fn depth_update<T>(
    pool: Seq<char>,
    queue: QueueModel<T>,
    lane: IsolateQueueLane,
) -> UpdateView {
    gauge("isolate_queue_depth_info"@, queue.depth(lane) as int, lane_labels(pool, lane))
}

pub open spec fn age_update(pool: Seq<char>, lane: IsolateQueueLane, age: nat) -> UpdateView {
    update(
        MetricOperation::SetGauge,
        "isolate_queue_oldest_age_seconds"@,
        MetricValue::Seconds(duration(age)),
        lane_labels(pool, lane),
    )
}

pub open spec fn overloaded_update<T>(
    pool: Seq<char>,
    queue: QueueModel<T>,
    lane: IsolateQueueLane,
) -> UpdateView {
    gauge(
        "isolate_queue_overloaded_info"@,
        flag(queue.controllers[lane.number()].overloaded),
        lane_labels(pool, lane),
    )
}

/// What the metrics show of the first `n` lanes.
pub open spec fn state_updates<T>(
    pool: Seq<char>,
    queue: QueueModel<T>,
    now: nat,
    n: int,
) -> Seq<UpdateView>
    decreases n,
{
    if n <= 0 {
        Seq::empty()
    } else {
        let lane = lane_of(n - 1);
        state_updates(pool, queue, now, n - 1).push(depth_update(pool, queue, lane)).push(
            age_update(pool, lane, oldest_age(queue.entries, lane, now)),
        ).push(overloaded_update(pool, queue, lane))
    }
}

/// What the metrics show of a lane after a request came or left. The age of the oldest request
/// grows by itself and is shown by the regular report; an empty lane shows no age at once.
pub open spec fn lane_updates<T>(
    pool: Seq<char>,
    queue: QueueModel<T>,
    lane: IsolateQueueLane,
) -> Seq<UpdateView> {
    if queue.depth(lane) == 0 {
        seq![
            depth_update(pool, queue, lane),
            age_update(pool, lane, 0),
            overloaded_update(pool, queue, lane),
        ]
    } else {
        seq![depth_update(pool, queue, lane), overloaded_update(pool, queue, lane)]
    }
}

/// What the metrics show of the first `n` pairs of a lane and a reason: the counts that differ
/// from those shown before.
pub open spec fn ineligible_updates(
    pool: Seq<char>,
    shown: Option<IneligibleCounts>,
    counts: IneligibleCounts,
    n: int,
) -> Seq<UpdateView>
    decreases n,
{
    if n <= 0 {
        Seq::empty()
    } else {
        let before = ineligible_updates(pool, shown, counts, n - 1);
        let lane = lane_of((n - 1) / 5);
        let reason = reason_of((n - 1) % 5);
        let count = counts.count(lane, reason);
        if shown matches Some(shown) && shown.count(lane, reason) == count {
            before
        } else {
            before.push(
                gauge(
                    "isolate_queue_ineligible_info"@,
                    count as int,
                    lane_labels(pool, lane).push(("reason"@, reason.label())),
                ),
            )
        }
    }
}

pub open spec fn transition_update(
    pool: Seq<char>,
    lane: IsolateQueueLane,
    transition: Seq<char>,
) -> UpdateView {
    counter(
        "isolate_queue_overload_transitions_total"@,
        1,
        lane_labels(pool, lane).push(("transition"@, transition)),
    )
}

pub open spec fn rejection_update(
    pool: Seq<char>,
    lane: IsolateQueueLane,
    reason: Seq<char>,
) -> UpdateView {
    counter(
        "isolate_queue_rejections_total"@,
        1,
        lane_labels(pool, lane).push(("reason"@, reason)),
    )
}

/// What the metrics count when a request leaves the queue.
pub open spec fn pop_updates<T>(pool: Seq<char>, pop: PopModel<T>) -> Seq<UpdateView> {
    (if pop.transitions.entered {
        seq![transition_update(pool, pop.lane, "entered"@)]
    } else {
        Seq::empty()
    }) + (if pop.transitions.cleared {
        seq![transition_update(pool, pop.lane, "cleared"@)]
    } else {
        Seq::empty()
    }) + match pop.output.rejection {
        Some(rejection) => seq![rejection_update(pool, pop.lane, rejection.label())],
        None => Seq::empty(),
    }
}

/// What the metrics count of the first `n` lanes when the queue is thrown out.
pub open spec fn drain_updates<T>(pool: Seq<char>, queue: QueueModel<T>, n: int) -> Seq<
    UpdateView,
>
    decreases n,
{
    if n <= 0 {
        Seq::empty()
    } else {
        let before = drain_updates(pool, queue, n - 1);
        if queue.controllers[n - 1].overloaded {
            before.push(transition_update(pool, lane_of(n - 1), "cleared"@))
        } else {
            before
        }
    }
}

/// A limit that the metrics show.
pub open spec fn config_update(pool: Seq<char>, kind: Seq<char>, value: Duration) -> UpdateView {
    update(
        MetricOperation::SetGauge,
        "isolate_queue_config_millis_info"@,
        MetricValue::Milliseconds(value),
        seq![("pool_name"@, pool), ("config_kind"@, kind)],
    )
}

/// The policy and the limits that the metrics show.
pub open spec fn policy_updates(pool: Seq<char>, config: IsolateQueueConfig) -> Seq<UpdateView> {
    seq![
        gauge(
            "isolate_queue_policy_info"@,
            1,
            seq![("pool_name"@, pool), ("policy"@, "lane_delay_control"@)],
        ),
        config_update(pool, "target_millis"@, config.target),
        config_update(pool, "interval_millis"@, config.interval),
        config_update(pool, "hard_max_age_millis"@, config.hard_max_age),
        config_update(pool, "control_plane_hard_max_age_millis"@, config.control_plane_hard_max_age),
    ]
}

/// Which receivers that wait have to look at the queue again.
#[derive(Clone, Copy, Debug, PartialEq, Eq, Structural)]
pub enum ReceiverWake {
    Nobody,
    /// One more than those that were woken already.
    OneMore,
    Everybody,
}

/// Whom a step wakes: receivers, and the companions that wait for requests to expire.
#[derive(Clone, Copy, Debug, PartialEq, Eq, Structural)]
pub struct QueueWake {
    pub receivers: ReceiverWake,
    pub expiry_companions: bool,
}

impl QueueWake {
    pub open spec fn nobody() -> QueueWake {
        QueueWake { receivers: ReceiverWake::Nobody, expiry_companions: false }
    }

    pub open spec fn everybody() -> QueueWake {
        QueueWake { receivers: ReceiverWake::Everybody, expiry_companions: true }
    }
}

/// What a receiver does next.
pub enum ReceiveStep<T> {
    /// Hands on a request that left the queue.
    Ready(IsolateQueueOutput<T>),
    /// Ends: nothing will come.
    Closed,
    /// Waits until it is woken, or until a request reaches its deadline.
    Wait(Option<Moment>),
}

/// What a receiver does with its timer.
#[derive(Clone, Copy, Debug, PartialEq, Eq, Structural)]
pub enum TimerStep {
    /// Drops it: there is no deadline.
    Clear,
    /// Goes on waiting for it.
    Keep,
    /// Starts one for a deadline.
    Arm { deadline: Moment, wait: Duration },
}

/// What a receiver does with its timer, by the deadline that it is set for and the next one: it
/// keeps it, or it drops it and waits for so long, if there is a deadline at all.
pub open spec fn timer_change(armed: Option<nat>, deadline: Option<nat>, now: nat) -> Option<
    Option<nat>,
> {
    match deadline {
        None => Some(None),
        Some(deadline) => if armed == Some(deadline) {
            None
        } else {
            Some(Some(elapsed_since(deadline, now)))
        },
    }
}

/// Whether the timer of a receiver still fits the next deadline of the queue.
pub fn expiration_timer(armed: Option<Moment>, deadline: Option<Moment>, now: Moment) -> (step:
    TimerStep)
    ensures
        match deadline {
            None => step == TimerStep::Clear,
            Some(deadline) => if armed matches Some(armed) && armed@ == deadline@ {
                step == TimerStep::Keep
            } else {
                step matches TimerStep::Arm { deadline: at, wait } && at == deadline && wait@
                    == elapsed_since(deadline@, now@)
            },
        },
        timer_change(
            match armed {
                Some(armed) => Some(armed@),
                None => None,
            },
            match deadline {
                Some(deadline) => Some(deadline@),
                None => None,
            },
            now@,
        ) == (match step {
            TimerStep::Clear => Some(None::<nat>),
            TimerStep::Keep => None,
            TimerStep::Arm { wait, .. } => Some(Some(wait@)),
        }),
{
    match deadline {
        None => TimerStep::Clear,
        Some(deadline) => {
            let same = match armed {
                Some(armed) => armed.as_nanos() == deadline.as_nanos(),
                None => false,
            };
            if same {
                TimerStep::Keep
            } else {
                TimerStep::Arm { deadline, wait: deadline.saturating_duration_since(now) }
            }
        },
    }
}

/// The queue with its senders and receivers.
pub struct IsolateQueueState<T> {
    pool_name: &'static str,
    queue: IsolateDelayQueue<T>,
    senders: usize,
    receivers: usize,
    reported_ineligible: Option<IneligibleCounts>,
}

/// What an `IsolateQueueState` holds.
pub struct StateModel<T> {
    pub pool_name: Seq<char>,
    pub queue: QueueModel<T>,
    pub senders: nat,
    pub receivers: nat,
    pub reported_ineligible: Option<IneligibleCounts>,
}

impl<T> View for IsolateQueueState<T> {
    type V = StateModel<T>;

    closed spec fn view(&self) -> StateModel<T> {
        StateModel {
            pool_name: self.pool_name@,
            queue: self.queue@,
            senders: self.senders as nat,
            receivers: self.receivers as nat,
            reported_ineligible: self.reported_ineligible,
        }
    }
}

/// No requests are blocked.
pub open spec fn none_blocked(counts: IneligibleCounts) -> bool {
    forall|lane: IsolateQueueLane, reason: IsolateQueueIneligibilityReason|
        counts.count(lane, reason) == 0
}

impl<T> StateModel<T> {
    /// Whether nothing will ever come out of the queue.
    pub open spec fn finished(self) -> bool {
        self.senders == 0 && self.queue.entries.len() == 0
    }
}

/// What the metrics show after the queue was looked at: the requests that are blocked, and the
/// request that left.
pub open spec fn attempt_updates<T>(
    before: StateModel<T>,
    counts: IneligibleCounts,
    popped: Option<PopModel<T>>,
    queue: QueueModel<T>,
) -> Seq<UpdateView> {
    let blocked = ineligible_updates(before.pool_name, before.reported_ineligible, counts, 20);
    match popped {
        Some(pop) => blocked + pop_updates(before.pool_name, pop) + lane_updates(
            before.pool_name,
            queue,
            pop.lane,
        ),
        None => blocked,
    }
}

/// Whether a receiver waits for the next deadline of a queue.
pub open spec fn waits_for<T>(queue: QueueModel<T>, wait: Option<Moment>) -> bool {
    match wait {
        Some(deadline) => {
            &&& exists|i: int|
                0 <= i < queue.entries.len() && (#[trigger] queue.entries[i]).hard_deadline
                    == deadline@
            &&& forall|i: int|
                0 <= i < queue.entries.len() ==> deadline@ <= (
                #[trigger] queue.entries[i]).hard_deadline
        },
        None => queue.entries.len() == 0,
    }
}

/// What a receiver does when it looks at the queue, for the answers of the scheduler.
pub open spec fn is_receive<T, F: Fn(&T) -> IsolateQueueEligibility>(
    select: F,
    before: StateModel<T>,
    now: nat,
    verdicts: Seq<IsolateQueueEligibility>,
    attempt: SelectionAttempt<T>,
    received: (ReceiveStep<T>, QueueWake),
    after: StateModel<T>,
) -> bool {
    &&& is_attempt(select, before.queue, now, verdicts, attempt, after.queue)
    &&& after == StateModel {
        queue: after.queue,
        reported_ineligible: Some(attempt.ineligible),
        ..before
    }
    &&& match attempt.selected {
        Some(pop) => received == (
            ReceiveStep::Ready(pop.output),
            QueueWake { receivers: ReceiverWake::Nobody, expiry_companions: true },
        ),
        None => {
            &&& received.1 == QueueWake::nobody()
            &&& if after.finished() {
                received.0 is Closed
            } else {
                received.0 matches ReceiveStep::Wait(wait) && waits_for(after.queue, wait)
            }
        },
    }
}

/// What a companion does when it looks for a request that expired, for the answers of the
/// scheduler.
pub open spec fn is_expiry<T, F: Fn(&T) -> IsolateQueueEligibility>(
    select: F,
    before: StateModel<T>,
    now: nat,
    verdicts: Seq<IsolateQueueEligibility>,
    counts: IneligibleCounts,
    received: (ReceiveStep<T>, QueueWake),
    after: StateModel<T>,
) -> bool {
    &&& judges(select, after.queue.entries, now, verdicts)
    &&& counts_blocked(counts, after.queue.entries, verdicts, now)
    &&& match first_due(before.queue.entries, now, 0) {
        Some(i) => {
            &&& after == StateModel {
                queue: before.queue.after_expiry(i, now),
                reported_ineligible: Some(counts),
                ..before
            }
            &&& received.0 matches ReceiveStep::Ready(output) && output@ == before.queue.expired(
                i,
            ).output
            &&& received.1 == QueueWake::everybody()
        },
        None => {
            &&& after == StateModel { reported_ineligible: Some(counts), ..before }
            &&& received.1 == QueueWake::nobody()
            &&& if after.receivers == 0 || after.finished() {
                received.0 is Closed
            } else {
                received.0 matches ReceiveStep::Wait(wait) && waits_for(after.queue, wait)
            }
        },
    }
}

/// The request that a companion takes out of the queue.
pub open spec fn expired_request<T>(queue: QueueModel<T>, now: nat) -> Option<PopModel<T>> {
    match first_due(queue.entries, now, 0) {
        Some(i) => Some(queue.expired(i)),
        None => None,
    }
}

/// The queue of a pool, with one sender and one receiver.
pub fn new_isolate_queue<T>(
    pool_name: &'static str,
    now: Moment,
    capacity: usize,
    reserved_capacity: usize,
    config: IsolateQueueConfig,
    log: &mut MetricLog,
) -> (state: IsolateQueueState<T>)
    requires
        capacity + reserved_capacity <= usize::MAX,
        config.reaches_from(now@),
    ensures
        state.wf(),
        state@.pool_name == pool_name@,
        state@.queue.entries.len() == 0,
        state@.queue == state@.queue.drained(now@),
        state@.queue.capacity == capacity,
        state@.queue.capacity_with_reserve == capacity + reserved_capacity,
        state@.queue.config == config,
        state@.senders == 1,
        state@.receivers == 1,
        state@.reported_ineligible matches Some(counts) && none_blocked(counts) && final(log)@
            == old(log)@ + state_updates(pool_name@, state@.queue, now@, 4) + ineligible_updates(
            pool_name@,
            None,
            counts,
            20,
        ) + policy_updates(pool_name@, config),
{
    let queue = IsolateDelayQueue::new(now, capacity, reserved_capacity, config);
    assert(queue@ == queue@.drained(now@));
    let mut state = IsolateQueueState {
        pool_name,
        queue,
        senders: 1,
        receivers: 1,
        reported_ineligible: None,
    };
    state.log_queue_state(now, log);
    let none = IneligibleCounts::zero();
    state.log_ineligible(none, log);
    let ghost logged = log@;
    log_isolate_queue_policy(log, pool_name, "lane_delay_control");
    log_isolate_queue_config(log, pool_name, "target_millis", config.target);
    log_isolate_queue_config(log, pool_name, "interval_millis", config.interval);
    log_isolate_queue_config(log, pool_name, "hard_max_age_millis", config.hard_max_age);
    log_isolate_queue_config(
        log,
        pool_name,
        "control_plane_hard_max_age_millis",
        config.control_plane_hard_max_age,
    );
    assert(log@ =~= logged + policy_updates(pool_name@, config));
    state
}

impl<T> IsolateQueueState<T> {
    /// Whether the queue is in order.
    pub closed spec fn wf(self) -> bool {
        self.queue.wf()
    }

    fn log_queue_state(&self, now: Moment, log: &mut MetricLog)
        requires
            self.wf(),
        ensures
            final(log)@ == old(log)@ + state_updates(self@.pool_name, self@.queue, now@, 4),
    {
        let mut i: usize = 0;
        assert(log@ =~= old(log)@ + state_updates(self@.pool_name, self@.queue, now@, 0));
        while i < 4
            invariant
                i <= 4,
                self.wf(),
                log@ == old(log)@ + state_updates(self@.pool_name, self@.queue, now@, i as int),
            decreases 4 - i,
        {
            let ghost before = log@;
            let lane = lane_at(i);
            let depth = self.queue.depth(lane);
            let age = self.queue.oldest_age(lane, now);
            let overloaded = self.queue.overloaded(lane);
            log_isolate_queue_depth(log, self.pool_name, lane.as_label(), depth);
            log_isolate_queue_oldest_age(log, self.pool_name, lane.as_label(), age);
            log_isolate_queue_overloaded(log, self.pool_name, lane.as_label(), overloaded);
            assert(log@ =~= before.push(depth_update(self@.pool_name, self@.queue, lane)).push(
                age_update(self@.pool_name, lane, age@),
            ).push(overloaded_update(self@.pool_name, self@.queue, lane)));
            assert(log@ =~= old(log)@ + state_updates(
                self@.pool_name,
                self@.queue,
                now@,
                i + 1,
            ));
            i = i + 1;
        }
    }

    fn log_lane_mutation(&self, lane: IsolateQueueLane, log: &mut MetricLog)
        requires
            self.wf(),
        ensures
            final(log)@ == old(log)@ + lane_updates(self@.pool_name, self@.queue, lane),
    {
        let depth: usize = self.queue.depth(lane);
        log_isolate_queue_depth(log, self.pool_name, lane.as_label(), depth);
        if depth == 0 {
            log_isolate_queue_oldest_age(log, self.pool_name, lane.as_label(), Duration::zero());
        }
        let overloaded = self.queue.overloaded(lane);
        log_isolate_queue_overloaded(log, self.pool_name, lane.as_label(), overloaded);
        assert(log@ =~= old(log)@ + lane_updates(self@.pool_name, self@.queue, lane));
    }

    fn log_ineligible(&mut self, counts: IneligibleCounts, log: &mut MetricLog)
        ensures
            final(log)@ == old(log)@ + ineligible_updates(
                old(self)@.pool_name,
                old(self)@.reported_ineligible,
                counts,
                20,
            ),
            final(self)@ == (StateModel { reported_ineligible: Some(counts), ..old(self)@ }),
            final(self).queue == old(self).queue,
            final(self).pool_name == old(self).pool_name,
            final(self).senders == old(self).senders,
            final(self).receivers == old(self).receivers,
    {
        let previous = self.reported_ineligible;
        let ghost pool = self@.pool_name;
        let mut i: usize = 0;
        assert(log@ =~= old(log)@ + ineligible_updates(pool, previous, counts, 0));
        while i < 20
            invariant
                i <= 20,
                *self == *old(self),
                pool == self.pool_name@,
                log@ == old(log)@ + ineligible_updates(pool, previous, counts, i as int),
            decreases 20 - i,
        {
            let ghost before = log@;
            let lane = lane_at(i / 5);
            let reason = reason_at(i % 5);
            let count: usize = counts.get(lane, reason);
            let shown = match previous {
                Some(previous) => previous.get(lane, reason) == count,
                None => false,
            };
            if !shown {
                log_isolate_queue_ineligible(
                    log,
                    self.pool_name,
                    lane.as_label(),
                    reason.as_label(),
                    count,
                );
                assert(lane_labels(pool, lane).push(("reason"@, reason.label())) =~= seq![
                    ("pool_name"@, pool),
                    ("lane"@, lane.label()),
                    ("reason"@, reason.label()),
                ]);
            }
            assert(log@ =~= old(log)@ + ineligible_updates(pool, previous, counts, i + 1));
            i = i + 1;
        }
        self.reported_ineligible = Some(counts);
    }

    fn log_pop(&self, pop: &QueuePop<T>, log: &mut MetricLog)
        ensures
            final(log)@ == old(log)@ + pop_updates(self@.pool_name, pop@),
    {
        let ghost pool = self@.pool_name;
        proof {
            lemma_labels_push(pool, pop.lane, "transition"@, "entered"@);
            lemma_labels_push(pool, pop.lane, "transition"@, "cleared"@);
        }
        if pop.transitions.entered {
            log_isolate_queue_overload_transition(
                log,
                self.pool_name,
                pop.lane.as_label(),
                "entered",
            );
        }
        if pop.transitions.cleared {
            log_isolate_queue_overload_transition(
                log,
                self.pool_name,
                pop.lane.as_label(),
                "cleared",
            );
        }
        if let Some(rejection) = pop.output.rejection {
            proof {
                lemma_labels_push(pool, pop.lane, "reason"@, rejection.label());
            }
            log_isolate_queue_rejection(
                log,
                self.pool_name,
                pop.lane.as_label(),
                rejection.as_label(),
            );
        }
        assert(log@ =~= old(log)@ + pop_updates(pool, pop@));
    }

    /// Shows the state of the queue.
    pub fn report(&self, now: Moment, log: &mut MetricLog)
        requires
            self.wf(),
        ensures
            final(log)@ == old(log)@ + state_updates(self@.pool_name, self@.queue, now@, 4),
    {
        self.log_queue_state(now, log);
    }

    pub fn add_sender(&mut self)
        requires
            old(self).wf(),
            old(self)@.senders < usize::MAX,
        ensures
            final(self).wf(),
            final(self)@ == (StateModel { senders: old(self)@.senders + 1, ..old(self)@ }),
    {
        self.senders = self.senders + 1;
    }

    /// A sender goes away. The last one wakes everybody: what waits is all that will come.
    pub fn drop_sender(&mut self) -> (wake: QueueWake)
        requires
            old(self).wf(),
            old(self)@.senders > 0,
        ensures
            final(self).wf(),
            final(self)@ == (StateModel {
                senders: (old(self)@.senders - 1) as nat,
                ..old(self)@
            }),
            wake == (if old(self)@.senders == 1 {
                QueueWake::everybody()
            } else {
                QueueWake::nobody()
            }),
    {
        self.senders = self.senders - 1;
        if self.senders == 0 {
            QueueWake { receivers: ReceiverWake::Everybody, expiry_companions: true }
        } else {
            QueueWake { receivers: ReceiverWake::Nobody, expiry_companions: false }
        }
    }

    pub fn add_receiver(&mut self)
        requires
            old(self).wf(),
            old(self)@.receivers < usize::MAX,
        ensures
            final(self).wf(),
            final(self)@ == (StateModel { receivers: old(self)@.receivers + 1, ..old(self)@ }),
    {
        self.receivers = self.receivers + 1;
    }

    /// A receiver goes away. The last one throws out what waits, and wakes everybody.
    pub fn drop_receiver(&mut self, now: Moment, log: &mut MetricLog) -> (dropped: (
        Option<VecDeque<QueueEntry<T>>>,
        QueueWake,
    ))
        requires
            old(self).wf(),
            old(self)@.receivers > 0,
            old(self)@.queue.config.reaches_from(now@),
        ensures
            final(self).wf(),
            if old(self)@.receivers == 1 {
                &&& dropped.0 matches Some(queued) && entry_models(queued@) == old(
                    self,
                )@.queue.entries
                &&& dropped.1 == QueueWake::everybody()
                &&& final(self)@.reported_ineligible matches Some(counts) && none_blocked(counts)
                    && final(self)@ == (StateModel {
                    queue: old(self)@.queue.drained(now@),
                    receivers: 0,
                    reported_ineligible: Some(counts),
                    ..old(self)@
                }) && final(log)@ == old(log)@ + drain_updates(
                    old(self)@.pool_name,
                    old(self)@.queue,
                    4,
                ) + state_updates(old(self)@.pool_name, final(self)@.queue, now@, 4)
                    + ineligible_updates(
                    old(self)@.pool_name,
                    old(self)@.reported_ineligible,
                    counts,
                    20,
                )
            } else {
                &&& dropped.0 is None
                &&& dropped.1 == QueueWake::nobody()
                &&& final(self)@ == (StateModel {
                    receivers: (old(self)@.receivers - 1) as nat,
                    ..old(self)@
                })
                &&& final(log)@ == old(log)@
            },
    {
        self.receivers = self.receivers - 1;
        if self.receivers > 0 {
            return (
                None,
                QueueWake { receivers: ReceiverWake::Nobody, expiry_companions: false },
            );
        }
        let ghost pool = self@.pool_name;
        let (queued, transitions) = self.queue.drain(now);
        let mut i: usize = 0;
        assert(log@ =~= old(log)@ + drain_updates(pool, old(self)@.queue, 0));
        while i < 4
            invariant
                i <= 4,
                pool == self.pool_name@,
                forall|lane: IsolateQueueLane|
                    transitions@[#[trigger] lane.number()] == ControllerTransitions::between(
                        old(self)@.queue.controllers[lane.number()].overloaded,
                        false,
                    ),
                log@ == old(log)@ + drain_updates(pool, old(self)@.queue, i as int),
            decreases 4 - i,
        {
            let lane = lane_at(i);
            assert(lane.number() == i);
            if transitions[i].cleared {
                proof {
                    lemma_labels_push(pool, lane, "transition"@, "cleared"@);
                }
                log_isolate_queue_overload_transition(
                    log,
                    self.pool_name,
                    lane.as_label(),
                    "cleared",
                );
            }
            assert(log@ =~= old(log)@ + drain_updates(pool, old(self)@.queue, i + 1));
            i = i + 1;
        }
        self.log_queue_state(now, log);
        let none = IneligibleCounts::zero();
        self.log_ineligible(none, log);
        (
            Some(queued),
            QueueWake { receivers: ReceiverWake::Everybody, expiry_companions: true },
        )
    }

    /// Takes a request, and says whether it uses the reserve. A request that is refused is given
    /// back. Companions do not use up the notice of a request that was sent, so all of them look
    /// at their deadline again.
    pub fn try_send(
        &mut self,
        item: T,
        lane: IsolateQueueLane,
        now: Moment,
        log: &mut MetricLog,
    ) -> (sent: (Result<bool, (IsolateQueueSendError, T)>, QueueWake))
        requires
            old(self).wf(),
            old(self)@.queue.config.reaches_from(now@),
        ensures
            final(self).wf(),
            match sent.0 {
                Ok(used_reserve) => {
                    &&& send_refusal(old(self)@, lane) is None
                    &&& used_reserve == (old(self)@.queue.entries.len() >= old(
                        self,
                    )@.queue.capacity)
                    &&& final(self)@ == (StateModel {
                        queue: old(self)@.queue.pushed(item, lane, now@),
                        ..old(self)@
                    })
                    &&& sent.1 == (QueueWake {
                        receivers: ReceiverWake::OneMore,
                        expiry_companions: true,
                    })
                    &&& final(log)@ == old(log)@ + lane_updates(
                        old(self)@.pool_name,
                        final(self)@.queue,
                        lane,
                    )
                },
                Err((error, returned)) => {
                    &&& send_refusal(old(self)@, lane) == Some(error)
                    &&& returned == item
                    &&& final(self)@ == old(self)@
                    &&& sent.1 == QueueWake::nobody()
                    &&& final(log)@ == old(log)@.push(
                        rejection_update(old(self)@.pool_name, lane, error.label()),
                    )
                },
            },
    {
        let nobody = QueueWake { receivers: ReceiverWake::Nobody, expiry_companions: false };
        if self.receivers == 0 {
            let error = IsolateQueueSendError::SchedulerClosed;
            proof {
                lemma_labels_push(self@.pool_name, lane, "reason"@, error.label());
            }
            log_isolate_queue_rejection(log, self.pool_name, lane.as_label(), error.as_label());
            return (Err((error, item)), nobody);
        }
        match self.queue.push(item, lane, now) {
            Ok(used_reserve) => {
                self.log_lane_mutation(lane, log);
                (
                    Ok(used_reserve),
                    QueueWake { receivers: ReceiverWake::OneMore, expiry_companions: true },
                )
            },
            Err((error, item)) => {
                proof {
                    lemma_labels_push(self@.pool_name, lane, "reason"@, error.label());
                }
                log_isolate_queue_rejection(log, self.pool_name, lane.as_label(), error.as_label());
                (Err((error, item)), nobody)
            },
        }
    }

    /// Looks for the next request: one that expired, or else the first one that the scheduler can
    /// start.
    pub fn receive<F: Fn(&T) -> IsolateQueueEligibility>(
        &mut self,
        now: Moment,
        select: &F,
        log: &mut MetricLog,
    ) -> (received: (ReceiveStep<T>, QueueWake))
        requires
            old(self).wf(),
            old(self)@.queue.config.reaches_from(now@),
            old(self)@.queue.counts_samples(),
            forall|item: &T| #[trigger] select.requires((item,)),
        ensures
            final(self).wf(),
            exists|verdicts: Seq<IsolateQueueEligibility>, attempt: SelectionAttempt<T>|
                #![trigger is_receive(*select, old(self)@, now@, verdicts, attempt, received, final(self)@)]
                is_receive(
                    *select,
                    old(self)@,
                    now@,
                    verdicts,
                    attempt,
                    received,
                    final(self)@,
                ) && final(log)@ == old(log)@ + attempt_updates(
                    old(self)@,
                    attempt.ineligible,
                    selected_model(attempt),
                    final(self)@.queue,
                ),
    {
        let attempt = self.queue.pop_selecting(now, select);
        let ghost found = attempt;
        let ghost verdicts = choose|verdicts: Seq<IsolateQueueEligibility>|
            is_attempt(*select, old(self)@.queue, now@, verdicts, attempt, self.queue@);
        self.log_ineligible(attempt.ineligible, log);
        match attempt.selected {
            Some(pop) => {
                self.log_pop(&pop, log);
                self.log_lane_mutation(pop.lane, log);
                let received = (
                    ReceiveStep::Ready(pop.output),
                    QueueWake { receivers: ReceiverWake::Nobody, expiry_companions: true },
                );
                assert(is_receive(
                    *select,
                    old(self)@,
                    now@,
                    verdicts,
                    found,
                    received,
                    self@,
                ));
                assert(log@ =~= old(log)@ + attempt_updates(
                    old(self)@,
                    found.ineligible,
                    selected_model(found),
                    self@.queue,
                ));
                received
            },
            None => {
                let step = if self.senders == 0 && self.queue.is_empty() {
                    ReceiveStep::Closed
                } else {
                    ReceiveStep::Wait(self.queue.next_expiration())
                };
                let received = (
                    step,
                    QueueWake { receivers: ReceiverWake::Nobody, expiry_companions: false },
                );
                assert(is_receive(
                    *select,
                    old(self)@,
                    now@,
                    verdicts,
                    found,
                    received,
                    self@,
                ));
                received
            },
        }
    }

    /// Looks for a request that expired, and for nothing else. A companion ends with the last
    /// receiver: it does not keep the queue open.
    pub fn receive_expired<F: Fn(&T) -> IsolateQueueEligibility>(
        &mut self,
        now: Moment,
        select: &F,
        log: &mut MetricLog,
    ) -> (received: (ReceiveStep<T>, QueueWake))
        requires
            old(self).wf(),
            old(self)@.queue.config.reaches_from(now@),
            forall|item: &T| #[trigger] select.requires((item,)),
        ensures
            final(self).wf(),
            exists|verdicts: Seq<IsolateQueueEligibility>, counts: IneligibleCounts|
                #![trigger is_expiry(*select, old(self)@, now@, verdicts, counts, received, final(self)@)]
                is_expiry(
                    *select,
                    old(self)@,
                    now@,
                    verdicts,
                    counts,
                    received,
                    final(self)@,
                ) && final(log)@ == old(log)@ + attempt_updates(
                    old(self)@,
                    counts,
                    expired_request(old(self)@.queue, now@),
                    final(self)@.queue,
                ),
    {
        let popped = self.queue.pop_expired(now);
        let counts = self.queue.ineligible_counts(now, select);
        let ghost verdicts = choose|verdicts: Seq<IsolateQueueEligibility>|
            judges(*select, self.queue@.entries, now@, verdicts) && counts_blocked(
                counts,
                self.queue@.entries,
                verdicts,
                now@,
            );
        self.log_ineligible(counts, log);
        match popped {
            Some(pop) => {
                self.log_pop(&pop, log);
                self.log_lane_mutation(pop.lane, log);
                let received = (
                    ReceiveStep::Ready(pop.output),
                    QueueWake { receivers: ReceiverWake::Everybody, expiry_companions: true },
                );
                assert(is_expiry(
                    *select,
                    old(self)@,
                    now@,
                    verdicts,
                    counts,
                    received,
                    self@,
                ));
                assert(log@ =~= old(log)@ + attempt_updates(
                    old(self)@,
                    counts,
                    expired_request(old(self)@.queue, now@),
                    self@.queue,
                ));
                received
            },
            None => {
                let step = if self.receivers == 0 || (self.senders == 0 && self.queue.is_empty()) {
                    ReceiveStep::Closed
                } else {
                    ReceiveStep::Wait(self.queue.next_expiration())
                };
                let received = (
                    step,
                    QueueWake { receivers: ReceiverWake::Nobody, expiry_companions: false },
                );
                assert(is_expiry(
                    *select,
                    old(self)@,
                    now@,
                    verdicts,
                    counts,
                    received,
                    self@,
                ));
                received
            },
        }
    }

    /// Whether no receiver is left.
    pub fn is_closed(&self) -> (closed: bool)
        ensures
            closed == (self@.receivers == 0),
    {
        self.receivers == 0
    }

    /// How many requests wait.
    pub fn len(&self) -> (len: usize)
        ensures
            len == self@.queue.entries.len(),
    {
        self.queue.len()
    }

    pub fn senders(&self) -> (senders: usize)
        ensures
            senders == self@.senders,
    {
        self.senders
    }

    pub fn receivers(&self) -> (receivers: usize)
        ensures
            receivers == self@.receivers,
    {
        self.receivers
    }

    pub fn config(&self) -> (config: IsolateQueueConfig)
        ensures
            config == self@.queue.config,
    {
        self.queue.config()
    }

    /// Whether every lane can count one more sample.
    pub fn counts_samples(&self) -> (counts: bool)
        ensures
            counts == self@.queue.counts_samples(),
    {
        self.queue.counts_samples()
    }
}

/// What left the queue.
pub open spec fn selected_model<T>(attempt: SelectionAttempt<T>) -> Option<PopModel<T>> {
    match attempt.selected {
        Some(pop) => Some(pop@),
        None => None,
    }
}

/// Why a request is not taken: nobody receives, or the queue refuses it.
pub open spec fn send_refusal<T>(state: StateModel<T>, lane: IsolateQueueLane) -> Option<
    IsolateQueueSendError,
> {
    if state.receivers == 0 {
        Some(IsolateQueueSendError::SchedulerClosed)
    } else {
        state.queue.refusal(lane)
    }
}

proof fn lemma_labels_push(
    pool: Seq<char>,
    lane: IsolateQueueLane,
    name: Seq<char>,
    value: Seq<char>,
)
    ensures
        lane_labels(pool, lane).push((name, value)) == seq![
            ("pool_name"@, pool),
            ("lane"@, lane.label()),
            (name, value),
        ],
{
    assert(lane_labels(pool, lane).push((name, value)) =~= seq![
        ("pool_name"@, pool),
        ("lane"@, lane.label()),
        (name, value),
    ]);
}

/// A queue without receivers takes no request, whatever its lane and however much room there is.
pub proof fn closed_queue_refuses_everything<T>(state: StateModel<T>, lane: IsolateQueueLane)
    requires
        state.receivers == 0,
    ensures
        send_refusal(state, lane) == Some(IsolateQueueSendError::SchedulerClosed),
{
}

/// A receiver ends only when no sender is left and nothing waits.
pub proof fn receivers_end_with_the_last_request<T, F: Fn(&T) -> IsolateQueueEligibility>(
    select: F,
    before: StateModel<T>,
    now: nat,
    verdicts: Seq<IsolateQueueEligibility>,
    attempt: SelectionAttempt<T>,
    received: (ReceiveStep<T>, QueueWake),
    after: StateModel<T>,
)
    requires
        is_receive(select, before, now, verdicts, attempt, received, after),
    ensures
        received.0 is Closed <==> before.senders == 0 && before.queue.entries.len() == 0,
{
    crate::isolate_queue::attempts_take_out_one_request(
        select,
        before.queue,
        now,
        verdicts,
        attempt,
        after.queue,
    );
}

/// A companion never hands on a request to be started.
pub proof fn companions_only_expire<T, F: Fn(&T) -> IsolateQueueEligibility>(
    select: F,
    before: StateModel<T>,
    now: nat,
    verdicts: Seq<IsolateQueueEligibility>,
    counts: IneligibleCounts,
    received: (ReceiveStep<T>, QueueWake),
    after: StateModel<T>,
)
    requires
        is_expiry(select, before, now, verdicts, counts, received, after),
    ensures
        received.0 matches ReceiveStep::Ready(output) ==> output.rejection == Some(
            IsolateQueueRejection::HardExpired,
        ),
{
}

/// Showing the same counts again shows nothing.
pub proof fn unchanged_counts_are_not_shown_again(
    pool: Seq<char>,
    counts: IneligibleCounts,
    n: int,
)
    ensures
        ineligible_updates(pool, Some(counts), counts, n) == Seq::<UpdateView>::empty(),
    decreases n,
{
    if n > 0 {
        unchanged_counts_are_not_shown_again(pool, counts, n - 1);
    }
}

proof fn lemma_first_due_found<T>(state: StateModel<T>, now: nat, i: int)
    requires
        0 <= i,
    ensures
        match first_due(state.queue.entries, now, i) {
            Some(k) => i <= k < state.queue.entries.len() && state.queue.entries[k].hard_deadline
                <= now && forall|j: int|
                i <= j < k ==> now < (#[trigger] state.queue.entries[j]).hard_deadline,
            None => forall|j: int|
                i <= j < state.queue.entries.len() ==> now < (
                #[trigger] state.queue.entries[j]).hard_deadline,
        },
    decreases state.queue.entries.len() - i,
{
    if i < state.queue.entries.len() {
        lemma_first_due_found(state, now, i + 1);
    }
}

/// A companion hands on a request if and only if the deadline of one has come, and then the first
/// such request; that wakes everybody, for room became free. It ends only without such a request,
/// when no receiver is left or nothing will come any more.
pub proof fn companions_take_the_first_that_is_due<T, F: Fn(&T) -> IsolateQueueEligibility>(
    select: F,
    before: StateModel<T>,
    now: nat,
    verdicts: Seq<IsolateQueueEligibility>,
    counts: IneligibleCounts,
    received: (ReceiveStep<T>, QueueWake),
    after: StateModel<T>,
)
    requires
        is_expiry(select, before, now, verdicts, counts, received, after),
    ensures
        ({
            let due = exists|i: int|
                0 <= i < before.queue.entries.len() && (
                #[trigger] before.queue.entries[i]).hard_deadline <= now;
            &&& received.0 is Ready <==> due
            &&& due ==> received.1.receivers is Everybody && received.1.expiry_companions
            &&& !due ==> received.1.receivers is Nobody && !received.1.expiry_companions
            &&& !due ==> after.queue == before.queue
            &&& received.0 matches ReceiveStep::Ready(output) ==> exists|i: int|
                0 <= i < before.queue.entries.len() && (
                #[trigger] before.queue.entries[i]).hard_deadline <= now && output.item
                    == before.queue.entries[i].item && after.queue.entries
                    == before.queue.entries.remove(i) && forall|j: int|
                    0 <= j < i ==> now < (#[trigger] before.queue.entries[j]).hard_deadline
            &&& received.0 is Closed <==> !due && (before.receivers == 0 || (before.senders == 0
                && before.queue.entries.len() == 0))
            &&& after.senders == before.senders && after.receivers == before.receivers
        }),
{
    lemma_first_due_found(before, now, 0);
    if let Some(i) = first_due(before.queue.entries, now, 0) {
        assert(before.queue.entries[i].hard_deadline <= now);
        assert(after.queue.entries == before.queue.entries.remove(i));
    }
}

/// A receiver that gets no request and does not end waits until the first deadline of those that
/// wait, and as long as it takes if none waits; it wakes nobody. One that gets a request wakes the
/// companions, whose next deadline may be another one.
pub proof fn receivers_wait_for_the_first_deadline<T, F: Fn(&T) -> IsolateQueueEligibility>(
    select: F,
    before: StateModel<T>,
    now: nat,
    verdicts: Seq<IsolateQueueEligibility>,
    attempt: SelectionAttempt<T>,
    received: (ReceiveStep<T>, QueueWake),
    after: StateModel<T>,
)
    requires
        is_receive(select, before, now, verdicts, attempt, received, after),
    ensures
        received.0 matches ReceiveStep::Wait(Some(deadline)) ==> (forall|i: int|
            0 <= i < before.queue.entries.len() ==> deadline@ <= (
            #[trigger] before.queue.entries[i]).hard_deadline) && exists|i: int|
            0 <= i < before.queue.entries.len() && (
            #[trigger] before.queue.entries[i]).hard_deadline == deadline@,
        received.0 matches ReceiveStep::Wait(None) ==> before.queue.entries.len() == 0
            && before.senders > 0,
        received.0 is Ready ==> received.1.receivers is Nobody && received.1.expiry_companions
            && after.queue.entries.len() + 1 == before.queue.entries.len(),
        !(received.0 is Ready) ==> received.1.receivers is Nobody && !received.1.expiry_companions
            && after.queue == before.queue,
        after.senders == before.senders && after.receivers == before.receivers,
{
    crate::isolate_queue::attempts_take_out_one_request(
        select,
        before.queue,
        now,
        verdicts,
        attempt,
        after.queue,
    );
}

/// Each lane and each reason has a number of its own, so that the metrics show all of them.
pub proof fn lanes_and_reasons_have_numbers(
    lane: IsolateQueueLane,
    reason: IsolateQueueIneligibilityReason,
)
    ensures
        lane_of(lane.number()) == lane,
        reason_of(reason.number()) == reason,
        0 <= lane.number() < 4,
        0 <= reason.number() < 5,
{
}

/// A count that changed since it was shown last, or that was never shown, is shown with its new
/// value.
pub proof fn changed_counts_are_shown(
    pool: Seq<char>,
    shown: Option<IneligibleCounts>,
    counts: IneligibleCounts,
    n: int,
    k: int,
)
    requires
        0 <= k < n,
        !(shown matches Some(before) && before.count(lane_of(k / 5), reason_of(k % 5))
            == counts.count(lane_of(k / 5), reason_of(k % 5))),
    ensures
        ineligible_updates(pool, shown, counts, n).contains(
            gauge(
                "isolate_queue_ineligible_info"@,
                counts.count(lane_of(k / 5), reason_of(k % 5)) as int,
                lane_labels(pool, lane_of(k / 5)).push(("reason"@, reason_of(k % 5).label())),
            ),
        ),
    decreases n,
{
    let updates = ineligible_updates(pool, shown, counts, n);
    let before = ineligible_updates(pool, shown, counts, n - 1);
    let wanted = gauge(
        "isolate_queue_ineligible_info"@,
        counts.count(lane_of(k / 5), reason_of(k % 5)) as int,
        lane_labels(pool, lane_of(k / 5)).push(("reason"@, reason_of(k % 5).label())),
    );
    if k < n - 1 {
        changed_counts_are_shown(pool, shown, counts, n - 1, k);
        let i = choose|i: int| 0 <= i < before.len() && before[i] == wanted;
        assert(updates[i] == wanted);
    } else {
        assert(updates.last() == wanted);
    }
}

/// A report shows of each lane how many requests wait in it, how old the oldest is, and whether it
/// is overloaded.
pub proof fn every_lane_is_reported<T>(
    pool: Seq<char>,
    queue: QueueModel<T>,
    now: nat,
    n: int,
    k: int,
)
    requires
        0 <= k < n,
    ensures
        ({
            let updates = state_updates(pool, queue, now, n);
            &&& updates.len() == 3 * n
            &&& updates[3 * k] == gauge(
                "isolate_queue_depth_info"@,
                queue.depth(lane_of(k)) as int,
                lane_labels(pool, lane_of(k)),
            )
            &&& updates[3 * k + 1] == age_update(
                pool,
                lane_of(k),
                oldest_age(queue.entries, lane_of(k), now),
            )
            &&& updates[3 * k + 2] == overloaded_update(pool, queue, lane_of(k))
        }),
    decreases n,
{
    if k < n - 1 {
        every_lane_is_reported(pool, queue, now, n - 1, k);
    } else if n > 1 {
        every_lane_is_reported(pool, queue, now, n - 1, 0);
    } else {
        reveal_with_fuel(state_updates, 2);
    }
}

/// A timer ends when the next request is due, or at once if one is due already: one that is set for
/// another time is set anew, and without a request there is none.
pub proof fn timers_end_when_a_request_is_due(armed: Option<nat>, deadline: Option<nat>, now: nat)
    ensures
        timer_change(armed, deadline, now) == Some(None::<nat>) <==> deadline is None,
        timer_change(armed, deadline, now) is None <==> deadline is Some && armed == deadline,
        timer_change(armed, deadline, now) matches Some(Some(wait)) ==> {
            &&& deadline is Some && armed != deadline
            &&& deadline->0 >= now ==> now + wait == deadline->0
            &&& deadline->0 < now ==> wait == 0
        },
{
}

} // verus!

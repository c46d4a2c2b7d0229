//! The limits of an isolate pool: how many requests run at a time, and how many wait.
use vstd::prelude::*;

use crate::isolate_queue::{
    is_checked_config, IsolateQueueConfig, IsolateQueueConfigError, IsolateQueueLane,
    IsolateQueueOutput, IsolateQueueRejection, IsolateQueueSendError, TimerReach,
};
use crate::isolate_queue_state::{
    ineligible_updates, new_isolate_queue, none_blocked, policy_updates, state_updates,
    IsolateQueueState,
};
use crate::metric_log::{flag, gauge, update, MetricLog, MetricOperation, MetricValue, UpdateView};
use crate::metrics::{
    capacity_counters, initialize_capacity_counters, log_control_plane_lane_enabled,
    log_isolate_queue_capacity, log_isolate_queue_config, log_isolate_queue_policy,
};
use crate::time::{Duration, Moment};

verus! {

/// Why the settings of a pool are refused.
#[derive(Clone, Copy, Debug, PartialEq, Eq, Structural)]
pub enum IsolateLimitError {
    NoWorkers,
    NoQueue,
    ReserveTooLarge,
    QueueOverflow,
    TooManyActionWorkers,
    Queue(IsolateQueueConfigError),
    NoAnalyzeConcurrency,
    LaneWithoutDelayControl,
    LaneSmallerThanAnalyzeConcurrency,
    LaneLargerThanQueue,
    LaneMaxAgeTooSmall,
}

impl IsolateLimitError {
    pub open spec fn text(self) -> Seq<char> {
        match self {
            IsolateLimitError::NoWorkers => "MAX_ISOLATE_WORKERS must be greater than zero"@,
            IsolateLimitError::NoQueue => "ISOLATE_QUEUE_SIZE must be greater than zero"@,
            IsolateLimitError::ReserveTooLarge =>
                "ISOLATE_DEPENDENCY_WORKER_RESERVE must be smaller than MAX_ISOLATE_WORKERS"@,
            IsolateLimitError::QueueOverflow =>
                "ISOLATE_QUEUE_SIZE plus ISOLATE_DEPENDENCY_WORKER_RESERVE must not overflow"@,
            IsolateLimitError::TooManyActionWorkers =>
                "MAX_ISOLATE_ACTION_WORKERS must not exceed shared base isolate worker capacity"@,
            IsolateLimitError::Queue(error) => error.text(),
            IsolateLimitError::NoAnalyzeConcurrency =>
                "ANALYZE_CONCURRENCY must be greater than zero"@,
            IsolateLimitError::LaneWithoutDelayControl =>
                "ISOLATE_CONTROL_PLANE_LANE_ENABLED requires ISOLATE_QUEUE_DELAY_CONTROL_ENABLED=true"@,
            IsolateLimitError::LaneSmallerThanAnalyzeConcurrency =>
                "ISOLATE_CONTROL_PLANE_QUEUE_CAPACITY must be at least ANALYZE_CONCURRENCY"@,
            IsolateLimitError::LaneLargerThanQueue =>
                "ISOLATE_CONTROL_PLANE_QUEUE_CAPACITY must not exceed ISOLATE_QUEUE_SIZE"@,
            IsolateLimitError::LaneMaxAgeTooSmall =>
                "ISOLATE_CONTROL_PLANE_HARD_MAX_AGE_MILLIS must be greater than ISOLATE_QUEUE_HARD_MAX_AGE_MILLIS"@,
        }
    }

    pub fn message(self) -> (message: &'static str)
        ensures
            message@ == self.text(),
    {
        match self {
            IsolateLimitError::NoWorkers => "MAX_ISOLATE_WORKERS must be greater than zero",
            IsolateLimitError::NoQueue => "ISOLATE_QUEUE_SIZE must be greater than zero",
            IsolateLimitError::ReserveTooLarge =>
                "ISOLATE_DEPENDENCY_WORKER_RESERVE must be smaller than MAX_ISOLATE_WORKERS",
            IsolateLimitError::QueueOverflow =>
                "ISOLATE_QUEUE_SIZE plus ISOLATE_DEPENDENCY_WORKER_RESERVE must not overflow",
            IsolateLimitError::TooManyActionWorkers =>
                "MAX_ISOLATE_ACTION_WORKERS must not exceed shared base isolate worker capacity",
            IsolateLimitError::Queue(error) => error.message(),
            IsolateLimitError::NoAnalyzeConcurrency =>
                "ANALYZE_CONCURRENCY must be greater than zero",
            IsolateLimitError::LaneWithoutDelayControl =>
                "ISOLATE_CONTROL_PLANE_LANE_ENABLED requires ISOLATE_QUEUE_DELAY_CONTROL_ENABLED=true",
            IsolateLimitError::LaneSmallerThanAnalyzeConcurrency =>
                "ISOLATE_CONTROL_PLANE_QUEUE_CAPACITY must be at least ANALYZE_CONCURRENCY",
            IsolateLimitError::LaneLargerThanQueue =>
                "ISOLATE_CONTROL_PLANE_QUEUE_CAPACITY must not exceed ISOLATE_QUEUE_SIZE",
            IsolateLimitError::LaneMaxAgeTooSmall =>
                "ISOLATE_CONTROL_PLANE_HARD_MAX_AGE_MILLIS must be greater than ISOLATE_QUEUE_HARD_MAX_AGE_MILLIS",
        }
    }
}

/// The first rule that the settings of the control-plane lane break.
pub open spec fn lane_fault(
    enabled: bool,
    control_plane_capacity: usize,
    control_plane_hard_max_age: nat,
    queue_capacity: usize,
    ordinary_hard_max_age: nat,
    delay_control_enabled: bool,
    analyze_concurrency: usize,
) -> Option<IsolateLimitError> {
    if analyze_concurrency == 0 {
        Some(IsolateLimitError::NoAnalyzeConcurrency)
    } else if !enabled {
        None
    } else if !delay_control_enabled {
        Some(IsolateLimitError::LaneWithoutDelayControl)
    } else if control_plane_capacity < analyze_concurrency {
        Some(IsolateLimitError::LaneSmallerThanAnalyzeConcurrency)
    } else if control_plane_capacity > queue_capacity {
        Some(IsolateLimitError::LaneLargerThanQueue)
    } else if control_plane_hard_max_age <= ordinary_hard_max_age {
        Some(IsolateLimitError::LaneMaxAgeTooSmall)
    } else {
        None
    }
}

/// Checks the settings of the control-plane lane.
pub fn validate_control_plane_lane_config(
    enabled: bool,
    control_plane_capacity: usize,
    control_plane_hard_max_age: Duration,
    queue_capacity: usize,
    ordinary_hard_max_age: Duration,
    delay_control_enabled: bool,
    analyze_concurrency: usize,
) -> (checked: Result<(), IsolateLimitError>)
    ensures
        match checked {
            Ok(()) => lane_fault(
                enabled,
                control_plane_capacity,
                control_plane_hard_max_age@,
                queue_capacity,
                ordinary_hard_max_age@,
                delay_control_enabled,
                analyze_concurrency,
            ) is None,
            Err(error) => lane_fault(
                enabled,
                control_plane_capacity,
                control_plane_hard_max_age@,
                queue_capacity,
                ordinary_hard_max_age@,
                delay_control_enabled,
                analyze_concurrency,
            ) == Some(error),
        },
{
    if analyze_concurrency == 0 {
        return Err(IsolateLimitError::NoAnalyzeConcurrency);
    }
    if !enabled {
        return Ok(());
    }
    if !delay_control_enabled {
        return Err(IsolateLimitError::LaneWithoutDelayControl);
    }
    if control_plane_capacity < analyze_concurrency {
        return Err(IsolateLimitError::LaneSmallerThanAnalyzeConcurrency);
    }
    if control_plane_capacity > queue_capacity {
        return Err(IsolateLimitError::LaneLargerThanQueue);
    }
    if control_plane_hard_max_age.as_nanos() <= ordinary_hard_max_age.as_nanos() {
        return Err(IsolateLimitError::LaneMaxAgeTooSmall);
    }
    Ok(())
}

/// A share of the workers in whole percent, rounded up.
pub open spec fn percent_of_workers(max_workers: int, percent: int) -> int {
    if percent >= 100 {
        max_workers
    } else {
        (max_workers * percent + 99) / 100
    }
}

/// How many workers one client may use: its share, but at least one, and no more than there are.
pub open spec fn client_capacity(max_workers: int, percent: int) -> int {
    let share = percent_of_workers(max_workers, percent);
    let some = if share < 1 {
        1
    } else {
        share
    };
    if some > max_workers {
        max_workers
    } else {
        some
    }
}

proof fn lemma_percent(max_workers: int, percent: int)
    requires
        0 <= max_workers,
        0 <= percent < 100,
    ensures
        (max_workers / 100) * percent >= 0,
        (max_workers % 100) * percent >= 0,
        (max_workers % 100) * percent <= 99 * 99,
        percent_of_workers(max_workers, percent) == (max_workers / 100) * percent + ((max_workers
            % 100) * percent + 99) / 100,
        percent_of_workers(max_workers, percent) <= max_workers,
{
    let q = max_workers / 100;
    let r = max_workers % 100;
    assert(max_workers == 100 * q + r);
    assert(q * percent >= 0) by (nonlinear_arith)
        requires
            q >= 0,
            percent >= 0,
    ;
    assert(0 <= r * percent <= 99 * 99) by (nonlinear_arith)
        requires
            0 <= r < 100,
            0 <= percent < 100,
    ;
    assert(max_workers * percent == 100 * (q * percent) + r * percent) by (nonlinear_arith)
        requires
            max_workers == 100 * q + r,
    ;
    assert(max_workers * percent <= max_workers * 99) by (nonlinear_arith)
        requires
            max_workers >= 0,
            percent <= 99,
    ;
}

/// How many workers one client may use. The share is computed in two parts, so that no number of
/// workers is too large for it.
pub fn per_client_worker_capacity(max_workers: usize, max_percent_per_client: usize) -> (capacity:
    usize)
    ensures
        capacity == client_capacity(max_workers as int, max_percent_per_client as int),
{
    let percentage_capacity: usize = if max_percent_per_client >= 100 {
        max_workers
    } else {
        proof {
            lemma_percent(max_workers as int, max_percent_per_client as int);
        }
        let complete_hundreds: usize = (max_workers / 100) * max_percent_per_client;
        let remainder: usize = (max_workers % 100) * max_percent_per_client;
        complete_hundreds + (remainder + 99) / 100
    };
    let some: usize = if percentage_capacity < 1 {
        1
    } else {
        percentage_capacity
    };
    if some > max_workers {
        max_workers
    } else {
        some
    }
}

/// The settings of a pool.
#[derive(Clone, Copy, Debug)]
pub struct IsolateSettings {
    pub max_isolate_workers: usize,
    pub queue_size: usize,
    pub dependency_worker_reserve: usize,
    /// How many actions may run at a time; zero for as many as there is room for.
    pub max_action_workers: usize,
    pub delay_target: Duration,
    pub delay_interval: Duration,
    pub hard_max_age: Duration,
    pub control_plane_hard_max_age: Duration,
    pub control_plane_queue_capacity: usize,
    pub control_plane_lane_enabled: bool,
    pub delay_control_enabled: bool,
    pub analyze_concurrency: usize,
    /// How many threads may run code at a time; zero for no limit.
    pub active_threads: usize,
}

/// The limits that follow from the settings.
#[derive(Clone, Copy, Debug, PartialEq, Eq, Structural)]
pub struct IsolateLimits {
    pub base_worker_capacity: usize,
    pub max_independent_actions: usize,
    pub delay_control: Option<IsolateQueueConfig>,
    pub active_threads: Option<usize>,
}

impl IsolateSettings {
    pub open spec fn base_capacity(self) -> int {
        self.max_isolate_workers - self.dependency_worker_reserve
    }

    pub open spec fn action_capacity(self) -> int {
        if self.max_action_workers == 0 {
            self.base_capacity()
        } else {
            self.max_action_workers as int
        }
    }

    /// The first rule that the capacities break.
    pub open spec fn capacity_fault(self) -> Option<IsolateLimitError> {
        if self.max_isolate_workers == 0 {
            Some(IsolateLimitError::NoWorkers)
        } else if self.queue_size == 0 {
            Some(IsolateLimitError::NoQueue)
        } else if self.dependency_worker_reserve >= self.max_isolate_workers {
            Some(IsolateLimitError::ReserveTooLarge)
        } else if self.queue_size + self.dependency_worker_reserve > usize::MAX {
            Some(IsolateLimitError::QueueOverflow)
        } else if self.action_capacity() > self.base_capacity() {
            Some(IsolateLimitError::TooManyActionWorkers)
        } else {
            None
        }
    }

    pub open spec fn lane_fault(self) -> Option<IsolateLimitError> {
        lane_fault(
            self.control_plane_lane_enabled,
            self.control_plane_queue_capacity,
            self.control_plane_hard_max_age@,
            self.queue_size,
            self.hard_max_age@,
            self.delay_control_enabled,
            self.analyze_concurrency,
        )
    }

    /// The first rule that the settings break, for what the check of the queue said.
    pub open spec fn fault(
        self,
        queue: Result<IsolateQueueConfig, IsolateQueueConfigError>,
    ) -> Option<IsolateLimitError> {
        match (self.capacity_fault(), queue) {
            (Some(fault), _) => Some(fault),
            (None, Err(error)) => Some(IsolateLimitError::Queue(error)),
            (None, Ok(_)) => self.lane_fault(),
        }
    }

    /// The limits that follow, for what the check of the queue said.
    pub open spec fn limits(self, queue: IsolateQueueConfig) -> IsolateLimits {
        IsolateLimits {
            base_worker_capacity: self.base_capacity() as usize,
            max_independent_actions: self.action_capacity() as usize,
            delay_control: if self.delay_control_enabled {
                Some(queue)
            } else {
                None
            },
            active_threads: if self.active_threads > 0 {
                Some(self.active_threads)
            } else {
                None
            },
        }
    }

    /// Whether a result is that of the check, for what the check of the queue said.
    pub open spec fn is_checked(
        self,
        queue: Result<IsolateQueueConfig, IsolateQueueConfigError>,
        checked: Result<IsolateLimits, IsolateLimitError>,
    ) -> bool {
        match checked {
            Ok(limits) => self.fault(queue) is None && limits == self.limits(queue->Ok_0),
            Err(error) => self.fault(queue) == Some(error),
        }
    }

    /// Checks the settings, given what the check of the queue said.
    pub fn with_queue_config(
        &self,
        queue: Result<IsolateQueueConfig, IsolateQueueConfigError>,
    ) -> (checked: Result<IsolateLimits, IsolateLimitError>)
        ensures
            self.is_checked(queue, checked),
    {
        if self.max_isolate_workers == 0 {
            return Err(IsolateLimitError::NoWorkers);
        }
        if self.queue_size == 0 {
            return Err(IsolateLimitError::NoQueue);
        }
        if self.dependency_worker_reserve >= self.max_isolate_workers {
            return Err(IsolateLimitError::ReserveTooLarge);
        }
        if self.queue_size.checked_add(self.dependency_worker_reserve).is_none() {
            return Err(IsolateLimitError::QueueOverflow);
        }
        let base_worker_capacity: usize = self.max_isolate_workers - self.dependency_worker_reserve;
        let max_independent_actions: usize = if self.max_action_workers == 0 {
            base_worker_capacity
        } else {
            self.max_action_workers
        };
        if max_independent_actions > base_worker_capacity {
            return Err(IsolateLimitError::TooManyActionWorkers);
        }
        let queue_config = match queue {
            Ok(config) => config,
            Err(error) => {
                return Err(IsolateLimitError::Queue(error));
            },
        };
        match validate_control_plane_lane_config(
            self.control_plane_lane_enabled,
            self.control_plane_queue_capacity,
            self.control_plane_hard_max_age,
            self.queue_size,
            self.hard_max_age,
            self.delay_control_enabled,
            self.analyze_concurrency,
        ) {
            Ok(()) => {},
            Err(error) => {
                return Err(error);
            },
        }
        Ok(
            IsolateLimits {
                base_worker_capacity,
                max_independent_actions,
                delay_control: if self.delay_control_enabled {
                    Some(queue_config)
                } else {
                    None
                },
                active_threads: if self.active_threads > 0 {
                    Some(self.active_threads)
                } else {
                    None
                },
            },
        )
    }

    /// Checks the settings.
    pub fn check(&self) -> (checked: Result<IsolateLimits, IsolateLimitError>)
        ensures
            exists|reach: TimerReach, queue: Result<IsolateQueueConfig, IsolateQueueConfigError>|
                #[trigger] is_checked_config(
                    self.delay_target,
                    self.delay_interval,
                    self.hard_max_age,
                    self.control_plane_hard_max_age,
                    self.control_plane_queue_capacity,
                    reach,
                    queue,
                ) && self.is_checked(queue, checked),
    {
        let queue = IsolateQueueConfig::new(
            self.delay_target,
            self.delay_interval,
            self.hard_max_age,
            self.control_plane_hard_max_age,
            self.control_plane_queue_capacity,
        );
        self.with_queue_config(queue)
    }
}

/// Settings that pass the check leave at least one worker that requests of every kind can use, and
/// no more actions than that.
pub proof fn checked_settings_leave_room(
    settings: IsolateSettings,
    queue: Result<IsolateQueueConfig, IsolateQueueConfigError>,
)
    requires
        settings.fault(queue) is None,
    ensures
        1 <= settings.base_capacity() <= settings.max_isolate_workers,
        1 <= settings.action_capacity() <= settings.base_capacity(),
        settings.control_plane_lane_enabled ==> settings.delay_control_enabled
            && settings.analyze_concurrency <= settings.control_plane_queue_capacity
            <= settings.queue_size,
{
}

/// One client may use at least one worker and at most all of them, and all of them if its share is
/// the whole.
pub proof fn client_capacity_is_within_the_pool(max_workers: int, percent: int)
    requires
        max_workers > 0,
        percent >= 0,
    ensures
        1 <= client_capacity(max_workers, percent) <= max_workers,
        percent >= 100 ==> client_capacity(max_workers, percent) == max_workers,
{
}

/// The name of a pool, and how many threads of it may run code at a time.
#[derive(Clone, Copy, Debug)]
pub struct IsolateConfig {
    pub name: &'static str,
    /// An upper bound of the time limits of functions.
    pub max_user_timeout: Option<Duration>,
    /// How many threads may run code at a time.
    pub limiter: Option<usize>,
}

impl IsolateConfig {
    pub fn new(name: &'static str, limiter: Option<usize>) -> (config: IsolateConfig)
        ensures
            config == (IsolateConfig { name, max_user_timeout: None, limiter }),
    {
        IsolateConfig { name, max_user_timeout: None, limiter }
    }

    /// The configuration of a pool that was given none.
    pub fn or_default(config: Option<IsolateConfig>, limits: &IsolateLimits) -> (chosen:
        IsolateConfig)
        ensures
            match config {
                Some(config) => chosen == config,
                None => chosen.name@ == "funrun"@ && chosen.max_user_timeout is None
                    && chosen.limiter == limits.active_threads,
            },
    {
        match config {
            Some(config) => config,
            None => IsolateConfig::new("funrun", limits.active_threads),
        }
    }
}

/// What the metrics show of a pool before it starts.
pub open spec fn pool_updates(pool: Seq<char>, control_plane_lane_enabled: bool) -> Seq<UpdateView> {
    capacity_counters(pool).push(
        gauge(
            "isolate_control_plane_lane_enabled_info"@,
            flag(control_plane_lane_enabled),
            seq![("pool_name"@, pool)],
        ),
    )
}

/// Shows the counters of a pool before it starts.
pub fn announce_pool(pool_name: &'static str, control_plane_lane_enabled: bool, log: &mut MetricLog)
    ensures
        final(log)@ == old(log)@ + pool_updates(pool_name@, control_plane_lane_enabled),
{
    initialize_capacity_counters(log, pool_name);
    log_control_plane_lane_enabled(log, pool_name, control_plane_lane_enabled);
    assert(log@ =~= old(log)@ + pool_updates(pool_name@, control_plane_lane_enabled));
}

/// A capacity of the queue that the metrics show.
pub open spec fn queue_capacity_update(pool: Seq<char>, kind: Seq<char>, capacity: int) -> UpdateView {
    gauge(
        "isolate_queue_capacity_info"@,
        capacity,
        seq![("pool_name"@, pool), ("capacity_kind"@, kind)],
    )
}

pub open spec fn queue_config_update(pool: Seq<char>, kind: Seq<char>, value: Duration) -> UpdateView {
    update(
        MetricOperation::SetGauge,
        "isolate_queue_config_millis_info"@,
        MetricValue::Milliseconds(value),
        seq![("pool_name"@, pool), ("config_kind"@, kind)],
    )
}

/// What the metrics show of a queue that is not controlled by lanes.
pub open spec fn legacy_queue_updates(
    pool: Seq<char>,
    idle_expiration: Duration,
    congested_expiration: Duration,
) -> Seq<UpdateView> {
    seq![
        gauge(
            "isolate_queue_policy_info"@,
            1,
            seq![("pool_name"@, pool), ("policy"@, "legacy_codel"@)],
        ),
        queue_config_update(pool, "idle_expiration_millis"@, idle_expiration),
        queue_config_update(pool, "congested_expiration_millis"@, congested_expiration),
    ]
}

/// Whether a request may use the reserve of a queue without lanes.
pub fn legacy_uses_reserve(lane: IsolateQueueLane) -> (uses: bool)
    ensures
        uses == (lane is Dependency),
{
    match lane {
        IsolateQueueLane::Dependency => true,
        _ => false,
    }
}

/// Why a queue without lanes takes no request.
#[derive(Clone, Copy, Debug, PartialEq, Eq, Structural)]
pub enum LegacyQueueSendError {
    Full,
    Closed,
}

/// Why a request was refused, for what a queue without lanes says.
pub fn legacy_send_error(error: LegacyQueueSendError) -> (refusal: IsolateQueueSendError)
    ensures
        refusal == (match error {
            LegacyQueueSendError::Full => IsolateQueueSendError::QueueFull,
            LegacyQueueSendError::Closed => IsolateQueueSendError::SchedulerClosed,
        }),
{
    match error {
        LegacyQueueSendError::Full => IsolateQueueSendError::QueueFull,
        LegacyQueueSendError::Closed => IsolateQueueSendError::SchedulerClosed,
    }
}

/// A request that left a queue without lanes, with the time at which it expires, or without one if
/// it has expired. Such a queue does not tell how long the request waited.
pub fn legacy_output<T>(item: T, expiration: Option<Moment>) -> (output: IsolateQueueOutput<T>)
    ensures
        output == (IsolateQueueOutput {
            item,
            rejection: match expiration {
                Some(_) => None,
                None => Some(IsolateQueueRejection::HardExpired),
            },
            permit_deadline: expiration,
            dispatch_sojourn: None,
        }),
{
    IsolateQueueOutput {
        item,
        rejection: match expiration {
            Some(_) => None,
            None => Some(IsolateQueueRejection::HardExpired),
        },
        permit_deadline: expiration,
        dispatch_sojourn: None,
    }
}

/// The queue of a pool: one that is controlled by lanes if there are settings for it. Otherwise the
/// pool uses a queue without lanes, and only the metrics of that are shown here.
pub fn new_scheduler_queue<T>(
    pool_name: &'static str,
    now: Moment,
    capacity: usize,
    reserved_capacity: usize,
    delay_control_config: Option<IsolateQueueConfig>,
    idle_expiration: Duration,
    congested_expiration: Duration,
    log: &mut MetricLog,
) -> (queue: Option<IsolateQueueState<T>>)
    requires
        capacity + reserved_capacity <= usize::MAX,
        delay_control_config matches Some(config) ==> config.reaches_from(now@),
    ensures
        match (delay_control_config, queue) {
            (Some(config), Some(state)) => {
                &&& state.wf()
                &&& state@.pool_name == pool_name@
                &&& state@.queue.entries.len() == 0
                &&& state@.queue == state@.queue.drained(now@)
                &&& state@.queue.capacity == capacity
                &&& state@.queue.capacity_with_reserve == capacity + reserved_capacity
                &&& state@.queue.config == config
                &&& state@.senders == 1
                &&& state@.receivers == 1
                &&& state@.reported_ineligible matches Some(counts) && none_blocked(counts)
                    && final(log)@ == old(log)@.push(
                    queue_capacity_update(pool_name@, "shared_base"@, capacity as int),
                ).push(
                    queue_capacity_update(pool_name@, "total"@, capacity + reserved_capacity),
                ).push(
                    queue_capacity_update(
                        pool_name@,
                        "control_plane_lane"@,
                        config.control_plane_capacity as int,
                    ),
                ) + state_updates(pool_name@, state@.queue, now@, 4) + ineligible_updates(
                    pool_name@,
                    None,
                    counts,
                    20,
                ) + policy_updates(pool_name@, config)
            },
            (None, None) => final(log)@ == old(log)@.push(
                queue_capacity_update(pool_name@, "shared_base"@, capacity as int),
            ).push(queue_capacity_update(pool_name@, "total"@, capacity + reserved_capacity))
                + legacy_queue_updates(pool_name@, idle_expiration, congested_expiration),
            _ => false,
        },
{
    log_isolate_queue_capacity(log, pool_name, "shared_base", capacity);
    log_isolate_queue_capacity(log, pool_name, "total", capacity + reserved_capacity);
    match delay_control_config {
        Some(config) => {
            log_isolate_queue_capacity(
                log,
                pool_name,
                "control_plane_lane",
                config.control_plane_capacity,
            );
            Some(new_isolate_queue(pool_name, now, capacity, reserved_capacity, config, log))
        },
        None => {
            let ghost shown = log@;
            log_isolate_queue_policy(log, pool_name, "legacy_codel");
            log_isolate_queue_config(log, pool_name, "idle_expiration_millis", idle_expiration);
            log_isolate_queue_config(
                log,
                pool_name,
                "congested_expiration_millis",
                congested_expiration,
            );
            assert(log@ =~= shown + legacy_queue_updates(
                pool_name@,
                idle_expiration,
                congested_expiration,
            ));
            None
        },
    }
}

/// The share of a client is the least number of workers that makes up its percentage, but at least
/// one; with a larger percentage or more workers it never becomes smaller.
pub proof fn client_shares_are_rounded_up(max_workers: int, percent: int, larger: int)
    requires
        max_workers > 0,
        0 <= percent <= larger,
    ensures
        ({
            let capacity = client_capacity(max_workers, percent);
            &&& percent <= 100 ==> capacity * 100 >= max_workers * percent
            &&& capacity > 1 && percent <= 100 ==> (capacity - 1) * 100 < max_workers * percent
            &&& percent >= 100 ==> capacity == max_workers
            &&& 1 <= capacity <= max_workers
            &&& capacity <= client_capacity(max_workers, larger)
            &&& capacity <= client_capacity(max_workers + 1, percent)
        }),
{
    let product = max_workers * percent;
    assert(product >= 0) by (nonlinear_arith)
        requires
            product == max_workers * percent,
            max_workers > 0,
            percent >= 0,
    ;
    if percent <= 100 {
        assert(product <= max_workers * 100) by (nonlinear_arith)
            requires
                product == max_workers * percent,
                max_workers > 0,
                percent <= 100,
        ;
    }
    assert(product <= max_workers * larger) by (nonlinear_arith)
        requires
            product == max_workers * percent,
            max_workers > 0,
            percent <= larger,
    ;
    assert((max_workers + 1) * percent == product + percent) by (nonlinear_arith)
        requires
            product == max_workers * percent,
    ;
    if larger < 100 {
        assert(max_workers * larger <= max_workers * 99) by (nonlinear_arith)
            requires
                max_workers > 0,
                larger <= 99,
        ;
    }
}

/// Of the workers, those that are kept for requests for which others wait and those that every
/// request can use make up all; as many actions as were asked for may run, or as many as there is
/// room for if no number was given; the queue is controlled, and threads are limited, if and only
/// if that was asked for.
pub proof fn limits_are_what_was_asked_for(
    settings: IsolateSettings,
    queue: Result<IsolateQueueConfig, IsolateQueueConfigError>,
    limits: IsolateLimits,
)
    requires
        settings.is_checked(queue, Ok(limits)),
    ensures
        limits.base_worker_capacity + settings.dependency_worker_reserve
            == settings.max_isolate_workers,
        settings.max_action_workers > 0 ==> limits.max_independent_actions
            == settings.max_action_workers,
        settings.max_action_workers == 0 ==> limits.max_independent_actions
            == limits.base_worker_capacity,
        limits.delay_control is Some <==> settings.delay_control_enabled,
        limits.delay_control matches Some(config) ==> queue
            == Ok::<IsolateQueueConfig, IsolateQueueConfigError>(config),
        limits.active_threads is Some <==> settings.active_threads > 0,
        limits.active_threads matches Some(threads) ==> threads == settings.active_threads,
{
}

/// Settings are accepted if and only if there are workers and a queue, every request can use some
/// worker, the queue can be counted, the actions have room, the check of the queue accepts it, and
/// the lane for deployments fits where it is enabled. A refusal names something that is wrong.
pub proof fn settings_are_refused_for_what_is_wrong(
    settings: IsolateSettings,
    queue: Result<IsolateQueueConfig, IsolateQueueConfigError>,
)
    ensures
        ({
            let lane = settings.control_plane_lane_enabled;
            &&& settings.fault(queue) is None <==> {
                &&& settings.queue_size > 0
                &&& settings.dependency_worker_reserve < settings.max_isolate_workers
                &&& settings.queue_size + settings.dependency_worker_reserve <= usize::MAX
                &&& settings.max_action_workers + settings.dependency_worker_reserve
                    <= settings.max_isolate_workers
                &&& queue is Ok
                &&& settings.analyze_concurrency > 0
                &&& lane ==> settings.delay_control_enabled
                &&& lane ==> settings.analyze_concurrency <= settings.control_plane_queue_capacity
                    <= settings.queue_size
                &&& lane ==> settings.hard_max_age@ < settings.control_plane_hard_max_age@
            }
            &&& settings.fault(queue) matches Some(fault) ==> match fault {
                IsolateLimitError::NoWorkers => settings.max_isolate_workers == 0,
                IsolateLimitError::NoQueue => settings.queue_size == 0,
                IsolateLimitError::ReserveTooLarge => settings.max_isolate_workers
                    <= settings.dependency_worker_reserve,
                IsolateLimitError::QueueOverflow => settings.queue_size
                    + settings.dependency_worker_reserve > usize::MAX,
                IsolateLimitError::TooManyActionWorkers => settings.max_action_workers
                    + settings.dependency_worker_reserve > settings.max_isolate_workers,
                IsolateLimitError::Queue(error) => queue
                    == Err::<IsolateQueueConfig, IsolateQueueConfigError>(error),
                IsolateLimitError::NoAnalyzeConcurrency => settings.analyze_concurrency == 0,
                IsolateLimitError::LaneWithoutDelayControl => lane
                    && !settings.delay_control_enabled,
                IsolateLimitError::LaneSmallerThanAnalyzeConcurrency => lane
                    && settings.control_plane_queue_capacity < settings.analyze_concurrency,
                IsolateLimitError::LaneLargerThanQueue => lane && settings.queue_size
                    < settings.control_plane_queue_capacity,
                IsolateLimitError::LaneMaxAgeTooSmall => lane
                    && settings.control_plane_hard_max_age@ <= settings.hard_max_age@,
            }
        }),
{
}

} // verus!

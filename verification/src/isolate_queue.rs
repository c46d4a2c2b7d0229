//! The queue of the isolate scheduler: lanes, delay control and hard deadlines.
//!
//! Requests leave the queue in the order in which they came, among those that the scheduler can
//! start. A request that reaches its hard deadline is rejected before anything else is selected.
//! A lane in which requests wait too long becomes overloaded; then requests of that lane that have
//! themselves waited too long are shed. Dependencies and control-plane work are never shed.
use std::collections::VecDeque;
use vstd::prelude::*;
use vstd::std_specs::vecdeque::*;

use crate::time::{elapsed_since, Duration, Moment, MAX_NANOS};

verus! {

/// The lanes of the queue.
#[derive(Clone, Copy, Debug, PartialEq, Eq, Structural)]
pub enum IsolateQueueLane {
    Dependency,
    ControlPlane,
    IndependentAction,
    Ordinary,
}

impl IsolateQueueLane {
    pub open spec fn number(self) -> int {
        match self {
            IsolateQueueLane::Dependency => 0,
            IsolateQueueLane::ControlPlane => 1,
            IsolateQueueLane::IndependentAction => 2,
            IsolateQueueLane::Ordinary => 3,
        }
    }

    pub fn index(self) -> (index: usize)
        ensures
            index == self.number(),
            index < 4,
    {
        match self {
            IsolateQueueLane::Dependency => 0,
            IsolateQueueLane::ControlPlane => 1,
            IsolateQueueLane::IndependentAction => 2,
            IsolateQueueLane::Ordinary => 3,
        }
    }

    pub open spec fn label(self) -> Seq<char> {
        match self {
            IsolateQueueLane::Dependency => "dependency"@,
            IsolateQueueLane::ControlPlane => "control_plane"@,
            IsolateQueueLane::IndependentAction => "independent_action"@,
            IsolateQueueLane::Ordinary => "ordinary"@,
        }
    }

    pub fn as_label(self) -> (label: &'static str)
        ensures
            label@ == self.label(),
    {
        match self {
            IsolateQueueLane::Dependency => "dependency",
            IsolateQueueLane::ControlPlane => "control_plane",
            IsolateQueueLane::IndependentAction => "independent_action",
            IsolateQueueLane::Ordinary => "ordinary",
        }
    }

    /// Whether delay control may shed requests of this lane.
    pub open spec fn can_be_shed(self) -> bool {
        self == IsolateQueueLane::IndependentAction || self == IsolateQueueLane::Ordinary
    }
}

/// The limits that keep a request from being started.
#[derive(Clone, Copy, Debug, PartialEq, Eq, Structural)]
pub enum IsolateQueueIneligibilityReason {
    PhysicalTotal,
    SharedBase,
    PerClientTotal,
    PerClientBase,
    IndependentActionCap,
}

impl IsolateQueueIneligibilityReason {
    pub open spec fn number(self) -> int {
        match self {
            IsolateQueueIneligibilityReason::PhysicalTotal => 0,
            IsolateQueueIneligibilityReason::SharedBase => 1,
            IsolateQueueIneligibilityReason::PerClientTotal => 2,
            IsolateQueueIneligibilityReason::PerClientBase => 3,
            IsolateQueueIneligibilityReason::IndependentActionCap => 4,
        }
    }

    pub fn index(self) -> (index: usize)
        ensures
            index == self.number(),
            index < 5,
    {
        match self {
            IsolateQueueIneligibilityReason::PhysicalTotal => 0,
            IsolateQueueIneligibilityReason::SharedBase => 1,
            IsolateQueueIneligibilityReason::PerClientTotal => 2,
            IsolateQueueIneligibilityReason::PerClientBase => 3,
            IsolateQueueIneligibilityReason::IndependentActionCap => 4,
        }
    }

    pub open spec fn label(self) -> Seq<char> {
        match self {
            IsolateQueueIneligibilityReason::PhysicalTotal => "physical_total"@,
            IsolateQueueIneligibilityReason::SharedBase => "shared_base"@,
            IsolateQueueIneligibilityReason::PerClientTotal => "per_client_total"@,
            IsolateQueueIneligibilityReason::PerClientBase => "per_client_base"@,
            IsolateQueueIneligibilityReason::IndependentActionCap => "independent_action_cap"@,
        }
    }

    pub fn as_label(self) -> (label: &'static str)
        ensures
            label@ == self.label(),
    {
        match self {
            IsolateQueueIneligibilityReason::PhysicalTotal => "physical_total",
            IsolateQueueIneligibilityReason::SharedBase => "shared_base",
            IsolateQueueIneligibilityReason::PerClientTotal => "per_client_total",
            IsolateQueueIneligibilityReason::PerClientBase => "per_client_base",
            IsolateQueueIneligibilityReason::IndependentActionCap => "independent_action_cap",
        }
    }
}

/// Which limits keep a request from being started: none of them, if it can start.
#[derive(Clone, Copy, Debug, PartialEq, Eq, Structural)]
pub struct IsolateQueueEligibility {
    pub physical_total: bool,
    pub shared_base: bool,
    pub per_client_total: bool,
    pub per_client_base: bool,
    pub independent_action_cap: bool,
}

impl Default for IsolateQueueEligibility {
    fn default() -> (eligibility: IsolateQueueEligibility)
        ensures
            eligibility.can_start(),
    {
        IsolateQueueEligibility {
            physical_total: false,
            shared_base: false,
            per_client_total: false,
            per_client_base: false,
            independent_action_cap: false,
        }
    }
}

impl IsolateQueueEligibility {
    pub open spec fn can_start(self) -> bool {
        !self.physical_total && !self.shared_base && !self.per_client_total && !self.per_client_base
            && !self.independent_action_cap
    }

    /// Nothing keeps the request from being started.
    pub fn eligible() -> (eligibility: IsolateQueueEligibility)
        ensures
            eligibility.can_start(),
    {
        IsolateQueueEligibility::default()
    }

    pub fn is_eligible(self) -> (eligible: bool)
        ensures
            eligible == self.can_start(),
    {
        !self.physical_total && !self.shared_base && !self.per_client_total && !self.per_client_base
            && !self.independent_action_cap
    }

    pub open spec fn blocked_by(self, reason: IsolateQueueIneligibilityReason) -> bool {
        match reason {
            IsolateQueueIneligibilityReason::PhysicalTotal => self.physical_total,
            IsolateQueueIneligibilityReason::SharedBase => self.shared_base,
            IsolateQueueIneligibilityReason::PerClientTotal => self.per_client_total,
            IsolateQueueIneligibilityReason::PerClientBase => self.per_client_base,
            IsolateQueueIneligibilityReason::IndependentActionCap => self.independent_action_cap,
        }
    }

    pub fn contains(self, reason: IsolateQueueIneligibilityReason) -> (blocked: bool)
        ensures
            blocked == self.blocked_by(reason),
    {
        match reason {
            IsolateQueueIneligibilityReason::PhysicalTotal => self.physical_total,
            IsolateQueueIneligibilityReason::SharedBase => self.shared_base,
            IsolateQueueIneligibilityReason::PerClientTotal => self.per_client_total,
            IsolateQueueIneligibilityReason::PerClientBase => self.per_client_base,
            IsolateQueueIneligibilityReason::IndependentActionCap => self.independent_action_cap,
        }
    }
}

/// The settings of the queue.
#[derive(Clone, Copy, Debug, PartialEq, Eq, Structural)]
pub struct IsolateQueueConfig {
    pub target: Duration,
    pub interval: Duration,
    pub hard_max_age: Duration,
    pub control_plane_hard_max_age: Duration,
    pub control_plane_capacity: usize,
    pub shed_threshold: Duration,
}

/// Why settings of the queue are refused.
#[derive(Clone, Copy, Debug, PartialEq, Eq, Structural)]
pub enum IsolateQueueConfigError {
    TargetZero,
    IntervalZero,
    TargetOverflow,
    HardMaxAgeTooSmall,
    ControlPlaneHardMaxAgeZero,
    ControlPlaneCapacityZero,
    IntervalTooLarge,
    HardMaxAgeTooLarge,
    ControlPlaneHardMaxAgeTooLarge,
}

impl IsolateQueueConfigError {
    pub open spec fn text(self) -> Seq<char> {
        match self {
            IsolateQueueConfigError::TargetZero =>
                "isolate queue delay target must be greater than zero"@,
            IsolateQueueConfigError::IntervalZero =>
                "isolate queue delay interval must be greater than zero"@,
            IsolateQueueConfigError::TargetOverflow => "isolate queue delay target overflow"@,
            IsolateQueueConfigError::HardMaxAgeTooSmall =>
                "isolate queue hard maximum age must be greater than twice the delay target"@,
            IsolateQueueConfigError::ControlPlaneHardMaxAgeZero =>
                "isolate control-plane queue hard maximum age must be greater than zero"@,
            IsolateQueueConfigError::ControlPlaneCapacityZero =>
                "isolate control-plane queue capacity must be greater than zero"@,
            IsolateQueueConfigError::IntervalTooLarge =>
                "isolate queue delay interval is too large"@,
            IsolateQueueConfigError::HardMaxAgeTooLarge =>
                "isolate queue hard maximum age is too large"@,
            IsolateQueueConfigError::ControlPlaneHardMaxAgeTooLarge =>
                "isolate control-plane queue hard maximum age is too large"@,
        }
    }

    pub fn message(self) -> (message: &'static str)
        ensures
            message@ == self.text(),
    {
        match self {
            IsolateQueueConfigError::TargetZero =>
                "isolate queue delay target must be greater than zero",
            IsolateQueueConfigError::IntervalZero =>
                "isolate queue delay interval must be greater than zero",
            IsolateQueueConfigError::TargetOverflow => "isolate queue delay target overflow",
            IsolateQueueConfigError::HardMaxAgeTooSmall =>
                "isolate queue hard maximum age must be greater than twice the delay target",
            IsolateQueueConfigError::ControlPlaneHardMaxAgeZero =>
                "isolate control-plane queue hard maximum age must be greater than zero",
            IsolateQueueConfigError::ControlPlaneCapacityZero =>
                "isolate control-plane queue capacity must be greater than zero",
            IsolateQueueConfigError::IntervalTooLarge =>
                "isolate queue delay interval is too large",
            IsolateQueueConfigError::HardMaxAgeTooLarge =>
                "isolate queue hard maximum age is too large",
            IsolateQueueConfigError::ControlPlaneHardMaxAgeTooLarge =>
                "isolate control-plane queue hard maximum age is too large",
        }
    }
}

/// A point in time of the runtime's clock.
#[verifier::external_type_specification]
#[verifier::external_body]
pub struct ExRuntimeInstant(tokio::time::Instant);

/// Calls `tokio::time::Instant::now`. Nothing is claimed of the time that it returns.
#[verifier::external_body]
fn runtime_now() -> (now: tokio::time::Instant) {
    tokio::time::Instant::now()
}

/// Calls `tokio::time::Instant::checked_add` with the length of time of the given seconds and
/// nanoseconds, and says whether it gave a point in time. Nothing is claimed of the answer, which
/// rests on the clock of the machine and on how far it counts.
#[verifier::external_body]
fn runtime_reaches(now: &tokio::time::Instant, secs: u64, subsec_nanos: u32) -> (reaches: bool)
    requires
        subsec_nanos < 1_000_000_000,
{
    now.checked_add(std::time::Duration::new(secs, subsec_nanos)).is_some()
}

/// Whether the runtime's clock can be asked to wait for each of the configured durations.
#[derive(Clone, Copy, Debug, PartialEq, Eq, Structural)]
pub struct TimerReach {
    pub interval: bool,
    pub hard_max_age: bool,
    pub control_plane_hard_max_age: bool,
}

/// The first rule that the settings break.
pub open spec fn config_fault(
    target: nat,
    interval: nat,
    hard_max_age: nat,
    control_plane_hard_max_age: nat,
    control_plane_capacity: nat,
    reach: TimerReach,
) -> Option<IsolateQueueConfigError> {
    if target == 0 {
        Some(IsolateQueueConfigError::TargetZero)
    } else if interval == 0 {
        Some(IsolateQueueConfigError::IntervalZero)
    } else if target * 2 > MAX_NANOS {
        Some(IsolateQueueConfigError::TargetOverflow)
    } else if hard_max_age <= target * 2 {
        Some(IsolateQueueConfigError::HardMaxAgeTooSmall)
    } else if control_plane_hard_max_age == 0 {
        Some(IsolateQueueConfigError::ControlPlaneHardMaxAgeZero)
    } else if control_plane_capacity == 0 {
        Some(IsolateQueueConfigError::ControlPlaneCapacityZero)
    } else if !reach.interval {
        Some(IsolateQueueConfigError::IntervalTooLarge)
    } else if !reach.hard_max_age {
        Some(IsolateQueueConfigError::HardMaxAgeTooLarge)
    } else if !reach.control_plane_hard_max_age {
        Some(IsolateQueueConfigError::ControlPlaneHardMaxAgeTooLarge)
    } else {
        None
    }
}

/// What checking the settings gives, for what the runtime's clock can reach.
pub open spec fn is_checked_config(
    target: Duration,
    interval: Duration,
    hard_max_age: Duration,
    control_plane_hard_max_age: Duration,
    control_plane_capacity: usize,
    reach: TimerReach,
    config: Result<IsolateQueueConfig, IsolateQueueConfigError>,
) -> bool {
    let fault = config_fault(
        target@,
        interval@,
        hard_max_age@,
        control_plane_hard_max_age@,
        control_plane_capacity as nat,
        reach,
    );
    match config {
        Ok(config) => {
            &&& fault is None
            &&& config.target == target
            &&& config.interval == interval
            &&& config.hard_max_age == hard_max_age
            &&& config.control_plane_hard_max_age == control_plane_hard_max_age
            &&& config.control_plane_capacity == control_plane_capacity
            &&& config.shed_threshold@ == target@ * 2
        },
        Err(error) => fault == Some(error),
    }
}

fn seconds_and_nanos(duration: Duration) -> (parts: (u64, u32))
    ensures
        parts.0 == duration@ / 1_000_000_000,
        parts.1 == duration@ % 1_000_000_000,
{
    let nanos: u128 = duration.as_nanos();
    ((nanos / 1_000_000_000) as u64, (nanos % 1_000_000_000) as u32)
}

/// The lengths of time that the runtime's clock is asked about, in this order, each in seconds and
/// the nanoseconds beyond them.
pub fn timer_requests(
    interval: Duration,
    hard_max_age: Duration,
    control_plane_hard_max_age: Duration,
) -> (requests: [(u64, u32); 3])
    ensures
        requests@[0].0 == interval@ / 1_000_000_000,
        requests@[0].1 == interval@ % 1_000_000_000,
        requests@[1].0 == hard_max_age@ / 1_000_000_000,
        requests@[1].1 == hard_max_age@ % 1_000_000_000,
        requests@[2].0 == control_plane_hard_max_age@ / 1_000_000_000,
        requests@[2].1 == control_plane_hard_max_age@ % 1_000_000_000,
{
    [
        seconds_and_nanos(interval),
        seconds_and_nanos(hard_max_age),
        seconds_and_nanos(control_plane_hard_max_age),
    ]
}

impl IsolateQueueConfig {
    /// Checks the settings of a queue, given what the runtime's clock can reach.
    pub fn with_timer_reach(
        target: Duration,
        interval: Duration,
        hard_max_age: Duration,
        control_plane_hard_max_age: Duration,
        control_plane_capacity: usize,
        reach: TimerReach,
    ) -> (config: Result<IsolateQueueConfig, IsolateQueueConfigError>)
        ensures
            is_checked_config(
                target,
                interval,
                hard_max_age,
                control_plane_hard_max_age,
                control_plane_capacity,
                reach,
                config,
            ),
    {
        if target.as_nanos() == 0 {
            return Err(IsolateQueueConfigError::TargetZero);
        }
        if interval.as_nanos() == 0 {
            return Err(IsolateQueueConfigError::IntervalZero);
        }
        let shed_threshold: Duration = match target.checked_mul(2) {
            Some(threshold) => threshold,
            None => {
                return Err(IsolateQueueConfigError::TargetOverflow);
            },
        };
        if hard_max_age.as_nanos() <= shed_threshold.as_nanos() {
            return Err(IsolateQueueConfigError::HardMaxAgeTooSmall);
        }
        if control_plane_hard_max_age.as_nanos() == 0 {
            return Err(IsolateQueueConfigError::ControlPlaneHardMaxAgeZero);
        }
        if control_plane_capacity == 0 {
            return Err(IsolateQueueConfigError::ControlPlaneCapacityZero);
        }
        if !reach.interval {
            return Err(IsolateQueueConfigError::IntervalTooLarge);
        }
        if !reach.hard_max_age {
            return Err(IsolateQueueConfigError::HardMaxAgeTooLarge);
        }
        if !reach.control_plane_hard_max_age {
            return Err(IsolateQueueConfigError::ControlPlaneHardMaxAgeTooLarge);
        }
        Ok(
            IsolateQueueConfig {
                target,
                interval,
                hard_max_age,
                control_plane_hard_max_age,
                control_plane_capacity,
                shed_threshold,
            },
        )
    }

    /// Checks the settings of a queue. A duration that is a valid number may still be longer than
    /// the runtime's clock can wait.
    pub fn new(
        target: Duration,
        interval: Duration,
        hard_max_age: Duration,
        control_plane_hard_max_age: Duration,
        control_plane_capacity: usize,
    ) -> (config: Result<IsolateQueueConfig, IsolateQueueConfigError>)
        ensures
            exists|reach: TimerReach|
                is_checked_config(
                    target,
                    interval,
                    hard_max_age,
                    control_plane_hard_max_age,
                    control_plane_capacity,
                    reach,
                    config,
                ),
    {
        let now = runtime_now();
        let requests = timer_requests(interval, hard_max_age, control_plane_hard_max_age);
        let reach = TimerReach {
            interval: runtime_reaches(&now, requests[0].0, requests[0].1),
            hard_max_age: runtime_reaches(&now, requests[1].0, requests[1].1),
            control_plane_hard_max_age: runtime_reaches(&now, requests[2].0, requests[2].1),
        };
        IsolateQueueConfig::with_timer_reach(
            target,
            interval,
            hard_max_age,
            control_plane_hard_max_age,
            control_plane_capacity,
            reach,
        )
    }

    /// The age at which a request of a lane is rejected.
    pub open spec fn max_age(self, lane: IsolateQueueLane) -> nat {
        if lane == IsolateQueueLane::ControlPlane {
            self.control_plane_hard_max_age@
        } else {
            self.hard_max_age@
        }
    }

    /// Whether all deadlines that start at a time are in range.
    pub open spec fn reaches_from(self, now: nat) -> bool {
        &&& now + self.interval@ <= MAX_NANOS
        &&& now + self.hard_max_age@ <= MAX_NANOS
        &&& now + self.control_plane_hard_max_age@ <= MAX_NANOS
    }

    /// Whether all deadlines that start at a time are in range.
    pub fn can_start_at(&self, now: Moment) -> (in_range: bool)
        ensures
            in_range == self.reaches_from(now@),
    {
        now.checked_add(self.interval).is_some() && now.checked_add(self.hard_max_age).is_some()
            && now.checked_add(self.control_plane_hard_max_age).is_some()
    }
}

/// Whether the overload of a lane began or ended.
#[derive(Clone, Copy, Debug, PartialEq, Eq, Structural)]
pub struct ControllerTransitions {
    pub entered: bool,
    pub cleared: bool,
}

impl Default for ControllerTransitions {
    fn default() -> (transitions: ControllerTransitions)
        ensures
            transitions == ControllerTransitions::none(),
    {
        ControllerTransitions { entered: false, cleared: false }
    }
}

impl ControllerTransitions {
    pub open spec fn none() -> ControllerTransitions {
        ControllerTransitions { entered: false, cleared: false }
    }

    /// What happened when overload was `before` and is `after`.
    pub open spec fn between(before: bool, after: bool) -> ControllerTransitions {
        ControllerTransitions { entered: !before && after, cleared: before && !after }
    }

    pub open spec fn with(self, other: ControllerTransitions) -> ControllerTransitions {
        ControllerTransitions {
            entered: self.entered || other.entered,
            cleared: self.cleared || other.cleared,
        }
    }

    /// Adds what happened next.
    pub fn merge(&mut self, other: ControllerTransitions)
        ensures
            *final(self) == old(self).with(other),
    {
        self.entered = self.entered || other.entered;
        self.cleared = self.cleared || other.cleared;
    }
}

/// The delay control of a lane: the least time that its requests waited in the current interval.
#[derive(Clone, Copy, Debug, PartialEq, Eq, Structural)]
pub struct LaneDelayController {
    pub interval_end: Moment,
    pub min_sojourn: Option<Duration>,
    pub sample_count: usize,
    pub overloaded: bool,
}

/// What a `LaneDelayController` holds.
pub struct ControllerModel {
    pub interval_end: nat,
    pub min_sojourn: Option<nat>,
    pub sample_count: nat,
    pub overloaded: bool,
}

impl View for LaneDelayController {
    type V = ControllerModel;

    open spec fn view(&self) -> ControllerModel {
        ControllerModel {
            interval_end: self.interval_end@,
            min_sojourn: match self.min_sojourn {
                Some(sojourn) => Some(sojourn@),
                None => None,
            },
            sample_count: self.sample_count as nat,
            overloaded: self.overloaded,
        }
    }
}

impl ControllerModel {
    /// A controller whose first interval starts now.
    pub open spec fn fresh(now: nat, interval: nat) -> ControllerModel {
        ControllerModel {
            interval_end: now + interval,
            min_sojourn: None,
            sample_count: 0,
            overloaded: false,
        }
    }

    /// Whether the lane is overloaded after an interval: two slow samples begin an overload, and
    /// one fast sample ends it.
    pub open spec fn judged(self, target: nat) -> bool {
        match self.min_sojourn {
            Some(least) => if self.sample_count >= 2 && least > target {
                true
            } else if self.sample_count > 0 && least <= target {
                false
            } else {
                self.overloaded
            },
            None => self.overloaded,
        }
    }

    /// The controller at a time: the interval that is over was judged and a new one started.
    pub open spec fn at(self, now: nat, target: nat, interval: nat) -> ControllerModel {
        if now >= self.interval_end {
            ControllerModel {
                overloaded: self.judged(target),
                ..ControllerModel::fresh(now, interval)
            }
        } else {
            self
        }
    }

    /// The controller after a request that waited for `sojourn` left the lane.
    pub open spec fn observed(self, now: nat, sojourn: nat, target: nat, interval: nat) -> ControllerModel {
        let current = self.at(now, target, interval);
        ControllerModel {
            min_sojourn: match current.min_sojourn {
                Some(least) if least <= sojourn => Some(least),
                _ => Some(sojourn),
            },
            sample_count: current.sample_count + 1,
            ..current
        }
    }
}

impl LaneDelayController {
    pub fn new(now: Moment, interval: Duration) -> (controller: LaneDelayController)
        requires
            now@ + interval@ <= MAX_NANOS,
        ensures
            controller@ == ControllerModel::fresh(now@, interval@),
    {
        LaneDelayController {
            interval_end: now.plus(interval),
            min_sojourn: None,
            sample_count: 0,
            overloaded: false,
        }
    }

    /// Takes in how long a request waited. A sample after the end of the interval starts a new
    /// one; intervals without samples change nothing.
    pub fn observe(&mut self, now: Moment, sojourn: Duration, config: &IsolateQueueConfig) -> (
    transitions: ControllerTransitions)
        requires
            now@ + config.interval@ <= MAX_NANOS,
            old(self).sample_count < usize::MAX,
        ensures
            final(self)@ == old(self)@.observed(
                now@,
                sojourn@,
                config.target@,
                config.interval@,
            ),
            transitions == ControllerTransitions::between(
                old(self).overloaded,
                final(self).overloaded,
            ),
            final(self)@.min_sojourn matches Some(least) && least <= sojourn@ && (least == sojourn@
                || (now@ < old(self)@.interval_end && old(self)@.min_sojourn == Some(least))),
            now@ < old(self)@.interval_end ==> (old(self)@.min_sojourn matches Some(earlier)
                ==> final(self)@.min_sojourn->0 <= earlier),
    {
        let mut transitions = ControllerTransitions::default();
        if now.as_nanos() >= self.interval_end.as_nanos() {
            let previous_overloaded = self.overloaded;
            if let Some(least) = self.min_sojourn {
                if self.sample_count >= 2 && least.as_nanos() > config.target.as_nanos() {
                    self.overloaded = true;
                } else if self.sample_count > 0 && least.as_nanos() <= config.target.as_nanos() {
                    self.overloaded = false;
                }
            }
            transitions.entered = !previous_overloaded && self.overloaded;
            transitions.cleared = previous_overloaded && !self.overloaded;
            self.interval_end = now.plus(config.interval);
            self.min_sojourn = None;
            self.sample_count = 0;
        }
        self.min_sojourn = match self.min_sojourn {
            Some(least) => {
                if least.as_nanos() <= sojourn.as_nanos() {
                    Some(least)
                } else {
                    Some(sojourn)
                }
            },
            None => Some(sojourn),
        };
        self.sample_count = self.sample_count + 1;
        transitions
    }

    /// Starts over, without overload.
    pub fn reset(&mut self, now: Moment, interval: Duration) -> (transitions:
        ControllerTransitions)
        requires
            now@ + interval@ <= MAX_NANOS,
        ensures
            final(self)@ == ControllerModel::fresh(now@, interval@),
            transitions == ControllerTransitions::between(old(self).overloaded, false),
    {
        let cleared = self.overloaded;
        *self = LaneDelayController::new(now, interval);
        ControllerTransitions { entered: false, cleared }
    }
}

/// A request in the queue.
pub struct QueueEntry<T> {
    pub item: T,
    pub lane: IsolateQueueLane,
    pub enqueued_at: Moment,
    pub hard_deadline: Moment,
}

/// What a `QueueEntry` holds.
pub struct EntryModel<T> {
    pub item: T,
    pub lane: IsolateQueueLane,
    pub enqueued_at: nat,
    pub hard_deadline: nat,
}

impl<T> View for QueueEntry<T> {
    type V = EntryModel<T>;

    open spec fn view(&self) -> EntryModel<T> {
        EntryModel {
            item: self.item,
            lane: self.lane,
            enqueued_at: self.enqueued_at@,
            hard_deadline: self.hard_deadline@,
        }
    }
}

impl<T> EntryModel<T> {
    /// Whether the request has reached its hard deadline.
    pub open spec fn due(self, now: nat) -> bool {
        now >= self.hard_deadline
    }
}

/// What a list of requests holds.
pub open spec fn entry_models<T>(entries: Seq<QueueEntry<T>>) -> Seq<EntryModel<T>> {
    entries.map_values(|entry: QueueEntry<T>| entry@)
}

/// Why a request was not taken into the queue.
#[derive(Clone, Copy, Debug, PartialEq, Eq, Structural)]
pub enum IsolateQueueSendError {
    QueueFull,
    LaneFull,
    SchedulerClosed,
}

impl IsolateQueueSendError {
    pub open spec fn label(self) -> Seq<char> {
        match self {
            IsolateQueueSendError::QueueFull => "queue_full"@,
            IsolateQueueSendError::LaneFull => "lane_full"@,
            IsolateQueueSendError::SchedulerClosed => "scheduler_closed"@,
        }
    }

    pub fn as_label(self) -> (label: &'static str)
        ensures
            label@ == self.label(),
    {
        match self {
            IsolateQueueSendError::QueueFull => "queue_full",
            IsolateQueueSendError::LaneFull => "lane_full",
            IsolateQueueSendError::SchedulerClosed => "scheduler_closed",
        }
    }
}

/// Why a request that left the queue is rejected.
#[derive(Clone, Copy, Debug, PartialEq, Eq, Structural)]
pub enum IsolateQueueRejection {
    HardExpired,
    DelayControlShed,
}

impl IsolateQueueRejection {
    pub open spec fn label(self) -> Seq<char> {
        match self {
            IsolateQueueRejection::HardExpired => "hard_expired"@,
            IsolateQueueRejection::DelayControlShed => "delay_control_shed"@,
        }
    }

    pub fn as_label(self) -> (label: &'static str)
        ensures
            label@ == self.label(),
    {
        match self {
            IsolateQueueRejection::HardExpired => "hard_expired",
            IsolateQueueRejection::DelayControlShed => "delay_control_shed",
        }
    }
}

/// A request that left the queue.
pub struct IsolateQueueOutput<T> {
    pub item: T,
    pub rejection: Option<IsolateQueueRejection>,
    /// The deadline that still bounds the wait for the first permit of a selected request.
    pub permit_deadline: Option<Moment>,
    /// How long a selected request waited in its lane, to be shown when a worker has it.
    pub dispatch_sojourn: Option<(IsolateQueueLane, Duration)>,
}

/// What an `IsolateQueueOutput` holds.
pub struct OutputModel<T> {
    pub item: T,
    pub rejection: Option<IsolateQueueRejection>,
    pub permit_deadline: Option<nat>,
    pub dispatch_sojourn: Option<(IsolateQueueLane, nat)>,
}

impl<T> View for IsolateQueueOutput<T> {
    type V = OutputModel<T>;

    open spec fn view(&self) -> OutputModel<T> {
        OutputModel {
            item: self.item,
            rejection: self.rejection,
            permit_deadline: match self.permit_deadline {
                Some(deadline) => Some(deadline@),
                None => None,
            },
            dispatch_sojourn: match self.dispatch_sojourn {
                Some((lane, sojourn)) => Some((lane, sojourn@)),
                None => None,
            },
        }
    }
}

/// A request that left the queue, with its lane and what became of the lane's overload.
pub struct QueuePop<T> {
    pub output: IsolateQueueOutput<T>,
    pub lane: IsolateQueueLane,
    pub transitions: ControllerTransitions,
}

/// What a `QueuePop` holds.
pub struct PopModel<T> {
    pub output: OutputModel<T>,
    pub lane: IsolateQueueLane,
    pub transitions: ControllerTransitions,
}

impl<T> View for QueuePop<T> {
    type V = PopModel<T>;

    open spec fn view(&self) -> PopModel<T> {
        PopModel { output: self.output@, lane: self.lane, transitions: self.transitions }
    }
}

/// How many requests are of a lane.
pub open spec fn lane_count<T>(entries: Seq<EntryModel<T>>, lane: IsolateQueueLane) -> nat
    decreases entries.len(),
{
    if entries.len() == 0 {
        0
    } else {
        lane_count(entries.drop_last(), lane) + (if entries.last().lane == lane {
            1nat
        } else {
            0nat
        })
    }
}

proof fn lemma_lane_count_bound<T>(entries: Seq<EntryModel<T>>, lane: IsolateQueueLane)
    ensures
        lane_count(entries, lane) <= entries.len(),
    decreases entries.len(),
{
    if entries.len() > 0 {
        lemma_lane_count_bound(entries.drop_last(), lane);
    }
}

proof fn lemma_lane_count_push<T>(
    entries: Seq<EntryModel<T>>,
    entry: EntryModel<T>,
    lane: IsolateQueueLane,
)
    ensures
        lane_count(entries.push(entry), lane) == lane_count(entries, lane) + (if entry.lane == lane {
            1nat
        } else {
            0nat
        }),
{
    assert(entries.push(entry).drop_last() =~= entries);
}

proof fn lemma_lane_count_remove<T>(
    entries: Seq<EntryModel<T>>,
    i: int,
    lane: IsolateQueueLane,
)
    requires
        0 <= i < entries.len(),
    ensures
        lane_count(entries, lane) == lane_count(entries.remove(i), lane) + (if entries[i].lane
            == lane {
            1nat
        } else {
            0nat
        }),
    decreases entries.len(),
{
    if i == entries.len() - 1 {
        assert(entries.remove(i) =~= entries.drop_last());
    } else {
        lemma_lane_count_remove(entries.drop_last(), i, lane);
        assert(entries.remove(i).drop_last() =~= entries.drop_last().remove(i));
        assert(entries.remove(i).last() == entries.last());
    }
}

/// The first request from position `i` on that has reached its hard deadline.
pub open spec fn first_due<T>(entries: Seq<EntryModel<T>>, now: nat, i: int) -> Option<int>
    decreases entries.len() - i,
{
    if i >= entries.len() {
        None
    } else if entries[i].due(now) {
        Some(i)
    } else {
        first_due(entries, now, i + 1)
    }
}

/// The first request from position `i` on that can start.
pub open spec fn first_eligible(verdicts: Seq<IsolateQueueEligibility>, i: int) -> Option<int>
    decreases verdicts.len() - i,
{
    if i >= verdicts.len() {
        None
    } else if verdicts[i].can_start() {
        Some(i)
    } else {
        first_eligible(verdicts, i + 1)
    }
}

/// What the queue holds.
pub struct QueueModel<T> {
    pub entries: Seq<EntryModel<T>>,
    pub controllers: Seq<ControllerModel>,
    pub capacity: nat,
    pub capacity_with_reserve: nat,
    pub config: IsolateQueueConfig,
}

impl<T> QueueModel<T> {
    /// How many requests of a lane wait.
    pub open spec fn depth(self, lane: IsolateQueueLane) -> nat {
        lane_count(self.entries, lane)
    }

    /// Why a request of a lane is not taken: only dependencies may use the reserve.
    pub open spec fn refusal(self, lane: IsolateQueueLane) -> Option<IsolateQueueSendError> {
        let room = if lane == IsolateQueueLane::Dependency {
            self.capacity_with_reserve
        } else {
            self.capacity
        };
        if self.entries.len() >= room {
            Some(IsolateQueueSendError::QueueFull)
        } else if lane == IsolateQueueLane::ControlPlane && self.depth(lane)
            >= self.config.control_plane_capacity {
            Some(IsolateQueueSendError::LaneFull)
        } else {
            None
        }
    }

    /// The queue after a request was taken. The first request of a lane starts its delay control
    /// afresh.
    pub open spec fn pushed(self, item: T, lane: IsolateQueueLane, now: nat) -> QueueModel<T> {
        QueueModel {
            entries: self.entries.push(
                EntryModel {
                    item,
                    lane,
                    enqueued_at: now,
                    hard_deadline: now + self.config.max_age(lane),
                },
            ),
            controllers: if self.depth(lane) == 0 {
                self.controllers.update(
                    lane.number(),
                    ControllerModel::fresh(now, self.config.interval@),
                )
            } else {
                self.controllers
            },
            ..self
        }
    }

    /// The queue without the request at `i`.
    pub open spec fn without(self, i: int) -> QueueModel<T> {
        QueueModel { entries: self.entries.remove(i), ..self }
    }

    /// The queue with the delay control of a lane started afresh, if the lane is empty.
    pub open spec fn reset_if_drained(self, lane: IsolateQueueLane, now: nat) -> QueueModel<T> {
        if self.depth(lane) > 0 {
            self
        } else {
            QueueModel {
                controllers: self.controllers.update(
                    lane.number(),
                    ControllerModel::fresh(now, self.config.interval@),
                ),
                ..self
            }
        }
    }

    /// What becomes of the overload of a lane that may be empty.
    pub open spec fn drain_transitions(self, lane: IsolateQueueLane) -> ControllerTransitions {
        if self.depth(lane) > 0 {
            ControllerTransitions::none()
        } else {
            ControllerTransitions::between(self.controllers[lane.number()].overloaded, false)
        }
    }

    /// The queue after the request at `i` expired.
    pub open spec fn after_expiry(self, i: int, now: nat) -> QueueModel<T> {
        self.without(i).reset_if_drained(self.entries[i].lane, now)
    }

    /// The request at `i` when it expires.
    pub open spec fn expired(self, i: int) -> PopModel<T> {
        let entry = self.entries[i];
        PopModel {
            output: OutputModel {
                item: entry.item,
                rejection: Some(IsolateQueueRejection::HardExpired),
                permit_deadline: None,
                dispatch_sojourn: None,
            },
            lane: entry.lane,
            transitions: self.without(i).drain_transitions(entry.lane),
        }
    }

    /// The delay control of its lane after the request at `i` was selected.
    pub open spec fn observed(self, i: int, now: nat) -> ControllerModel {
        let entry = self.entries[i];
        self.controllers[entry.lane.number()].observed(
            now,
            elapsed_since(now, entry.enqueued_at),
            self.config.target@,
            self.config.interval@,
        )
    }

    /// The queue after the request at `i` left, before its lane is looked at for requests left.
    pub open spec fn dispatched(self, i: int, now: nat) -> QueueModel<T> {
        QueueModel {
            controllers: self.controllers.update(
                self.entries[i].lane.number(),
                self.observed(i, now),
            ),
            ..self.without(i)
        }
    }

    /// The queue after the request at `i` was selected.
    pub open spec fn after_selection(self, i: int, now: nat) -> QueueModel<T> {
        self.dispatched(i, now).reset_if_drained(self.entries[i].lane, now)
    }

    /// Whether the request at `i` is shed: its lane is overloaded, may be shed, and the request
    /// itself waited too long.
    pub open spec fn sheds(self, i: int, now: nat) -> bool {
        &&& self.entries[i].lane.can_be_shed()
        &&& self.observed(i, now).overloaded
        &&& elapsed_since(now, self.entries[i].enqueued_at) > self.config.shed_threshold@
    }

    /// The request at `i` when it is selected.
    pub open spec fn selected(self, i: int, now: nat) -> PopModel<T> {
        let entry = self.entries[i];
        let shed = self.sheds(i, now);
        PopModel {
            output: OutputModel {
                item: entry.item,
                rejection: if shed {
                    Some(IsolateQueueRejection::DelayControlShed)
                } else {
                    None
                },
                permit_deadline: if shed {
                    None
                } else {
                    Some(entry.hard_deadline)
                },
                dispatch_sojourn: if shed {
                    None
                } else {
                    Some((entry.lane, elapsed_since(now, entry.enqueued_at)))
                },
            },
            lane: entry.lane,
            transitions: ControllerTransitions::between(
                self.controllers[entry.lane.number()].overloaded,
                self.observed(i, now).overloaded,
            ).with(self.dispatched(i, now).drain_transitions(entry.lane)),
        }
    }

    /// The queue after everything was thrown out.
    pub open spec fn drained(self, now: nat) -> QueueModel<T> {
        let fresh = ControllerModel::fresh(now, self.config.interval@);
        QueueModel {
            entries: Seq::empty(),
            controllers: seq![fresh, fresh, fresh, fresh],
            ..self
        }
    }

    /// Whether every lane can count one more sample.
    pub open spec fn counts_samples(self) -> bool {
        forall|i: int|
            0 <= i < self.controllers.len() ==> (#[trigger] self.controllers[i]).sample_count
                < usize::MAX
    }

    /// The deadlines of the requests are those of their lanes.
    pub open spec fn keeps_deadlines(self) -> bool {
        forall|i: int|
            0 <= i < self.entries.len() ==> (#[trigger] self.entries[i]).hard_deadline
                == self.entries[i].enqueued_at + self.config.max_age(self.entries[i].lane)
    }

    /// A lane without requests is not overloaded.
    pub open spec fn empty_lanes_are_calm(self) -> bool {
        forall|lane: IsolateQueueLane|
            self.depth(lane) == 0 ==> !self.controllers[#[trigger] lane.number()].overloaded
    }

    /// The queue keeps its limits, and what is not a dependency fits without the reserve.
    pub open spec fn within_limits(self) -> bool {
        &&& self.controllers.len() == 4
        &&& self.capacity <= self.capacity_with_reserve
        &&& self.entries.len() <= self.capacity_with_reserve
        &&& self.entries.len() - self.depth(IsolateQueueLane::Dependency) <= self.capacity
        &&& self.depth(IsolateQueueLane::ControlPlane) <= self.config.control_plane_capacity
    }
}

/// How many requests each limit blocks in each lane.
#[derive(Clone, Copy, Debug)]
pub struct IneligibleCounts {
    counts: [usize; 20],
}

pub open spec fn cell(
    lane: IsolateQueueLane,
    reason: IsolateQueueIneligibilityReason,
) -> int {
    lane.number() * 5 + reason.number()
}

impl IneligibleCounts {
    /// How many requests of a lane a limit blocks.
    pub closed spec fn count(
        self,
        lane: IsolateQueueLane,
        reason: IsolateQueueIneligibilityReason,
    ) -> nat {
        self.counts@[cell(lane, reason)] as nat
    }

    pub fn zero() -> (counts: IneligibleCounts)
        ensures
            forall|lane: IsolateQueueLane, reason: IsolateQueueIneligibilityReason|
                counts.count(lane, reason) == 0,
    {
        IneligibleCounts { counts: [0;20] }
    }

    fn add_if(&mut self, i: usize, add: bool)
        requires
            i < 20,
            old(self).counts@[i as int] < usize::MAX,
        ensures
            final(self).counts@ == (if add {
                old(self).counts@.update(i as int, (old(self).counts@[i as int] + 1) as usize)
            } else {
                old(self).counts@
            }),
    {
        if add {
            self.counts[i] = self.counts[i] + 1;
        }
    }

    /// Counts a request that limits block.
    pub fn increment(&mut self, lane: IsolateQueueLane, eligibility: IsolateQueueEligibility)
        requires
            forall|reason: IsolateQueueIneligibilityReason|
                old(self).count(lane, reason) < usize::MAX,
        ensures
            forall|l: IsolateQueueLane, reason: IsolateQueueIneligibilityReason|
                #![trigger final(self).count(l, reason)]
                final(self).count(l, reason) == old(self).count(l, reason) + (if l == lane
                    && eligibility.blocked_by(reason) {
                    1nat
                } else {
                    0nat
                }),
    {
        let row: usize = lane.index() * 5;
        proof {
            assert(old(self).count(lane, IsolateQueueIneligibilityReason::PhysicalTotal)
                < usize::MAX);
            assert(old(self).count(lane, IsolateQueueIneligibilityReason::SharedBase)
                < usize::MAX);
            assert(old(self).count(lane, IsolateQueueIneligibilityReason::PerClientTotal)
                < usize::MAX);
            assert(old(self).count(lane, IsolateQueueIneligibilityReason::PerClientBase)
                < usize::MAX);
            assert(old(self).count(lane, IsolateQueueIneligibilityReason::IndependentActionCap)
                < usize::MAX);
        }
        self.add_if(row, eligibility.physical_total);
        self.add_if(row + 1, eligibility.shared_base);
        self.add_if(row + 2, eligibility.per_client_total);
        self.add_if(row + 3, eligibility.per_client_base);
        self.add_if(row + 4, eligibility.independent_action_cap);
    }

    pub fn get(
        &self,
        lane: IsolateQueueLane,
        reason: IsolateQueueIneligibilityReason,
    ) -> (count: usize)
        ensures
            count == self.count(lane, reason),
    {
        self.counts[lane.index() * 5 + reason.index()]
    }
}

/// How many of the first `n` requests of a lane are not due and are blocked by a limit.
pub open spec fn tally<T>(
    entries: Seq<EntryModel<T>>,
    verdicts: Seq<IsolateQueueEligibility>,
    now: nat,
    n: int,
    lane: IsolateQueueLane,
    reason: IsolateQueueIneligibilityReason,
) -> nat
    decreases n,
{
    if n <= 0 {
        0
    } else {
        tally(entries, verdicts, now, n - 1, lane, reason) + (if entries[n - 1].lane == lane
            && !entries[n - 1].due(now) && verdicts[n - 1].blocked_by(reason) {
            1nat
        } else {
            0nat
        })
    }
}

/// Whether counts are those of all requests that are not due.
pub open spec fn counts_blocked<T>(
    counts: IneligibleCounts,
    entries: Seq<EntryModel<T>>,
    verdicts: Seq<IsolateQueueEligibility>,
    now: nat,
) -> bool {
    forall|lane: IsolateQueueLane, reason: IsolateQueueIneligibilityReason| #[trigger]
        counts.count(lane, reason) == tally(
            entries,
            verdicts,
            now,
            entries.len() as int,
            lane,
            reason,
        )
}

/// Whether verdicts are answers that the scheduler may give for the requests that are not due.
pub open spec fn judges<T, F: Fn(&T) -> IsolateQueueEligibility>(
    select: F,
    entries: Seq<EntryModel<T>>,
    now: nat,
    verdicts: Seq<IsolateQueueEligibility>,
) -> bool {
    &&& verdicts.len() == entries.len()
    &&& forall|i: int|
        0 <= i < entries.len() && !entries[i].due(now) ==> select.ensures(
            (&entries[i].item,),
            #[trigger] verdicts[i],
        )
}

/// What looking for the next request gave.
pub struct SelectionAttempt<T> {
    pub selected: Option<QueuePop<T>>,
    pub ineligible: IneligibleCounts,
}

/// The queue of the isolate scheduler.
pub struct IsolateDelayQueue<T> {
    buffer: VecDeque<QueueEntry<T>>,
    lane_depths: [usize; 4],
    capacity: usize,
    capacity_with_reserve: usize,
    config: IsolateQueueConfig,
    controllers: [LaneDelayController; 4],
}

impl<T> View for IsolateDelayQueue<T> {
    type V = QueueModel<T>;

    closed spec fn view(&self) -> QueueModel<T> {
        QueueModel {
            entries: entry_models(self.buffer@),
            controllers: self.controllers@.map_values(|c: LaneDelayController| c@),
            capacity: self.capacity as nat,
            capacity_with_reserve: self.capacity_with_reserve as nat,
            config: self.config,
        }
    }
}

impl<T> IsolateDelayQueue<T> {
    /// The queue keeps its limits and deadlines, and knows how many requests of each lane wait.
    spec fn consistent(self) -> bool {
        &&& self@.within_limits()
        &&& self@.keeps_deadlines()
        &&& forall|lane: IsolateQueueLane|
            self.lane_depths@[#[trigger] lane.number()] == self@.depth(lane)
    }

    /// Whether the queue is in order.
    pub closed spec fn wf(self) -> bool {
        self.consistent() && self@.empty_lanes_are_calm()
    }

    /// A queue without requests.
    pub fn new(
        now: Moment,
        capacity: usize,
        reserved_capacity: usize,
        config: IsolateQueueConfig,
    ) -> (queue: IsolateDelayQueue<T>)
        requires
            capacity + reserved_capacity <= usize::MAX,
            config.reaches_from(now@),
        ensures
            queue.wf(),
            queue@ == (QueueModel::<T> {
                entries: Seq::empty(),
                controllers: seq![
                    ControllerModel::fresh(now@, config.interval@),
                    ControllerModel::fresh(now@, config.interval@),
                    ControllerModel::fresh(now@, config.interval@),
                    ControllerModel::fresh(now@, config.interval@),
                ],
                capacity: capacity as nat,
                capacity_with_reserve: (capacity + reserved_capacity) as nat,
                config,
            }),
    {
        let controller = LaneDelayController::new(now, config.interval);
        let queue = IsolateDelayQueue {
            buffer: VecDeque::new(),
            lane_depths: [0;4],
            capacity,
            capacity_with_reserve: capacity + reserved_capacity,
            config,
            controllers: [controller;4],
        };
        proof {
            let fresh = ControllerModel::fresh(now@, config.interval@);
            assert(queue@.entries =~= Seq::empty());
            assert(queue@.controllers =~= seq![fresh, fresh, fresh, fresh]);
        }
        queue
    }

    /// Takes a request, and says whether it uses the reserve. A request that is refused is given
    /// back.
    pub fn push(&mut self, item: T, lane: IsolateQueueLane, now: Moment) -> (pushed: Result<
        bool,
        (IsolateQueueSendError, T),
    >)
        requires
            old(self).wf(),
            old(self)@.config.reaches_from(now@),
        ensures
            final(self).wf(),
            match pushed {
                Ok(used_reserve) => {
                    &&& old(self)@.refusal(lane) is None
                    &&& used_reserve == (old(self)@.entries.len() >= old(self)@.capacity)
                    &&& final(self)@ == old(self)@.pushed(item, lane, now@)
                },
                Err((error, returned)) => {
                    &&& old(self)@.refusal(lane) == Some(error)
                    &&& returned == item
                    &&& final(self)@ == old(self)@
                },
            },
    {
        let room: usize = if lane == IsolateQueueLane::Dependency {
            self.capacity_with_reserve
        } else {
            self.capacity
        };
        let i: usize = lane.index();
        assert(self.lane_depths@[lane.number()] == self@.depth(lane));
        if self.buffer.len() >= room {
            return Err((IsolateQueueSendError::QueueFull, item));
        }
        if lane == IsolateQueueLane::ControlPlane && self.lane_depths[i]
            >= self.config.control_plane_capacity {
            return Err((IsolateQueueSendError::LaneFull, item));
        }
        let ghost before = self@;
        if self.lane_depths[i] == 0 {
            self.controllers[i] = LaneDelayController::new(now, self.config.interval);
        }
        let used_reserve = self.buffer.len() >= self.capacity;
        proof {
            lemma_lane_count_bound(before.entries, lane);
        }
        self.lane_depths[i] = self.lane_depths[i] + 1;
        let hard_deadline: Moment = if lane == IsolateQueueLane::ControlPlane {
            now.plus(self.config.control_plane_hard_max_age)
        } else {
            now.plus(self.config.hard_max_age)
        };
        let entry = QueueEntry { item, lane, enqueued_at: now, hard_deadline };
        self.buffer.push_back(entry);
        proof {
            let after = before.pushed(item, lane, now@);
            assert(self@.entries =~= after.entries);
            assert(self@.controllers =~= after.controllers);
            assert forall|other: IsolateQueueLane| self.lane_depths@[#[trigger] other.number()]
                == self@.depth(other) by {
                lemma_lane_count_push(before.entries, entry@, other);
                assert(old(self).lane_depths@[other.number()] == before.depth(other));
            }
            lemma_lane_count_push(before.entries, entry@, IsolateQueueLane::Dependency);
            lemma_lane_count_push(before.entries, entry@, IsolateQueueLane::ControlPlane);
        }
        Ok(used_reserve)
    }

    /// Takes out the request at a position.
    fn remove(&mut self, index: usize) -> (entry: QueueEntry<T>)
        requires
            old(self).consistent(),
            index < old(self)@.entries.len(),
        ensures
            final(self).consistent(),
            entry@ == old(self)@.entries[index as int],
            final(self)@ == old(self)@.without(index as int),
            final(self).controllers@ == old(self).controllers@,
            forall|other: IsolateQueueLane|
                other != entry.lane ==> final(self)@.depth(other) == #[trigger] old(self)@.depth(
                    other,
                ),
    {
        let ghost before = self@;
        let entry: QueueEntry<T> = match self.buffer.remove(index) {
            Some(entry) => entry,
            None => {
                // The position is within the queue.
                assert(false);
                loop
                    invariant
                        false,
                    decreases 0nat,
                {
                }
            },
        };
        proof {
            assert(self@.entries =~= before.entries.remove(index as int));
            assert(entry@ == before.entries[index as int]);
            lemma_lane_count_remove(before.entries, index as int, entry.lane);
            assert(old(self).lane_depths@[entry.lane.number()] == before.depth(entry.lane));
        }
        let i: usize = entry.lane.index();
        self.lane_depths[i] = self.lane_depths[i] - 1;
        proof {
            assert(self@.controllers =~= before.controllers);
            assert forall|other: IsolateQueueLane| self.lane_depths@[#[trigger] other.number()]
                == self@.depth(other) by {
                lemma_lane_count_remove(before.entries, index as int, other);
                assert(old(self).lane_depths@[other.number()] == before.depth(other));
            }
            lemma_lane_count_remove(before.entries, index as int, IsolateQueueLane::Dependency);
            lemma_lane_count_remove(before.entries, index as int, IsolateQueueLane::ControlPlane);
            assert forall|other: IsolateQueueLane| other != entry.lane implies self@.depth(other)
                == #[trigger] before.depth(other) by {
                lemma_lane_count_remove(before.entries, index as int, other);
            }
        }
        entry
    }

    fn reset_drained_lane(&mut self, lane: IsolateQueueLane, now: Moment) -> (transitions:
        ControllerTransitions)
        requires
            old(self).consistent(),
            old(self)@.config.reaches_from(now@),
        ensures
            final(self).consistent(),
            final(self)@ == old(self)@.reset_if_drained(lane, now@),
            old(self)@.depth(lane) == 0 ==> !final(self)@.controllers[lane.number()].overloaded,
            transitions == old(self)@.drain_transitions(lane),
    {
        let i: usize = lane.index();
        assert(self.lane_depths@[lane.number()] == self@.depth(lane));
        assert(self@.controllers[i as int] == self.controllers@[i as int]@);
        if self.lane_depths[i] > 0 {
            ControllerTransitions::default()
        } else {
            let mut controller = self.controllers[i];
            let transitions = controller.reset(now, self.config.interval);
            self.controllers[i] = controller;
            proof {
                assert(self@.controllers =~= old(self)@.reset_if_drained(lane, now@).controllers);
                assert(self@.entries =~= old(self)@.entries);
                assert forall|other: IsolateQueueLane| self.lane_depths@[#[trigger] other.number()]
                    == self@.depth(other) by {
                    assert(old(self).lane_depths@[other.number()] == old(self)@.depth(other));
                }
            }
            transitions
        }
    }

    /// Takes out the first request that has reached its hard deadline.
    pub fn pop_expired(&mut self, now: Moment) -> (popped: Option<QueuePop<T>>)
        requires
            old(self).wf(),
            old(self)@.config.reaches_from(now@),
        ensures
            final(self).wf(),
            match first_due(old(self)@.entries, now@, 0) {
                Some(i) => {
                    &&& popped matches Some(pop) && pop@ == old(self)@.expired(i)
                    &&& final(self)@ == old(self)@.after_expiry(i, now@)
                },
                None => popped is None && final(self)@ == old(self)@,
            },
    {
        let mut i: usize = 0;
        while i < self.buffer.len() && now.as_nanos() < self.buffer[i].hard_deadline.as_nanos()
            invariant
                i <= self.buffer.len(),
                *self == *old(self),
                first_due(self@.entries, now@, i as int) == first_due(self@.entries, now@, 0),
            decreases self.buffer.len() - i,
        {
            assert(self@.entries[i as int] == self.buffer@[i as int]@);
            i = i + 1;
        }
        proof {
            if i < self.buffer.len() {
                assert(self@.entries[i as int] == self.buffer@[i as int]@);
            }
        }
        if i >= self.buffer.len() {
            return None;
        }
        let entry = self.remove(i);
        let transitions = self.reset_drained_lane(entry.lane, now);
        assert forall|lane: IsolateQueueLane| self@.depth(lane)
            == 0 implies !self@.controllers[#[trigger] lane.number()].overloaded by {
            if lane != entry.lane {
                assert(old(self)@.depth(lane) == 0);
                assert(!old(self)@.controllers[lane.number()].overloaded);
            }
        }
        Some(
            QueuePop {
                output: IsolateQueueOutput {
                    item: entry.item,
                    rejection: Some(IsolateQueueRejection::HardExpired),
                    permit_deadline: None,
                    dispatch_sojourn: None,
                },
                lane: entry.lane,
                transitions,
            },
        )
    }

    /// Counts the requests that limits block. Requests that are due are expired, not blocked.
    pub fn ineligible_counts<F: Fn(&T) -> IsolateQueueEligibility>(
        &self,
        now: Moment,
        select: &F,
    ) -> (counts: IneligibleCounts)
        requires
            forall|item: &T| #[trigger] select.requires((item,)),
        ensures
            exists|verdicts: Seq<IsolateQueueEligibility>|
                judges(*select, self@.entries, now@, verdicts) && counts_blocked(
                    counts,
                    self@.entries,
                    verdicts,
                    now@,
                ),
    {
        let mut counts = IneligibleCounts::zero();
        let mut i: usize = 0;
        let ghost mut verdicts: Seq<IsolateQueueEligibility> = Seq::empty();
        while i < self.buffer.len()
            invariant
                i <= self.buffer.len(),
                verdicts.len() == i,
                forall|item: &T| #[trigger] select.requires((item,)),
                forall|k: int|
                    0 <= k < i && !self@.entries[k].due(now@) ==> select.ensures(
                        (&self@.entries[k].item,),
                        #[trigger] verdicts[k],
                    ),
                forall|lane: IsolateQueueLane, reason: IsolateQueueIneligibilityReason|
                    #![trigger counts.count(lane, reason)]
                    counts.count(lane, reason) == tally(
                        self@.entries,
                        verdicts,
                        now@,
                        i as int,
                        lane,
                        reason,
                    ) && counts.count(lane, reason) <= i,
            decreases self.buffer.len() - i,
        {
            assert(self@.entries[i as int] == self.buffer@[i as int]@);
            let ghost before = verdicts;
            let ghost counted = counts;
            let due = now.as_nanos() >= self.buffer[i].hard_deadline.as_nanos();
            if due {
                proof {
                    verdicts = verdicts.push(arbitrary());
                }
            } else {
                let eligibility = select(&self.buffer[i].item);
                proof {
                    verdicts = verdicts.push(eligibility);
                }
                if !eligibility.is_eligible() {
                    counts.increment(self.buffer[i].lane, eligibility);
                }
            }
            proof {
                assert forall|lane: IsolateQueueLane, reason: IsolateQueueIneligibilityReason|
                    #![trigger counts.count(lane, reason)]
                    counts.count(lane, reason) == tally(
                        self@.entries,
                        verdicts,
                        now@,
                        i + 1,
                        lane,
                        reason,
                    ) && counts.count(lane, reason) <= i + 1 by {
                    lemma_tally_prefix(
                        self@.entries,
                        before,
                        verdicts,
                        now@,
                        i as int,
                        lane,
                        reason,
                    );
                    assert(counted.count(lane, reason) <= i);
                }
            }
            i = i + 1;
        }
        assert(judges(*select, self@.entries, now@, verdicts));
        assert(counts_blocked(counts, self@.entries, verdicts, now@));
        counts
    }

    /// Takes out the next request: the first one that has reached its hard deadline, or else the
    /// first one that the scheduler can start.
    pub fn pop_selecting<F: Fn(&T) -> IsolateQueueEligibility>(
        &mut self,
        now: Moment,
        select: &F,
    ) -> (attempt: SelectionAttempt<T>)
        requires
            old(self).wf(),
            old(self)@.config.reaches_from(now@),
            old(self)@.counts_samples(),
            forall|item: &T| #[trigger] select.requires((item,)),
        ensures
            final(self).wf(),
            exists|verdicts: Seq<IsolateQueueEligibility>|
                is_attempt(*select, old(self)@, now@, verdicts, attempt, final(self)@),
    {
        if let Some(expired) = self.pop_expired(now) {
            let ineligible = self.ineligible_counts(now, select);
            let attempt = SelectionAttempt { selected: Some(expired), ineligible };
            proof {
                let verdicts = choose|verdicts: Seq<IsolateQueueEligibility>|
                    judges(*select, self@.entries, now@, verdicts) && counts_blocked(
                        ineligible,
                        self@.entries,
                        verdicts,
                        now@,
                    );
                assert(is_attempt(*select, old(self)@, now@, verdicts, attempt, self@));
            }
            return attempt;
        }
        let ghost entries = self@.entries;
        let mut ineligible = IneligibleCounts::zero();
        let mut selected: Option<usize> = None;
        let mut i: usize = 0;
        let ghost mut verdicts: Seq<IsolateQueueEligibility> = Seq::empty();
        proof {
            lemma_none_due(entries, now@, 0);
        }
        while i < self.buffer.len()
            invariant
                self@ == old(self)@,
                self.wf(),
                self@.counts_samples(),
                entries == self@.entries,
                i <= self.buffer.len(),
                verdicts.len() == i,
                forall|item: &T| #[trigger] select.requires((item,)),
                forall|k: int| 0 <= k < entries.len() ==> !(#[trigger] entries[k]).due(now@),
                forall|k: int|
                    0 <= k < i ==> select.ensures((&entries[k].item,), #[trigger] verdicts[k]),
                match selected {
                    Some(at) => at < i && first_eligible(verdicts, 0) == Some(at as int),
                    None => first_eligible(verdicts, 0) is None,
                },
                forall|lane: IsolateQueueLane, reason: IsolateQueueIneligibilityReason|
                    #![trigger ineligible.count(lane, reason)]
                    ineligible.count(lane, reason) == tally(
                        entries,
                        verdicts,
                        now@,
                        i as int,
                        lane,
                        reason,
                    ) && ineligible.count(lane, reason) <= i,
            decreases self.buffer.len() - i,
        {
            assert(entries[i as int] == self.buffer@[i as int]@);
            let ghost before = verdicts;
            let ghost counted = ineligible;
            let eligibility = select(&self.buffer[i].item);
            proof {
                verdicts = verdicts.push(eligibility);
                lemma_first_eligible_push(before, eligibility, 0);
            }
            if eligibility.is_eligible() {
                if selected.is_none() {
                    selected = Some(i);
                }
            } else {
                ineligible.increment(self.buffer[i].lane, eligibility);
            }
            proof {
                assert forall|lane: IsolateQueueLane, reason: IsolateQueueIneligibilityReason|
                    #![trigger ineligible.count(lane, reason)]
                    ineligible.count(lane, reason) == tally(
                        entries,
                        verdicts,
                        now@,
                        i + 1,
                        lane,
                        reason,
                    ) && ineligible.count(lane, reason) <= i + 1 by {
                    lemma_tally_prefix(entries, before, verdicts, now@, i as int, lane, reason);
                    assert(counted.count(lane, reason) <= i);
                }
            }
            i = i + 1;
        }
        assert(judges(*select, entries, now@, verdicts));
        assert(counts_blocked(ineligible, entries, verdicts, now@));
        let index: usize = match selected {
            Some(index) => index,
            None => {
                let attempt = SelectionAttempt { selected: None, ineligible };
                assert(is_attempt(*select, old(self)@, now@, verdicts, attempt, self@));
                return attempt;
            },
        };
        let entry = self.remove(index);
        let sojourn = now.saturating_duration_since(entry.enqueued_at);
        let lane_index: usize = entry.lane.index();
        let mut controller = self.controllers[lane_index];
        assert(self@.controllers[lane_index as int] == controller@);
        let ghost without = self@;
        let mut transitions = controller.observe(now, sojourn, &self.config);
        self.controllers[lane_index] = controller;
        proof {
            assert(self@.entries =~= without.entries);
            assert(self@.controllers =~= old(self)@.dispatched(index as int, now@).controllers);
            assert forall|other: IsolateQueueLane| self.lane_depths@[#[trigger] other.number()]
                == self@.depth(other) by {}
        }
        // Lane overload only enables shedding; the age of the selected request itself decides. A
        // blocked older request must not cause a younger one to be shed.
        let sheddable = entry.lane == IsolateQueueLane::IndependentAction || entry.lane
            == IsolateQueueLane::Ordinary;
        let should_shed = sheddable && controller.overloaded && sojourn.as_nanos()
            > self.config.shed_threshold.as_nanos();
        let drained = self.reset_drained_lane(entry.lane, now);
        transitions.merge(drained);
        assert forall|lane: IsolateQueueLane| self@.depth(lane)
            == 0 implies !self@.controllers[#[trigger] lane.number()].overloaded by {
            if lane != entry.lane {
                assert(old(self)@.depth(lane) == 0);
                assert(!old(self)@.controllers[lane.number()].overloaded);
            }
        }
        let output = if should_shed {
            IsolateQueueOutput {
                item: entry.item,
                rejection: Some(IsolateQueueRejection::DelayControlShed),
                permit_deadline: None,
                dispatch_sojourn: None,
            }
        } else {
            IsolateQueueOutput {
                item: entry.item,
                rejection: None,
                permit_deadline: Some(entry.hard_deadline),
                dispatch_sojourn: Some((entry.lane, sojourn)),
            }
        };
        let attempt = SelectionAttempt {
            selected: Some(QueuePop { output, lane: entry.lane, transitions }),
            ineligible,
        };
        assert(is_attempt(*select, old(self)@, now@, verdicts, attempt, self@));
        attempt
    }

    /// The next hard deadline.
    pub fn next_expiration(&self) -> (deadline: Option<Moment>)
        ensures
            match deadline {
                Some(deadline) => {
                    &&& exists|i: int|
                        0 <= i < self@.entries.len() && (
                        #[trigger] self@.entries[i]).hard_deadline == deadline@
                    &&& forall|i: int|
                        0 <= i < self@.entries.len() ==> deadline@ <= (
                        #[trigger] self@.entries[i]).hard_deadline
                },
                None => self@.entries.len() == 0,
            },
    {
        let mut least: Option<Moment> = None;
        let mut i: usize = 0;
        while i < self.buffer.len()
            invariant
                i <= self.buffer.len(),
                match least {
                    Some(least) => {
                        &&& exists|k: int|
                            0 <= k < i && (#[trigger] self@.entries[k]).hard_deadline == least@
                        &&& forall|k: int|
                            0 <= k < i ==> least@ <= (#[trigger] self@.entries[k]).hard_deadline
                    },
                    None => i == 0,
                },
            decreases self.buffer.len() - i,
        {
            let deadline = self.buffer[i].hard_deadline;
            assert(self@.entries[i as int].hard_deadline == deadline@);
            least =
            match least {
                Some(current) => {
                    if current.as_nanos() <= deadline.as_nanos() {
                        Some(current)
                    } else {
                        Some(deadline)
                    }
                },
                None => Some(deadline),
            };
            i = i + 1;
        }
        assert(self@.entries.len() == self.buffer.len());
        least
    }

    pub fn is_empty(&self) -> (empty: bool)
        ensures
            empty == (self@.entries.len() == 0),
    {
        self.buffer.len() == 0
    }

    /// How many requests wait.
    pub fn len(&self) -> (len: usize)
        ensures
            len == self@.entries.len(),
    {
        self.buffer.len()
    }

    pub fn config(&self) -> (config: IsolateQueueConfig)
        ensures
            config == self@.config,
    {
        self.config
    }

    /// Throws out all requests, and starts the delay control of all lanes afresh.
    pub fn drain(&mut self, now: Moment) -> (drained: (
        VecDeque<QueueEntry<T>>,
        [ControllerTransitions; 4],
    ))
        requires
            old(self).wf(),
            old(self)@.config.reaches_from(now@),
        ensures
            final(self).wf(),
            final(self)@ == old(self)@.drained(now@),
            entry_models(drained.0@) == old(self)@.entries,
            forall|lane: IsolateQueueLane|
                drained.1@[#[trigger] lane.number()] == ControllerTransitions::between(
                    old(self)@.controllers[lane.number()].overloaded,
                    false,
                ),
    {
        let mut queued: VecDeque<QueueEntry<T>> = VecDeque::new();
        std::mem::swap(&mut queued, &mut self.buffer);
        self.lane_depths = [0;4];
        let none = ControllerTransitions::default();
        let mut transitions: [ControllerTransitions; 4] = [none;4];
        let mut i: usize = 0;
        while i < 4
            invariant
                i <= 4,
                now@ + self.config.interval@ <= MAX_NANOS,
                self.config == old(self).config,
                self.buffer@.len() == 0,
                self.capacity == old(self).capacity,
                self.capacity_with_reserve == old(self).capacity_with_reserve,
                self.lane_depths@ =~= seq![0usize, 0usize, 0usize, 0usize],
                forall|k: int|
                    0 <= k < i ==> (#[trigger] self.controllers@[k])@ == ControllerModel::fresh(
                        now@,
                        self.config.interval@,
                    ),
                forall|k: int|
                    i <= k < 4 ==> #[trigger] self.controllers@[k] == old(self).controllers@[k],
                forall|k: int|
                    0 <= k < i ==> #[trigger] transitions@[k] == ControllerTransitions::between(
                        old(self).controllers@[k].overloaded,
                        false,
                    ),
            decreases 4 - i,
        {
            let mut controller = self.controllers[i];
            let transition = controller.reset(now, self.config.interval);
            self.controllers[i] = controller;
            transitions[i] = transition;
            i = i + 1;
        }
        proof {
            assert(self@.entries =~= Seq::empty());
            assert(self@.controllers =~= old(self)@.drained(now@).controllers);
            assert forall|lane: IsolateQueueLane|
                transitions@[#[trigger] lane.number()] == ControllerTransitions::between(
                    old(self)@.controllers[lane.number()].overloaded,
                    false,
                ) by {
                assert(old(self)@.controllers[lane.number()] == old(
                    self,
                ).controllers@[lane.number()]@);
            }
        }
        (queued, transitions)
    }

    /// How many requests of a lane wait.
    pub fn depth(&self, lane: IsolateQueueLane) -> (depth: usize)
        requires
            self.wf(),
        ensures
            depth == self@.depth(lane),
    {
        assert(self.lane_depths@[lane.number()] == self@.depth(lane));
        self.lane_depths[lane.index()]
    }

    /// What a lane knows of its delays.
    pub fn controller(&self, lane: IsolateQueueLane) -> (controller: LaneDelayController)
        ensures
            controller@ == self@.controllers[lane.number()],
    {
        assert(self@.controllers[lane.number()] == self.controllers@[lane.number()]@);
        self.controllers[lane.index()]
    }

    /// Whether a lane is overloaded.
    pub fn overloaded(&self, lane: IsolateQueueLane) -> (overloaded: bool)
        ensures
            overloaded == self@.controllers[lane.number()].overloaded,
    {
        assert(self@.controllers[lane.number()] == self.controllers@[lane.number()]@);
        self.controllers[lane.index()].overloaded
    }

    /// The age of the oldest request of a lane; zero if there is no request.
    pub fn oldest_age(&self, lane: IsolateQueueLane, now: Moment) -> (age: Duration)
        ensures
            age@ == oldest_age(self@.entries, lane, now@),
    {
        let mut oldest = Duration::zero();
        let mut i: usize = 0;
        while i < self.buffer.len()
            invariant
                i <= self.buffer.len(),
                oldest@ == oldest_age(self@.entries.take(i as int), lane, now@),
            decreases self.buffer.len() - i,
        {
            assert(self@.entries.take(i + 1).drop_last() =~= self@.entries.take(i as int));
            assert(self@.entries[i as int] == self.buffer@[i as int]@);
            let entry = &self.buffer[i];
            if entry.lane == lane {
                let age = now.saturating_duration_since(entry.enqueued_at);
                if age.as_nanos() > oldest.as_nanos() {
                    oldest = age;
                }
            }
            i = i + 1;
        }
        assert(self@.entries.take(i as int) =~= self@.entries);
        oldest
    }

    /// Whether every lane can count one more sample.
    pub fn counts_samples(&self) -> (counts: bool)
        ensures
            counts == self@.counts_samples(),
    {
        let mut i: usize = 0;
        while i < 4
            invariant
                i <= 4,
                self@.controllers.len() == 4,
                forall|k: int|
                    0 <= k < i ==> (#[trigger] self@.controllers[k]).sample_count < usize::MAX,
            decreases 4 - i,
        {
            assert(self@.controllers[i as int] == self.controllers@[i as int]@);
            if self.controllers[i].sample_count == usize::MAX {
                return false;
            }
            i = i + 1;
        }
        true
    }
}

/// The age of the oldest request of a lane.
pub open spec fn oldest_age<T>(
    entries: Seq<EntryModel<T>>,
    lane: IsolateQueueLane,
    now: nat,
) -> nat
    decreases entries.len(),
{
    if entries.len() == 0 {
        0
    } else {
        let oldest = oldest_age(entries.drop_last(), lane, now);
        let age = elapsed_since(now, entries.last().enqueued_at);
        if entries.last().lane == lane && age > oldest {
            age
        } else {
            oldest
        }
    }
}

/// What looking for the next request gives, for the answers of the scheduler: the request that
/// leaves, the requests that limits block, and the queue after it.
pub open spec fn is_attempt<T, F: Fn(&T) -> IsolateQueueEligibility>(
    select: F,
    before: QueueModel<T>,
    now: nat,
    verdicts: Seq<IsolateQueueEligibility>,
    attempt: SelectionAttempt<T>,
    after: QueueModel<T>,
) -> bool {
    match first_due(before.entries, now, 0) {
        Some(i) => {
            &&& attempt.selected matches Some(pop) && pop@ == before.expired(i)
            &&& after == before.after_expiry(i, now)
            &&& judges(select, after.entries, now, verdicts)
            &&& counts_blocked(attempt.ineligible, after.entries, verdicts, now)
        },
        None => {
            &&& judges(select, before.entries, now, verdicts)
            &&& counts_blocked(attempt.ineligible, before.entries, verdicts, now)
            &&& match first_eligible(verdicts, 0) {
                Some(i) => {
                    &&& attempt.selected matches Some(pop) && pop@ == before.selected(i, now)
                    &&& after == before.after_selection(i, now)
                },
                None => attempt.selected is None && after == before,
            }
        },
    }
}

proof fn lemma_tally_prefix<T>(
    entries: Seq<EntryModel<T>>,
    before: Seq<IsolateQueueEligibility>,
    after: Seq<IsolateQueueEligibility>,
    now: nat,
    n: int,
    lane: IsolateQueueLane,
    reason: IsolateQueueIneligibilityReason,
)
    requires
        n <= before.len() <= after.len(),
        forall|k: int| 0 <= k < before.len() ==> #[trigger] after[k] == before[k],
    ensures
        tally(entries, after, now, n, lane, reason) == tally(
            entries,
            before,
            now,
            n,
            lane,
            reason,
        ),
    decreases n,
{
    if n > 0 {
        lemma_tally_prefix(entries, before, after, now, n - 1, lane, reason);
        assert(after[n - 1] == before[n - 1]);
    }
}

proof fn lemma_none_due<T>(entries: Seq<EntryModel<T>>, now: nat, i: int)
    requires
        0 <= i,
        first_due(entries, now, i) is None,
    ensures
        forall|k: int| i <= k < entries.len() ==> !(#[trigger] entries[k]).due(now),
    decreases entries.len() - i,
{
    if i < entries.len() {
        lemma_none_due(entries, now, i + 1);
    }
}

proof fn lemma_first_eligible_push(
    verdicts: Seq<IsolateQueueEligibility>,
    verdict: IsolateQueueEligibility,
    i: int,
)
    requires
        0 <= i <= verdicts.len(),
    ensures
        first_eligible(verdicts.push(verdict), i) == (match first_eligible(verdicts, i) {
            Some(at) => Some(at),
            None => if verdict.can_start() {
                Some(verdicts.len() as int)
            } else {
                None
            },
        }),
    decreases verdicts.len() - i,
{
    let more = verdicts.push(verdict);
    if i < verdicts.len() {
        assert(more[i] == verdicts[i]);
        lemma_first_eligible_push(verdicts, verdict, i + 1);
    } else {
        assert(more[i] == verdict);
        assert(first_eligible(more, i + 1) is None);
    }
}

/// A queue keeps its limits and deadlines whatever is done with it: what is not a dependency fits
/// without the reserve, the control-plane lane keeps to its own limit, and a lane without requests
/// is not overloaded.
pub proof fn queue_keeps_its_limits<T>(queue: IsolateDelayQueue<T>)
    requires
        queue.wf(),
    ensures
        queue@.within_limits(),
        queue@.keeps_deadlines(),
        queue@.empty_lanes_are_calm(),
{
}

/// Only dependencies use the reserve.
pub proof fn reserve_is_for_dependencies<T>(queue: QueueModel<T>, lane: IsolateQueueLane)
    requires
        queue.refusal(lane) is None,
        queue.entries.len() >= queue.capacity,
    ensures
        lane == IsolateQueueLane::Dependency,
{
}

/// No request of another lane is refused because of a full control-plane lane.
pub proof fn full_lane_refuses_only_its_own<T>(queue: QueueModel<T>, lane: IsolateQueueLane)
    requires
        queue.refusal(lane) == Some(IsolateQueueSendError::LaneFull),
    ensures
        lane == IsolateQueueLane::ControlPlane,
{
}

/// Dependencies and control-plane work that are selected are never shed.
pub proof fn protected_lanes_are_never_shed<T>(queue: QueueModel<T>, i: int, now: nat)
    requires
        0 <= i < queue.entries.len(),
        queue.entries[i].lane == IsolateQueueLane::Dependency || queue.entries[i].lane
            == IsolateQueueLane::ControlPlane,
    ensures
        queue.selected(i, now).output.rejection is None,
        queue.selected(i, now).output.permit_deadline == Some(queue.entries[i].hard_deadline),
{
}

/// A request that has not itself waited longer than the threshold is not shed, however overloaded
/// its lane is.
pub proof fn young_requests_are_never_shed<T>(queue: QueueModel<T>, i: int, now: nat)
    requires
        0 <= i < queue.entries.len(),
        elapsed_since(now, queue.entries[i].enqueued_at) <= queue.config.shed_threshold@,
    ensures
        queue.selected(i, now).output.rejection is None,
{
}

/// A request that leaves to be started is not due, and the first request that is due is rejected
/// before any request is started.
pub proof fn hard_deadlines_come_first<T, F: Fn(&T) -> IsolateQueueEligibility>(
    select: F,
    before: QueueModel<T>,
    now: nat,
    verdicts: Seq<IsolateQueueEligibility>,
    attempt: SelectionAttempt<T>,
    after: QueueModel<T>,
)
    requires
        is_attempt(select, before, now, verdicts, attempt, after),
    ensures
        (exists|i: int| 0 <= i < before.entries.len() && (#[trigger] before.entries[i]).due(now))
            ==> (attempt.selected matches Some(pop) && pop.output.rejection == Some(
            IsolateQueueRejection::HardExpired,
        )),
        attempt.selected matches Some(pop) ==> (pop@.output.permit_deadline matches Some(deadline)
            ==> now < deadline),
{
    match first_due(before.entries, now, 0) {
        Some(i) => {
            lemma_first_due(before.entries, now, 0);
        },
        None => {
            lemma_none_due(before.entries, now, 0);
            lemma_first_eligible(verdicts, 0);
        },
    }
}

/// The request that leaves to be started, or is shed, is the first one that the scheduler can
/// start.
pub proof fn requests_leave_in_order<T, F: Fn(&T) -> IsolateQueueEligibility>(
    select: F,
    before: QueueModel<T>,
    now: nat,
    verdicts: Seq<IsolateQueueEligibility>,
    attempt: SelectionAttempt<T>,
    after: QueueModel<T>,
    j: int,
)
    requires
        is_attempt(select, before, now, verdicts, attempt, after),
        first_due(before.entries, now, 0) is None,
        0 <= j < before.entries.len(),
        verdicts[j].can_start(),
    ensures
        exists|i: int|
            0 <= i <= j && verdicts[i].can_start() && (attempt.selected matches Some(pop) && pop@
                == #[trigger] before.selected(i, now)),
{
    lemma_first_eligible(verdicts, 0);
    let i = first_eligible(verdicts, 0)->0;
    assert(before.selected(i, now) == attempt.selected->0@);
}

/// Nothing is lost: a request stays in the queue, in its place among the others, or leaves.
pub proof fn attempts_take_out_one_request<T, F: Fn(&T) -> IsolateQueueEligibility>(
    select: F,
    before: QueueModel<T>,
    now: nat,
    verdicts: Seq<IsolateQueueEligibility>,
    attempt: SelectionAttempt<T>,
    after: QueueModel<T>,
)
    requires
        is_attempt(select, before, now, verdicts, attempt, after),
    ensures
        match attempt.selected {
            Some(pop) => exists|i: int|
                0 <= i < before.entries.len() && #[trigger] before.entries[i].item
                    == pop.output.item && after.entries == before.entries.remove(i),
            None => after == before,
        },
{
    match first_due(before.entries, now, 0) {
        Some(i) => {
            lemma_first_due(before.entries, now, 0);
            assert(before.entries[i].item == attempt.selected->0@.output.item);
        },
        None => {
            lemma_first_eligible(verdicts, 0);
            if let Some(i) = first_eligible(verdicts, 0) {
                assert(before.entries[i].item == attempt.selected->0@.output.item);
            }
        },
    }
}

/// A request that is sent to an empty queue comes out of it again, as it is, if the scheduler can
/// start it before its deadline.
pub proof fn sent_request_comes_out<T, F: Fn(&T) -> IsolateQueueEligibility>(
    select: F,
    queue: QueueModel<T>,
    item: T,
    lane: IsolateQueueLane,
    sent: nat,
    now: nat,
    verdicts: Seq<IsolateQueueEligibility>,
    attempt: SelectionAttempt<T>,
    after: QueueModel<T>,
)
    requires
        queue.within_limits(),
        queue.entries.len() == 0,
        sent <= now < sent + queue.config.max_age(lane),
        is_attempt(select, queue.pushed(item, lane, sent), now, verdicts, attempt, after),
        verdicts[0].can_start(),
    ensures
        attempt.selected matches Some(pop) && pop.output.item == item && pop.output.rejection is None
            && pop@.output.dispatch_sojourn == Some((lane, (now - sent) as nat)),
        after.entries.len() == 0,
{
    let before = queue.pushed(item, lane, sent);
    assert(before.entries.len() == 1);
    assert(lane_count(queue.entries, lane) == 0);
    assert(first_due(before.entries, now, 1) is None);
    assert(first_due(before.entries, now, 0) is None);
    assert(first_eligible(verdicts, 0) == Some(0int));
    assert(!before.observed(0, now).overloaded);
}

/// Overload is judged by whole intervals: it begins only after an interval with two samples or
/// more, all of them slower than the target, and ends only after an interval with a sample that is
/// not.
pub proof fn overload_needs_a_slow_interval(
    controller: ControllerModel,
    now: nat,
    sojourn: nat,
    target: nat,
    interval: nat,
)
    ensures
        !controller.overloaded && controller.observed(now, sojourn, target, interval).overloaded
            ==> now >= controller.interval_end && controller.sample_count >= 2 && (
        controller.min_sojourn matches Some(least) && least > target),
        controller.overloaded && !controller.observed(now, sojourn, target, interval).overloaded
            ==> now >= controller.interval_end && controller.sample_count >= 1 && (
        controller.min_sojourn matches Some(least) && least <= target),
{
}

/// The age of the oldest request bounds the ages of all requests of its lane.
pub proof fn oldest_age_bounds_ages<T>(
    entries: Seq<EntryModel<T>>,
    lane: IsolateQueueLane,
    now: nat,
    i: int,
)
    requires
        0 <= i < entries.len(),
        entries[i].lane == lane,
    ensures
        elapsed_since(now, entries[i].enqueued_at) <= oldest_age(entries, lane, now),
    decreases entries.len(),
{
    if i < entries.len() - 1 {
        assert(entries.drop_last()[i] == entries[i]);
        oldest_age_bounds_ages(entries.drop_last(), lane, now, i);
    }
}

proof fn lemma_first_due<T>(entries: Seq<EntryModel<T>>, now: nat, i: int)
    requires
        0 <= i,
    ensures
        first_due(entries, now, i) matches Some(at) ==> i <= at < entries.len()
            && entries[at].due(now),
    decreases entries.len() - i,
{
    if i < entries.len() && !entries[i].due(now) {
        lemma_first_due(entries, now, i + 1);
    }
}

proof fn lemma_first_eligible(verdicts: Seq<IsolateQueueEligibility>, i: int)
    requires
        0 <= i,
    ensures
        match first_eligible(verdicts, i) {
            Some(at) => i <= at < verdicts.len() && verdicts[at].can_start() && forall|k: int|
                i <= k < at ==> !(#[trigger] verdicts[k]).can_start(),
            None => forall|k: int| i <= k < verdicts.len() ==> !(#[trigger] verdicts[k]).can_start(),
        },
    decreases verdicts.len() - i,
{
    if i < verdicts.len() && !verdicts[i].can_start() {
        lemma_first_eligible(verdicts, i + 1);
    }
}

/// A controller after samples, each with the time at which it was taken and how long the request
/// waited.
pub open spec fn after_samples(
    controller: ControllerModel,
    samples: Seq<(nat, nat)>,
    target: nat,
    interval: nat,
) -> ControllerModel
    decreases samples.len(),
{
    if samples.len() == 0 {
        controller
    } else {
        after_samples(controller, samples.drop_last(), target, interval).observed(
            samples.last().0,
            samples.last().1,
            target,
            interval,
        )
    }
}

/// Within an interval the least of all waits is remembered: no sample waited less, and one of them,
/// or what the interval began with, waited as long. The samples are counted, and the interval and
/// the overload stay as they are.
pub proof fn the_least_wait_of_an_interval_is_remembered(
    controller: ControllerModel,
    samples: Seq<(nat, nat)>,
    target: nat,
    interval: nat,
)
    requires
        samples.len() > 0,
        forall|i: int| 0 <= i < samples.len() ==> (#[trigger] samples[i]).0 < controller.interval_end,
    ensures
        ({
            let after = after_samples(controller, samples, target, interval);
            &&& after.min_sojourn matches Some(least) && {
                &&& forall|i: int| 0 <= i < samples.len() ==> least <= (#[trigger] samples[i]).1
                &&& controller.min_sojourn matches Some(earlier) ==> least <= earlier
                &&& controller.min_sojourn == Some(least) || exists|i: int|
                    0 <= i < samples.len() && (#[trigger] samples[i]).1 == least
            }
            &&& after.sample_count == controller.sample_count + samples.len()
            &&& after.interval_end == controller.interval_end
            &&& after.overloaded == controller.overloaded
        }),
    decreases samples.len(),
{
    let first = samples.drop_last();
    let last = samples.last();
    assert(samples[samples.len() - 1] == last);
    if first.len() > 0 {
        assert forall|i: int| 0 <= i < first.len() implies (#[trigger] first[i]).0
            < controller.interval_end by {
            assert(first[i] == samples[i]);
        }
        the_least_wait_of_an_interval_is_remembered(controller, first, target, interval);
        assert forall|i: int| 0 <= i < samples.len() implies after_samples(
            controller,
            samples,
            target,
            interval,
        ).min_sojourn->0 <= (#[trigger] samples[i]).1 by {
            if i < first.len() {
                assert(first[i] == samples[i]);
            }
        }
        let before = after_samples(controller, first, target, interval);
        if controller.min_sojourn != before.min_sojourn {
            let i = choose|i: int|
                0 <= i < first.len() && (#[trigger] first[i]).1 == before.min_sojourn->0;
            assert(samples[i] == first[i]);
        }
    } else {
        assert(after_samples(controller, first, target, interval) == controller);
    }
}

/// Overload is what a whole interval says: a lane is overloaded after an interval in which two
/// requests or more left and all of them waited for longer than the target; it is not after an
/// interval in which one waited no longer; and after an interval with one slow request it is what it
/// was. The next interval starts with the sample that closed the last one.
pub proof fn whole_intervals_decide_on_overload(
    now: nat,
    overloaded: bool,
    samples: Seq<(nat, nat)>,
    closing: (nat, nat),
    target: nat,
    interval: nat,
)
    requires
        samples.len() > 0,
        forall|i: int| 0 <= i < samples.len() ==> (#[trigger] samples[i]).0 < now + interval,
        closing.0 >= now + interval,
    ensures
        ({
            let start = ControllerModel {
                interval_end: now + interval,
                min_sojourn: None,
                sample_count: 0,
                overloaded,
            };
            let after = after_samples(start, samples, target, interval).observed(
                closing.0,
                closing.1,
                target,
                interval,
            );
            &&& (exists|i: int| 0 <= i < samples.len() && (#[trigger] samples[i]).1 <= target)
                ==> !after.overloaded
            &&& samples.len() >= 2 && (forall|i: int|
                0 <= i < samples.len() ==> (#[trigger] samples[i]).1 > target) ==> after.overloaded
            &&& samples.len() == 1 && samples[0].1 > target ==> after.overloaded == overloaded
            &&& after.interval_end == closing.0 + interval
            &&& after.min_sojourn == Some(closing.1)
            &&& after.sample_count == 1
        }),
{
    let start = ControllerModel {
        interval_end: now + interval,
        min_sojourn: None,
        sample_count: 0,
        overloaded,
    };
    the_least_wait_of_an_interval_is_remembered(start, samples, target, interval);
}

/// An interval without samples changes nothing: however late the next sample comes, a lane that is
/// fresh is not overloaded by it.
pub proof fn intervals_without_samples_change_nothing(
    now: nat,
    overloaded: bool,
    sample: (nat, nat),
    target: nat,
    interval: nat,
)
    ensures
        (ControllerModel {
            interval_end: now + interval,
            min_sojourn: None,
            sample_count: 0,
            overloaded,
        }).observed(sample.0, sample.1, target, interval).overloaded == overloaded,
        !ControllerModel::fresh(now, interval).overloaded,
        ControllerModel::fresh(now, interval).interval_end == now + interval,
        ControllerModel::fresh(now, interval).min_sojourn is None,
        ControllerModel::fresh(now, interval).sample_count == 0,
{
}

/// A request is taken if and only if the queue has room for it, where only a dependency may use the
/// reserve, and the control-plane lane has room if it is of that lane. A queue without room refuses
/// it as full, whatever its lane.
pub proof fn requests_are_taken_while_there_is_room<T>(queue: QueueModel<T>, lane: IsolateQueueLane)
    ensures
        lane == IsolateQueueLane::Dependency ==> (queue.refusal(lane) is None
            <==> queue.entries.len() < queue.capacity_with_reserve),
        lane == IsolateQueueLane::Ordinary || lane == IsolateQueueLane::IndependentAction ==> (
        queue.refusal(lane) is None <==> queue.entries.len() < queue.capacity),
        lane == IsolateQueueLane::ControlPlane ==> (queue.refusal(lane) is None
            <==> queue.entries.len() < queue.capacity && queue.entries.filter(
            |entry: EntryModel<T>| entry.lane == IsolateQueueLane::ControlPlane,
        ).len() < queue.config.control_plane_capacity),
        queue.refusal(lane) == Some(IsolateQueueSendError::QueueFull) <==> queue.entries.len() >= (
        if lane == IsolateQueueLane::Dependency {
            queue.capacity_with_reserve
        } else {
            queue.capacity
        }),
        queue.refusal(lane) != Some(IsolateQueueSendError::SchedulerClosed),
{
    depth_counts_the_requests_of_a_lane(queue, lane);
}

/// The depth of a lane is how many of the waiting requests are of that lane.
pub proof fn depth_counts_the_requests_of_a_lane<T>(queue: QueueModel<T>, lane: IsolateQueueLane)
    ensures
        queue.depth(lane) == queue.entries.filter(|entry: EntryModel<T>| entry.lane == lane).len(),
{
    lemma_lane_count_is_filter(queue.entries, lane);
}

proof fn lemma_lane_count_is_filter<T>(entries: Seq<EntryModel<T>>, lane: IsolateQueueLane)
    ensures
        lane_count(entries, lane) == entries.filter(|entry: EntryModel<T>| entry.lane == lane).len(),
    decreases entries.len(),
{
    reveal(Seq::filter);
    if entries.len() > 0 {
        lemma_lane_count_is_filter(entries.drop_last(), lane);
    }
}

/// A request that is taken waits behind all others, from the time at which it came until the age
/// that its lane allows; no other request changes. It starts the delay control of a lane that had
/// no requests, and that of no other lane.
pub proof fn taken_requests_wait_behind_all_others<T>(
    queue: QueueModel<T>,
    item: T,
    lane: IsolateQueueLane,
    now: nat,
)
    requires
        queue.within_limits(),
    ensures
        ({
            let after = queue.pushed(item, lane, now);
            &&& after.entries.len() == queue.entries.len() + 1
            &&& after.entries.last().item == item
            &&& after.entries.last().lane == lane
            &&& after.entries.last().enqueued_at == now
            &&& after.entries.last().hard_deadline == now + (if lane
                == IsolateQueueLane::ControlPlane {
                queue.config.control_plane_hard_max_age@
            } else {
                queue.config.hard_max_age@
            })
            &&& after.entries.drop_last() == queue.entries
            &&& (forall|i: int|
                0 <= i < queue.entries.len() ==> (#[trigger] queue.entries[i]).lane != lane) ==> {
                let controller = after.controllers[lane.number()];
                &&& controller.interval_end == now + queue.config.interval@
                &&& controller.min_sojourn is None
                &&& controller.sample_count == 0
                &&& !controller.overloaded
            }
            &&& (exists|i: int| 0 <= i < queue.entries.len() && (#[trigger] queue.entries[i]).lane
                == lane) ==> after.controllers == queue.controllers
            &&& forall|k: int|
                0 <= k < 4 && k != lane.number() ==> #[trigger] after.controllers[k]
                    == queue.controllers[k]
            &&& after.capacity == queue.capacity && after.capacity_with_reserve
                == queue.capacity_with_reserve && after.config == queue.config
        }),
{
    lemma_lane_is_empty(queue.entries, lane);
    assert(queue.pushed(item, lane, now).entries.drop_last() =~= queue.entries);
}

proof fn lemma_lane_is_empty<T>(entries: Seq<EntryModel<T>>, lane: IsolateQueueLane)
    ensures
        lane_count(entries, lane) == 0 <==> forall|i: int|
            0 <= i < entries.len() ==> (#[trigger] entries[i]).lane != lane,
    decreases entries.len(),
{
    if entries.len() > 0 {
        let first = entries.drop_last();
        lemma_lane_is_empty(first, lane);
        assert(entries[entries.len() - 1] == entries.last());
        if forall|i: int| 0 <= i < first.len() ==> (#[trigger] first[i]).lane != lane {
            assert forall|i: int| 0 <= i < entries.len() - 1 implies (#[trigger] entries[i]).lane
                != lane by {
                assert(first[i] == entries[i]);
            }
        } else {
            let i = choose|i: int| 0 <= i < first.len() && (#[trigger] first[i]).lane == lane;
            assert(entries[i].lane == lane);
        }
    }
}

/// Of the requests that reached the end of their time the first one leaves, before any request is
/// started: it is rejected as expired, and what was told of its waiting is withheld. The others stay
/// in their order.
pub proof fn the_first_request_that_is_due_leaves<T, F: Fn(&T) -> IsolateQueueEligibility>(
    select: F,
    before: QueueModel<T>,
    now: nat,
    verdicts: Seq<IsolateQueueEligibility>,
    attempt: SelectionAttempt<T>,
    after: QueueModel<T>,
    i: int,
)
    requires
        is_attempt(select, before, now, verdicts, attempt, after),
        0 <= i < before.entries.len(),
        before.entries[i].hard_deadline <= now,
        forall|k: int| 0 <= k < i ==> now < (#[trigger] before.entries[k]).hard_deadline,
    ensures
        attempt.selected matches Some(pop) && {
            &&& pop.output.item == before.entries[i].item
            &&& pop.output.rejection == Some(IsolateQueueRejection::HardExpired)
            &&& pop.output.permit_deadline is None
            &&& pop.output.dispatch_sojourn is None
            &&& pop.lane == before.entries[i].lane
        },
        after.entries == before.entries.remove(i),
{
    lemma_first_due_is(before.entries, now, 0, i);
    let pop = attempt.selected->0;
    assert(pop@.output.permit_deadline is None);
    assert(pop@.output.dispatch_sojourn is None);
}

proof fn lemma_first_due_is<T>(entries: Seq<EntryModel<T>>, now: nat, from: int, i: int)
    requires
        0 <= from <= i < entries.len(),
        entries[i].hard_deadline <= now,
        forall|k: int| from <= k < i ==> now < (#[trigger] entries[k]).hard_deadline,
    ensures
        first_due(entries, now, from) == Some(i),
    decreases i - from,
{
    if from < i {
        assert(now < entries[from].hard_deadline);
        lemma_first_due_is(entries, now, from + 1, i);
    }
}

/// While none is due, the first request that can start leaves. It is shed if and only if it is no
/// dependency and no control-plane work, it waited for more than twice the target, and its lane is
/// overloaded; otherwise it goes on with its deadline, and how long it waited is told. If none can
/// start, none leaves.
pub proof fn the_first_request_that_can_start_leaves<T, F: Fn(&T) -> IsolateQueueEligibility>(
    select: F,
    before: QueueModel<T>,
    now: nat,
    verdicts: Seq<IsolateQueueEligibility>,
    attempt: SelectionAttempt<T>,
    after: QueueModel<T>,
)
    requires
        is_attempt(select, before, now, verdicts, attempt, after),
        before.within_limits(),
        before.config.shed_threshold@ == before.config.target@ * 2,
        forall|k: int|
            0 <= k < before.entries.len() ==> now < (#[trigger] before.entries[k]).hard_deadline,
    ensures
        attempt.selected is None <==> forall|k: int|
            0 <= k < before.entries.len() ==> blocks(#[trigger] verdicts[k]),
        attempt.selected is None ==> after == before,
        attempt.selected matches Some(pop) ==> exists|i: int|
            #![trigger before.entries[i]]
            0 <= i < before.entries.len() && !blocks(verdicts[i]) && (forall|k: int|
                0 <= k < i ==> blocks(#[trigger] verdicts[k])) && {
                let entry = before.entries[i];
                let waited: int = if now >= entry.enqueued_at {
                    now - entry.enqueued_at
                } else {
                    0
                };
                let overloaded = before.controllers[entry.lane.number()].observed(
                    now,
                    waited as nat,
                    before.config.target@,
                    before.config.interval@,
                ).overloaded;
                let shed = (entry.lane == IsolateQueueLane::Ordinary || entry.lane
                    == IsolateQueueLane::IndependentAction) && waited > 2 * before.config.target@
                    && overloaded;
                &&& pop.output.item == entry.item
                &&& pop.lane == entry.lane
                &&& after.entries == before.entries.remove(i)
                &&& shed <==> pop.output.rejection == Some(IsolateQueueRejection::DelayControlShed)
                &&& !shed ==> pop.output.rejection is None && (pop.output.permit_deadline matches
                    Some(deadline) && deadline@ == entry.hard_deadline) && (
                pop.output.dispatch_sojourn matches Some((lane, sojourn)) && lane == entry.lane
                    && sojourn@ == waited)
                &&& shed ==> pop.output.permit_deadline is None && pop.output.dispatch_sojourn is None
            },
{
    lemma_none_is_due(before.entries, now, 0);
    lemma_first_eligible(verdicts, 0);
    assert forall|k: int| 0 <= k < verdicts.len() implies blocks(#[trigger] verdicts[k])
        == !verdicts[k].can_start() by {}
    if let Some(i) = first_eligible(verdicts, 0) {
        let pop = attempt.selected->0;
        assert(pop@ == before.selected(i, now));
        assert(pop@.output.rejection == pop.output.rejection);
        assert(!blocks(verdicts[i]));
        let entry = before.entries[i];
        assert(entry == before.entries[i]);
    }
}

/// Whether a limit keeps a request from being started.
pub open spec fn blocks(verdict: IsolateQueueEligibility) -> bool {
    verdict.physical_total || verdict.shared_base || verdict.per_client_total
        || verdict.per_client_base || verdict.independent_action_cap
}

proof fn lemma_none_is_due<T>(entries: Seq<EntryModel<T>>, now: nat, i: int)
    requires
        0 <= i,
        forall|k: int| i <= k < entries.len() ==> now < (#[trigger] entries[k]).hard_deadline,
    ensures
        first_due(entries, now, i) is None,
    decreases entries.len() - i,
{
    if i < entries.len() {
        assert(now < entries[i].hard_deadline);
        lemma_none_is_due(entries, now, i + 1);
    }
}

/// A lane whose last request leaves starts over without overload, whatever became of the request;
/// the delay control of the other lanes is not touched.
pub proof fn a_lane_without_requests_starts_over<T, F: Fn(&T) -> IsolateQueueEligibility>(
    select: F,
    before: QueueModel<T>,
    now: nat,
    verdicts: Seq<IsolateQueueEligibility>,
    attempt: SelectionAttempt<T>,
    after: QueueModel<T>,
    lane: IsolateQueueLane,
)
    requires
        is_attempt(select, before, now, verdicts, attempt, after),
        before.within_limits(),
        attempt.selected is Some,
    ensures
        attempt.selected->0.lane != lane ==> after.controllers[lane.number()]
            == before.controllers[lane.number()],
        attempt.selected->0.lane == lane && (forall|k: int|
            0 <= k < after.entries.len() ==> (#[trigger] after.entries[k]).lane != lane) ==> {
            let controller = after.controllers[lane.number()];
            &&& controller.interval_end == now + before.config.interval@
            &&& controller.min_sojourn is None
            &&& controller.sample_count == 0
            &&& !controller.overloaded
            &&& attempt.selected->0.transitions.cleared ==> before.controllers[lane.number()].overloaded
                || attempt.selected->0.transitions.entered
        },
{
    let pop = attempt.selected->0;
    assert(pop.lane == pop@.lane);
    assert(pop.transitions == pop@.transitions);
    lemma_first_due(before.entries, now, 0);
    lemma_first_eligible(verdicts, 0);
    lemma_lane_is_empty(after.entries, lane);
    match first_due(before.entries, now, 0) {
        Some(i) => {
            assert(after.entries == before.without(i).entries);
        },
        None => {
            let i = first_eligible(verdicts, 0)->0;
            assert(after.entries == before.dispatched(i, now).entries);
        },
    }
}

/// The age of the oldest request of a lane is the age of one of its requests, and that of none of
/// them is greater; a lane without requests has no age.
pub proof fn the_oldest_age_is_that_of_a_request<T>(
    entries: Seq<EntryModel<T>>,
    lane: IsolateQueueLane,
    now: nat,
)
    ensures
        forall|i: int|
            0 <= i < entries.len() && (#[trigger] entries[i]).lane == lane ==> now
                - entries[i].enqueued_at <= oldest_age(entries, lane, now),
        oldest_age(entries, lane, now) == 0 || exists|i: int|
            0 <= i < entries.len() && (#[trigger] entries[i]).lane == lane && now
                - entries[i].enqueued_at == oldest_age(entries, lane, now),
    decreases entries.len(),
{
    if entries.len() > 0 {
        let first = entries.drop_last();
        the_oldest_age_is_that_of_a_request(first, lane, now);
        assert forall|i: int| 0 <= i < entries.len() && (#[trigger] entries[i]).lane == lane implies now
            - entries[i].enqueued_at <= oldest_age(entries, lane, now) by {
            if i < first.len() {
                assert(first[i] == entries[i]);
            }
        }
        let oldest = oldest_age(entries, lane, now);
        if oldest != 0 {
            if oldest == oldest_age(first, lane, now) {
                let i = choose|i: int|
                    0 <= i < first.len() && (#[trigger] first[i]).lane == lane && now
                        - first[i].enqueued_at == oldest;
                assert(entries[i] == first[i]);
            } else {
                assert(entries[entries.len() - 1].lane == lane);
            }
        }
    }
}

/// Settings are accepted if and only if no length of time is zero, the hard age is more than twice
/// the target, the control-plane lane has room, and the clock can wait for each of the three
/// lengths; requests are then shed beyond twice the target.
pub proof fn settings_are_accepted_as_they_should_be(
    target: Duration,
    interval: Duration,
    hard_max_age: Duration,
    control_plane_hard_max_age: Duration,
    control_plane_capacity: usize,
    reach: TimerReach,
    config: Result<IsolateQueueConfig, IsolateQueueConfigError>,
)
    requires
        is_checked_config(
            target,
            interval,
            hard_max_age,
            control_plane_hard_max_age,
            control_plane_capacity,
            reach,
            config,
        ),
    ensures
        config is Ok <==> {
            &&& target@ > 0 && interval@ > 0 && control_plane_hard_max_age@ > 0
            &&& target@ * 2 <= MAX_NANOS
            &&& hard_max_age@ > target@ * 2
            &&& control_plane_capacity > 0
            &&& reach.interval && reach.hard_max_age && reach.control_plane_hard_max_age
        },
        config matches Ok(config) ==> config.shed_threshold@ == 2 * config.target@ && config.target
            == target && config.interval == interval && config.hard_max_age == hard_max_age
            && config.control_plane_hard_max_age == control_plane_hard_max_age
            && config.control_plane_capacity == control_plane_capacity,
{
}

/// What is counted of a lane and a limit are the requests of the lane that the limit blocks, among
/// those that have not reached the end of their time.
pub proof fn blocked_requests_are_counted_once<T>(
    entries: Seq<EntryModel<T>>,
    verdicts: Seq<IsolateQueueEligibility>,
    now: nat,
    n: int,
    lane: IsolateQueueLane,
    reason: IsolateQueueIneligibilityReason,
)
    requires
        0 <= n <= entries.len(),
        entries.len() == verdicts.len(),
    ensures
        tally(entries, verdicts, now, n, lane, reason) == entries.zip_with(verdicts).take(n).filter(
            |pair: (EntryModel<T>, IsolateQueueEligibility)|
                pair.0.lane == lane && now < pair.0.hard_deadline && pair.1.blocked_by(reason),
        ).len(),
    decreases n,
{
    reveal(Seq::filter);
    let all = entries.zip_with(verdicts);
    if n > 0 {
        blocked_requests_are_counted_once(entries, verdicts, now, n - 1, lane, reason);
        assert(all.take(n).drop_last() =~= all.take(n - 1));
        assert(all.take(n).last() == (entries[n - 1], verdicts[n - 1]));
    }
}

/// A queue that was emptied holds no request, takes requests for every lane as a new one does, and
/// no lane is overloaded before another interval is over.
pub proof fn emptied_queues_start_over<T>(
    before: QueueModel<T>,
    now: nat,
    lane: IsolateQueueLane,
)
    ensures
        ({
            let after = before.drained(now);
            let controller = after.controllers[lane.number()];
            &&& after.entries.len() == 0
            &&& after.depth(lane) == 0
            &&& after.config == before.config
            &&& !controller.overloaded
            &&& controller.min_sojourn is None && controller.sample_count == 0
            &&& controller.interval_end == now + before.config.interval@
        }),
{
}

} // verus!

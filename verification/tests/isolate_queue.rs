use std::sync::atomic::{AtomicUsize, Ordering};
use std::sync::Arc;

use backend_runtime::isolate_queue::{
    timer_requests, ControllerTransitions, IsolateDelayQueue, IsolateQueueConfig, IsolateQueueConfigError,
    IsolateQueueEligibility, IsolateQueueIneligibilityReason, IsolateQueueLane,
    IsolateQueueRejection, IsolateQueueSendError, LaneDelayController, TimerReach,
};
use backend_runtime::isolate_queue_state::{
    expiration_timer, new_isolate_queue, IsolateQueueState, ReceiveStep, ReceiverWake, TimerStep,
};
use backend_runtime::metric_log::{MetricLog, MetricValue};
use backend_runtime::time::{Duration, Moment};

fn config() -> IsolateQueueConfig {
    IsolateQueueConfig::new(
        Duration::from_millis(10),
        Duration::from_millis(100),
        Duration::from_millis(1000),
        Duration::from_secs(30),
        4,
    )
    .unwrap()
}

fn start() -> Moment {
    Moment::after_origin(Duration::from_secs(1_000))
}

fn at(millis: u64) -> Moment {
    start().plus(Duration::from_millis(millis))
}

fn eligible(_: &&'static str) -> IsolateQueueEligibility {
    IsolateQueueEligibility::eligible()
}

fn blocked_by_base<T>(_: &T) -> IsolateQueueEligibility {
    IsolateQueueEligibility { shared_base: true, ..Default::default() }
}

fn pop(queue: &mut IsolateDelayQueue<&'static str>, now: Moment) -> (&'static str, Option<IsolateQueueRejection>) {
    let output = queue.pop_selecting(now, &eligible).selected.unwrap().output;
    (output.item, output.rejection)
}

#[test]
fn controller_requires_two_slow_samples_from_a_complete_interval() {
    let config = config();
    let mut controller = LaneDelayController::new(start(), config.interval);

    assert_eq!(
        controller.observe(at(20), Duration::from_millis(20), &config),
        ControllerTransitions::default()
    );
    // The boundary closes an interval with only one sample. The sample at the boundary belongs to
    // the next interval.
    assert_eq!(
        controller.observe(at(100), Duration::from_millis(25), &config),
        ControllerTransitions::default()
    );
    assert!(!controller.overloaded);
    controller.observe(at(101), Duration::from_millis(30), &config);
    let transition = controller.observe(at(200), Duration::from_millis(30), &config);
    assert!(transition.entered);
    assert!(controller.overloaded);
}

#[test]
fn config_rejects_zero_inconsistent_and_unrepresentable_durations() {
    let target = Duration::from_millis(1);
    let interval = Duration::from_millis(10);
    let hard_max_age = Duration::from_millis(100);
    let control_plane = Duration::from_secs(30);
    assert_eq!(
        IsolateQueueConfig::new(Duration::zero(), interval, hard_max_age, control_plane, 4),
        Err(IsolateQueueConfigError::TargetZero)
    );
    assert_eq!(
        IsolateQueueConfig::new(target, Duration::zero(), hard_max_age, control_plane, 4),
        Err(IsolateQueueConfigError::IntervalZero)
    );
    assert_eq!(
        IsolateQueueConfig::new(
            Duration::from_millis(10),
            Duration::from_millis(100),
            Duration::from_millis(20),
            control_plane,
            4,
        ),
        Err(IsolateQueueConfigError::HardMaxAgeTooSmall)
    );
    assert!(
        IsolateQueueConfig::new(target, Duration::max(), hard_max_age, control_plane, 4).is_err()
    );
    assert!(IsolateQueueConfig::new(target, interval, Duration::max(), control_plane, 4).is_err());
    assert_eq!(
        IsolateQueueConfig::new(target, interval, hard_max_age, Duration::zero(), 4),
        Err(IsolateQueueConfigError::ControlPlaneHardMaxAgeZero)
    );
    assert!(IsolateQueueConfig::new(target, interval, hard_max_age, Duration::max(), 4).is_err());
    assert_eq!(
        IsolateQueueConfig::new(target, interval, hard_max_age, control_plane, 0),
        Err(IsolateQueueConfigError::ControlPlaneCapacityZero)
    );
}

#[test]
fn each_unreachable_timer_has_its_own_error() {
    let all = TimerReach { interval: true, hard_max_age: true, control_plane_hard_max_age: true };
    let with = |reach: TimerReach| {
        IsolateQueueConfig::with_timer_reach(
            Duration::from_millis(1),
            Duration::from_millis(10),
            Duration::from_millis(100),
            Duration::from_secs(30),
            4,
            reach,
        )
    };
    assert_eq!(with(all).unwrap().shed_threshold, Duration::from_millis(2));
    assert_eq!(
        with(TimerReach { interval: false, ..all }),
        Err(IsolateQueueConfigError::IntervalTooLarge)
    );
    assert_eq!(
        with(TimerReach { hard_max_age: false, ..all }),
        Err(IsolateQueueConfigError::HardMaxAgeTooLarge)
    );
    assert_eq!(
        with(TimerReach { control_plane_hard_max_age: false, ..all }),
        Err(IsolateQueueConfigError::ControlPlaneHardMaxAgeTooLarge)
    );
    assert_eq!(
        IsolateQueueConfig::with_timer_reach(
            Duration::max(),
            Duration::from_millis(10),
            Duration::from_millis(100),
            Duration::from_secs(30),
            4,
            all,
        ),
        Err(IsolateQueueConfigError::TargetOverflow)
    );
}

#[test]
fn zero_sample_interval_preserves_state_and_one_healthy_sample_clears_it() {
    let config = config();
    let mut controller = LaneDelayController::new(start(), config.interval);
    controller.overloaded = true;

    let transition = controller.observe(at(300), Duration::from_millis(5), &config);
    assert_eq!(transition, ControllerTransitions::default());
    assert!(controller.overloaded);

    let transition = controller.observe(at(400), Duration::from_millis(5), &config);
    assert!(transition.cleared);
    assert!(!controller.overloaded);
}

fn without_actions(item: &&'static str) -> IsolateQueueEligibility {
    if item.starts_with("action") {
        IsolateQueueEligibility { independent_action_cap: true, ..Default::default() }
    } else {
        IsolateQueueEligibility::eligible()
    }
}

#[test]
fn fifo_skips_ineligible_action_then_resumes_in_order() {
    let mut queue = IsolateDelayQueue::new(start(), 8, 2, config());
    queue.push("action_a", IsolateQueueLane::IndependentAction, start()).unwrap();
    queue.push("action_b", IsolateQueueLane::IndependentAction, start()).unwrap();
    queue.push("dependency", IsolateQueueLane::Dependency, start()).unwrap();

    let attempt = queue.pop_selecting(start(), &without_actions);
    assert_eq!(attempt.selected.unwrap().output.item, "dependency");
    assert_eq!(
        attempt.ineligible.get(
            IsolateQueueLane::IndependentAction,
            IsolateQueueIneligibilityReason::IndependentActionCap,
        ),
        2
    );
    assert_eq!(IsolateQueueIneligibilityReason::IndependentActionCap.index(), 4);

    assert_eq!(pop(&mut queue, start()).0, "action_a");
    assert_eq!(pop(&mut queue, start()).0, "action_b");
}

#[test]
fn action_backlog_overload_does_not_affect_other_lanes() {
    let mut queue = IsolateDelayQueue::new(start(), 16, 2, config());
    for item in ["action_a", "action_b", "action_c", "action_d"] {
        queue.push(item, IsolateQueueLane::IndependentAction, start()).unwrap();
    }
    pop(&mut queue, at(20));
    pop(&mut queue, at(30));
    queue.push("action_e", IsolateQueueLane::IndependentAction, at(100)).unwrap();
    let shed = queue.pop_selecting(at(100), &eligible).selected.unwrap();
    assert_eq!(shed.output.item, "action_c");
    assert_eq!(shed.output.rejection, Some(IsolateQueueRejection::DelayControlShed));
    assert!(queue.overloaded(IsolateQueueLane::IndependentAction));

    queue.push("ordinary", IsolateQueueLane::Ordinary, at(100)).unwrap();
    queue.push("dependency", IsolateQueueLane::Dependency, at(100)).unwrap();
    let ordinary = queue.pop_selecting(at(100), &without_actions).selected.unwrap();
    let dependency = queue.pop_selecting(at(100), &without_actions).selected.unwrap();
    assert_eq!(ordinary.output.item, "ordinary");
    assert_eq!(ordinary.output.rejection, None);
    assert_eq!(dependency.output.item, "dependency");
    assert_eq!(dependency.output.rejection, None);
    assert!(!queue.overloaded(IsolateQueueLane::Ordinary));
    assert!(!queue.overloaded(IsolateQueueLane::Dependency));
}

#[test]
fn shedding_uses_selected_requests_own_sojourn() {
    let mut queue = IsolateDelayQueue::new(start(), 4, 0, config());
    // A slow interval before the two requests come overloads the lane.
    for item in ["slow_a", "slow_b", "slow_c"] {
        queue.push(item, IsolateQueueLane::Ordinary, start()).unwrap();
    }
    pop(&mut queue, at(20));
    pop(&mut queue, at(30));
    queue.push("blocked_old", IsolateQueueLane::Ordinary, at(100)).unwrap();
    assert_eq!(pop(&mut queue, at(100)).0, "slow_c");
    queue.push("eligible_young", IsolateQueueLane::Ordinary, at(115)).unwrap();
    assert!(queue.overloaded(IsolateQueueLane::Ordinary));

    let now = at(125);
    let selected = queue
        .pop_selecting(now, &|item: &&'static str| IsolateQueueEligibility {
            shared_base: *item == "blocked_old",
            ..Default::default()
        })
        .selected
        .unwrap();
    assert_eq!(selected.output.item, "eligible_young");
    assert_eq!(selected.output.rejection, None);

    assert_eq!(
        pop(&mut queue, now),
        ("blocked_old", Some(IsolateQueueRejection::DelayControlShed))
    );
}

#[test]
fn transient_burst_and_lane_drain_reset_delay_state() {
    let mut queue = IsolateDelayQueue::new(start(), 8, 0, config());
    queue.push("a", IsolateQueueLane::Ordinary, start()).unwrap();
    queue.push("b", IsolateQueueLane::Ordinary, start()).unwrap();
    pop(&mut queue, at(20));
    pop(&mut queue, at(30));
    let controller = queue.controller(IsolateQueueLane::Ordinary);
    assert!(!controller.overloaded);
    assert_eq!(controller.sample_count, 0);
    assert_eq!(controller.min_sojourn, None);

    queue.push("fresh", IsolateQueueLane::Ordinary, at(100)).unwrap();
    assert!(!queue.overloaded(IsolateQueueLane::Ordinary));
}

#[test]
fn a_push_into_an_empty_lane_starts_its_interval() {
    let mut queue = IsolateDelayQueue::new(start(), 8, 0, config());
    assert_eq!(queue.controller(IsolateQueueLane::Ordinary).interval_end, at(100));
    queue.push("first", IsolateQueueLane::Ordinary, at(250)).unwrap();
    let controller = queue.controller(IsolateQueueLane::Ordinary);
    assert_eq!(controller.interval_end, at(350));
    assert_eq!(controller.min_sojourn, None);
    assert_eq!(controller.sample_count, 0);
    assert!(!controller.overloaded);
    // A push into a lane that is not empty starts no interval, nor does one into another lane.
    queue.push("second", IsolateQueueLane::Ordinary, at(300)).unwrap();
    queue.push("other", IsolateQueueLane::Dependency, at(320)).unwrap();
    assert_eq!(queue.controller(IsolateQueueLane::Ordinary).interval_end, at(350));
    assert_eq!(queue.controller(IsolateQueueLane::Dependency).interval_end, at(420));
}

#[test]
fn the_clock_is_asked_about_each_length_of_time() {
    assert_eq!(
        timer_requests(
            Duration::from_millis(1_500),
            Duration::from_secs(7),
            Duration::from_nanos(2_000_000_003),
        ),
        [(1, 500_000_000), (7, 0), (2, 3)]
    );
}

#[test]
fn an_overloaded_lane_is_calm_again_once_it_is_empty() {
    let mut queue = IsolateDelayQueue::new(start(), 8, 0, config());
    for item in ["a", "b", "c", "d"] {
        queue.push(item, IsolateQueueLane::Ordinary, start()).unwrap();
    }
    pop(&mut queue, at(20));
    pop(&mut queue, at(30));
    let third = queue.pop_selecting(at(100), &eligible).selected.unwrap();
    assert!(third.transitions.entered);
    assert!(queue.overloaded(IsolateQueueLane::Ordinary));
    let last = queue.pop_selecting(at(101), &eligible).selected.unwrap();
    assert!(last.transitions.cleared);
    assert!(!queue.overloaded(IsolateQueueLane::Ordinary));
    assert!(queue.is_empty());
}

#[test]
fn dependencies_are_not_shed_but_keep_capacity_and_hard_age_bounds() {
    let config = config();
    let mut queue = IsolateDelayQueue::new(start(), 1, 1, config);
    // A slow interval before the request comes overloads the lane.
    queue.push("slow_a", IsolateQueueLane::Dependency, start()).unwrap();
    queue.push("slow_b", IsolateQueueLane::Dependency, start()).unwrap();
    pop(&mut queue, at(20));
    queue.push("slow_c", IsolateQueueLane::Dependency, at(20)).unwrap();
    pop(&mut queue, at(30));
    queue.push("dependency", IsolateQueueLane::Dependency, at(100)).unwrap();
    assert_eq!(pop(&mut queue, at(100)), ("slow_c", None));
    assert!(queue.overloaded(IsolateQueueLane::Dependency));
    assert_eq!(pop(&mut queue, at(130)), ("dependency", None));

    queue.push("ordinary", IsolateQueueLane::Ordinary, start()).unwrap();
    assert!(queue.push("ordinary_full", IsolateQueueLane::Ordinary, start()).is_err());
    assert!(queue.push("dependency_reserve", IsolateQueueLane::Dependency, start()).unwrap());
    assert!(queue.push("dependency_full", IsolateQueueLane::Dependency, start()).is_err());
    let deadline = start().plus(config.hard_max_age);
    assert_eq!(
        pop(&mut queue, deadline),
        ("ordinary", Some(IsolateQueueRejection::HardExpired))
    );
    assert_eq!(
        pop(&mut queue, deadline),
        ("dependency_reserve", Some(IsolateQueueRejection::HardExpired))
    );
}

#[test]
fn control_plane_lane_uses_shared_capacity_and_has_a_local_cap() {
    let config = IsolateQueueConfig::new(
        Duration::from_millis(10),
        Duration::from_millis(100),
        Duration::from_secs(1),
        Duration::from_secs(30),
        1,
    )
    .unwrap();
    let mut queue = IsolateDelayQueue::new(start(), 2, 1, config);

    assert!(!queue.push("control_plane", IsolateQueueLane::ControlPlane, start()).unwrap());
    assert_eq!(queue.depth(IsolateQueueLane::ControlPlane), 1);
    assert_eq!(
        queue
            .push("control_plane_lane_full", IsolateQueueLane::ControlPlane, start())
            .unwrap_err(),
        (IsolateQueueSendError::LaneFull, "control_plane_lane_full"),
    );
    assert!(!queue.push("ordinary", IsolateQueueLane::Ordinary, start()).unwrap());
    assert!(queue.push("dependency_reserve", IsolateQueueLane::Dependency, start()).unwrap());

    assert_eq!(pop(&mut queue, start()).0, "control_plane");
    assert_eq!(queue.depth(IsolateQueueLane::ControlPlane), 0);
    assert_eq!(
        queue
            .push("control_plane_queue_full", IsolateQueueLane::ControlPlane, start())
            .unwrap_err()
            .0,
        IsolateQueueSendError::QueueFull,
    );
}

#[test]
fn control_plane_preserves_fifo_with_ordinary_requests() {
    let mut queue = IsolateDelayQueue::new(start(), 8, 1, config());
    queue.push("ordinary_old", IsolateQueueLane::Ordinary, start()).unwrap();
    queue.push("control_plane_new", IsolateQueueLane::ControlPlane, at(1)).unwrap();
    assert_eq!(pop(&mut queue, at(2)).0, "ordinary_old");
    assert_eq!(pop(&mut queue, at(2)).0, "control_plane_new");

    queue.push("control_plane_old", IsolateQueueLane::ControlPlane, at(3)).unwrap();
    queue.push("ordinary_new", IsolateQueueLane::Ordinary, at(4)).unwrap();
    assert_eq!(pop(&mut queue, at(5)).0, "control_plane_old");
}

#[test]
fn control_plane_bypasses_shedding_but_uses_its_finite_deadline() {
    let config = config();
    let mut queue = IsolateDelayQueue::new(start(), 4, 0, config);
    // A slow interval before the request comes overloads the lane.
    for item in ["slow_a", "slow_b", "slow_c"] {
        queue.push(item, IsolateQueueLane::ControlPlane, start()).unwrap();
    }
    pop(&mut queue, at(20));
    pop(&mut queue, at(30));
    queue.push("control_plane", IsolateQueueLane::ControlPlane, at(100)).unwrap();
    assert_eq!(pop(&mut queue, at(100)), ("slow_c", None));
    assert!(queue.overloaded(IsolateQueueLane::ControlPlane));
    assert_eq!(pop(&mut queue, at(130)), ("control_plane", None));

    queue.push("expires", IsolateQueueLane::ControlPlane, start()).unwrap();
    assert_eq!(
        pop(&mut queue, start().plus(config.control_plane_hard_max_age)),
        ("expires", Some(IsolateQueueRejection::HardExpired))
    );
}

#[test]
fn per_entry_deadlines_expire_newer_ordinary_work_first() {
    let config = config();
    let mut queue = IsolateDelayQueue::new(start(), 4, 0, config);
    queue.push("control_plane_old", IsolateQueueLane::ControlPlane, start()).unwrap();
    queue.push("ordinary_new", IsolateQueueLane::Ordinary, at(100)).unwrap();
    let deadline = at(100).plus(config.hard_max_age);
    assert_eq!(queue.next_expiration(), Some(deadline));

    assert_eq!(
        pop(&mut queue, deadline),
        ("ordinary_new", Some(IsolateQueueRejection::HardExpired))
    );
    assert_eq!(queue.depth(IsolateQueueLane::ControlPlane), 1);
}

#[test]
fn hard_expiration_does_not_assume_physical_deadline_order() {
    let config = config();
    let mut queue = IsolateDelayQueue::new(start(), 4, 0, config);
    queue.push("front", IsolateQueueLane::Ordinary, at(100)).unwrap();
    queue.push("back", IsolateQueueLane::Ordinary, start()).unwrap();

    assert_eq!(
        pop(&mut queue, start().plus(config.hard_max_age)),
        ("back", Some(IsolateQueueRejection::HardExpired))
    );
}

#[test]
fn hard_expiration_reports_remaining_ineligible_entries() {
    let config = config();
    let mut queue = IsolateDelayQueue::new(start(), 4, 0, config);
    queue.push("expired", IsolateQueueLane::Ordinary, start()).unwrap();
    queue.push("blocked", IsolateQueueLane::IndependentAction, at(1)).unwrap();

    let attempt = queue.pop_selecting(start().plus(config.hard_max_age), &|item: &&'static str| {
        IsolateQueueEligibility {
            independent_action_cap: *item == "blocked",
            ..Default::default()
        }
    });
    assert_eq!(attempt.selected.unwrap().output.item, "expired");
    assert_eq!(
        attempt.ineligible.get(
            IsolateQueueLane::IndependentAction,
            IsolateQueueIneligibilityReason::IndependentActionCap,
        ),
        1
    );
}

#[test]
fn a_selected_request_says_how_long_it_waited_and_until_when_it_may_wait() {
    let config = config();
    let mut queue = IsolateDelayQueue::new(start(), 4, 0, config);
    queue.push("control", IsolateQueueLane::ControlPlane, start()).unwrap();
    queue.push("ordinary", IsolateQueueLane::Ordinary, start()).unwrap();
    assert_eq!(queue.oldest_age(IsolateQueueLane::Ordinary, at(7)), Duration::from_millis(7));
    assert_eq!(queue.oldest_age(IsolateQueueLane::Dependency, at(7)), Duration::zero());
    let control = queue.pop_selecting(at(7), &eligible).selected.unwrap().output;
    assert_eq!(control.permit_deadline, Some(start().plus(config.control_plane_hard_max_age)));
    assert_eq!(
        control.dispatch_sojourn,
        Some((IsolateQueueLane::ControlPlane, Duration::from_millis(7)))
    );
    let ordinary = queue.pop_selecting(at(8), &eligible).selected.unwrap().output;
    assert_eq!(
        ordinary.dispatch_sojourn,
        Some((IsolateQueueLane::Ordinary, Duration::from_millis(8)))
    );
}

fn short_config(control_plane_hard_max_age: Duration) -> IsolateQueueConfig {
    IsolateQueueConfig::new(
        Duration::from_millis(1),
        Duration::from_millis(10),
        Duration::from_millis(3),
        control_plane_hard_max_age,
        1,
    )
    .unwrap()
}

fn new_state(
    capacity: usize,
    config: IsolateQueueConfig,
    log: &mut MetricLog,
) -> IsolateQueueState<&'static str> {
    new_isolate_queue("queue_test", start(), capacity, 0, config, log)
}

fn ready<T>(step: ReceiveStep<T>) -> (T, Option<IsolateQueueRejection>) {
    match step {
        ReceiveStep::Ready(output) => (output.item, output.rejection),
        ReceiveStep::Closed => panic!("closed"),
        ReceiveStep::Wait(_) => panic!("nothing came"),
    }
}

#[test]
fn canceled_receive_and_sender_shutdown_preserve_each_item_once() {
    let mut log = MetricLog::new();
    let config = IsolateQueueConfig::new(
        Duration::from_millis(10),
        Duration::from_millis(100),
        Duration::from_secs(10),
        Duration::from_secs(30),
        1,
    )
    .unwrap();
    let mut state = new_state(2, config, &mut log);
    state.try_send("queued", IsolateQueueLane::Ordinary, start(), &mut log).0.unwrap();
    let (step, _) = state.receive(start(), &blocked_by_base, &mut log);
    assert!(matches!(step, ReceiveStep::Wait(Some(_))));

    let (step, _) = state.receive(start(), &eligible, &mut log);
    assert_eq!(ready(step).0, "queued");
    state.drop_sender();
    let (step, _) = state.receive(start(), &eligible, &mut log);
    assert!(matches!(step, ReceiveStep::Closed));
}

#[test]
fn receiver_wakes_at_hard_expiration_without_an_enqueue() {
    let mut log = MetricLog::new();
    let mut state = new_state(1, short_config(Duration::from_secs(30)), &mut log);
    state.try_send("queued", IsolateQueueLane::Ordinary, start(), &mut log).0.unwrap();

    let (step, _) = state.receive(start(), &blocked_by_base, &mut log);
    let deadline = match step {
        ReceiveStep::Wait(Some(deadline)) => deadline,
        _ => panic!("expected to wait"),
    };
    assert_eq!(deadline, at(3));
    assert_eq!(
        expiration_timer(None, Some(deadline), start()),
        TimerStep::Arm { deadline, wait: Duration::from_millis(3) }
    );
    let (step, _) = state.receive(deadline, &blocked_by_base, &mut log);
    assert_eq!(ready(step), ("queued", Some(IsolateQueueRejection::HardExpired)));
}

#[test]
fn expiration_companion_wakes_while_main_receiver_is_idle() {
    let mut log = MetricLog::new();
    let mut state = new_state(1, short_config(Duration::from_secs(30)), &mut log);
    state.try_send("queued", IsolateQueueLane::Ordinary, start(), &mut log).0.unwrap();
    state.drop_sender();

    let (step, _) = state.receive_expired(start(), &blocked_by_base, &mut log);
    assert!(matches!(step, ReceiveStep::Wait(Some(deadline)) if deadline == at(3)));
    let (step, _) = state.receive_expired(at(3), &blocked_by_base, &mut log);
    assert_eq!(ready(step), ("queued", Some(IsolateQueueRejection::HardExpired)));
    let (step, _) = state.receive_expired(at(3), &eligible, &mut log);
    assert!(matches!(step, ReceiveStep::Closed));
}

#[test]
fn expiration_companion_replaces_later_lane_deadline() {
    let mut log = MetricLog::new();
    let mut state = new_state(2, short_config(Duration::from_millis(100)), &mut log);
    state.try_send("control_plane", IsolateQueueLane::ControlPlane, start(), &mut log).0.unwrap();
    let (step, _) = state.receive_expired(start(), &eligible, &mut log);
    assert!(matches!(step, ReceiveStep::Wait(Some(deadline)) if deadline == at(100)));

    let (_, wake) = state.try_send("ordinary", IsolateQueueLane::Ordinary, start(), &mut log);
    assert!(wake.expiry_companions);
    let (step, _) = state.receive_expired(start(), &eligible, &mut log);
    assert!(matches!(step, ReceiveStep::Wait(Some(deadline)) if deadline == at(3)));
    assert_eq!(
        expiration_timer(Some(at(100)), Some(at(3)), start()),
        TimerStep::Arm { deadline: at(3), wait: Duration::from_millis(3) }
    );
    let (step, _) = state.receive_expired(at(3), &eligible, &mut log);
    assert_eq!(ready(step), ("ordinary", Some(IsolateQueueRejection::HardExpired)));
}

#[test]
fn expiration_companion_closes_with_main_receiver() {
    let mut log = MetricLog::new();
    let mut state = new_state(1, config(), &mut log);
    state.try_send("queued", IsolateQueueLane::Ordinary, start(), &mut log).0.unwrap();

    state.drop_receiver(start(), &mut log);
    let (step, _) = state.receive_expired(start(), &eligible, &mut log);
    assert!(matches!(step, ReceiveStep::Closed));
    assert!(state.is_closed());
}

#[test]
fn last_sender_keeps_ineligible_items_until_hard_expiration() {
    let mut log = MetricLog::new();
    let mut state = new_state(1, short_config(Duration::from_secs(30)), &mut log);
    state.try_send("queued", IsolateQueueLane::Ordinary, start(), &mut log).0.unwrap();
    let wake = state.drop_sender();
    assert_eq!(wake.receivers, ReceiverWake::Everybody);

    let (step, _) = state.receive(start(), &blocked_by_base, &mut log);
    assert!(matches!(step, ReceiveStep::Wait(Some(deadline)) if deadline == at(3)));
    let (step, _) = state.receive(at(3), &blocked_by_base, &mut log);
    assert_eq!(ready(step), ("queued", Some(IsolateQueueRejection::HardExpired)));
    let (step, _) = state.receive(at(3), &eligible, &mut log);
    assert!(matches!(step, ReceiveStep::Closed));
}

struct DropCounter(Arc<AtomicUsize>);

impl Drop for DropCounter {
    fn drop(&mut self) {
        self.0.fetch_add(1, Ordering::Relaxed);
    }
}

#[test]
fn dropping_last_receiver_closes_and_drains_exactly_once() {
    let mut log = MetricLog::new();
    let mut state: IsolateQueueState<DropCounter> =
        new_isolate_queue("queue_test", start(), 1, 0, config(), &mut log);
    let drops = Arc::new(AtomicUsize::new(0));
    assert!(state
        .try_send(DropCounter(drops.clone()), IsolateQueueLane::Ordinary, start(), &mut log)
        .0
        .is_ok());

    let (drained, wake) = state.drop_receiver(start(), &mut log);
    assert_eq!(drained.as_ref().map(|entries| entries.len()), Some(1));
    assert!(wake.expiry_companions);
    drop(drained);
    assert!(state.is_closed());
    assert_eq!(drops.load(Ordering::Relaxed), 1);

    let refused =
        state.try_send(DropCounter(drops.clone()), IsolateQueueLane::Ordinary, start(), &mut log);
    assert!(matches!(&refused.0, Err((IsolateQueueSendError::SchedulerClosed, _))));
    drop(refused);
    assert_eq!(drops.load(Ordering::Relaxed), 2);
}

#[test]
fn a_timer_is_kept_while_its_deadline_stands() {
    assert_eq!(expiration_timer(Some(at(5)), Some(at(5)), start()), TimerStep::Keep);
    assert_eq!(expiration_timer(Some(at(5)), None, start()), TimerStep::Clear);
    assert_eq!(expiration_timer(None, None, start()), TimerStep::Clear);
}

#[test]
fn a_refused_request_is_counted_with_its_lane_and_reason() {
    let mut log = MetricLog::new();
    let mut state = new_state(1, config(), &mut log);
    state.try_send("first", IsolateQueueLane::Ordinary, start(), &mut log).0.unwrap();
    log.take();
    let (sent, _) = state.try_send("second", IsolateQueueLane::Ordinary, start(), &mut log);
    assert_eq!(sent, Err((IsolateQueueSendError::QueueFull, "second")));
    let updates = log.take();
    let rejection = updates
        .iter()
        .find(|update| update.family == "isolate_queue_rejections_total")
        .expect("no rejection was counted");
    assert_eq!(rejection.value, MetricValue::Integer(1));
    let labels: Vec<(&str, &str)> =
        rejection.labels.iter().map(|label| (label.name, label.value.as_str())).collect();
    assert_eq!(
        labels,
        vec![("pool_name", "queue_test"), ("lane", "ordinary"), ("reason", "queue_full")]
    );
}

//! The metrics of the isolate pool: each function records the update that it stands for.
use vstd::prelude::*;
use vstd::string::*;

use crate::context_kind::{
    ContextCacheClearReason, ContextCacheOperation, DatabaseUdfContextReuseLookupOutcome,
    ReusableContextKind, SchedulerContextAffinityOutcome,
};
use crate::metric_log::{
    counter, flag, flag_value, four_labels, gauge, label_texts, log_counter,
    log_counter_with_labels, log_gauge, log_gauge_with_labels, log_update, no_labels, one_label,
    three_labels, two_labels, update, MetricLabel, MetricLog, MetricOperation, MetricTimer,
    MetricValue, TimerEnd, TimerKind, TimerView, UpdateView,
};
use crate::text::{contains, occurs};
use crate::time::Duration;

verus! {

/// The kinds of user-defined functions.
#[derive(Clone, Copy, Debug, PartialEq, Eq, Structural)]
pub enum UdfType {
    Query,
    Mutation,
    Action,
    HttpAction,
}

impl UdfType {
    pub open spec fn label(self) -> Seq<char> {
        match self {
            UdfType::Query => "query"@,
            UdfType::Mutation => "mutation"@,
            UdfType::Action => "action"@,
            UdfType::HttpAction => "httpaction"@,
        }
    }

    pub fn to_lowercase_string(self) -> (label: &'static str)
        ensures
            label@ == self.label(),
    {
        match self {
            UdfType::Query => "query",
            UdfType::Mutation => "mutation",
            UdfType::Action => "action",
            UdfType::HttpAction => "httpaction",
        }
    }
}

/// A truth value as a label shows it.
pub open spec fn bool_text(value: bool) -> Seq<char> {
    if value {
        "true"@
    } else {
        "false"@
    }
}

pub fn bool_label(value: bool) -> (label: &'static str)
    ensures
        label@ == bool_text(value),
{
    if value {
        "true"
    } else {
        "false"
    }
}

/// The labels of a request class of a pool.
pub open spec fn class_labels(name: Seq<char>, class: Seq<char>) -> Seq<(Seq<char>, Seq<char>)> {
    seq![("pool_name"@, name), ("scheduler_class"@, class)]
}

/// How many isolate workers are currently running work of a client.
pub fn log_pool_running_count(
    log: &mut MetricLog,
    name: &'static str,
    count: usize,
    client_id: &str,
)
    ensures
        final(log)@ == old(log)@.push(
            gauge(
                "isolate_pool_running_count_info"@,
                count as int,
                seq![("pool_name"@, name@), ("client_id"@, client_id@)],
            ),
        ),
{
    log_gauge_with_labels(
        log,
        "isolate_pool_running_count_info",
        count as u64,
        two_labels("pool_name", name, "client_id", client_id),
    );
}

/// How many isolate workers can be running.
pub fn log_pool_max(log: &mut MetricLog, name: &'static str, count: usize)
    ensures
        final(log)@ == old(log)@.push(
            gauge("isolate_pool_max_info"@, count as int, seq![("pool_name"@, name@)]),
        ),
{
    log_gauge_with_labels(log, "isolate_pool_max_info", count as u64, one_label("pool_name", name));
}

/// How many isolate workers have been allocated.
pub fn log_pool_allocated_count(log: &mut MetricLog, name: &'static str, count: usize)
    ensures
        final(log)@ == old(log)@.push(
            gauge("isolate_pool_allocated_count_info"@, count as int, seq![("pool_name"@, name@)]),
        ),
{
    log_gauge_with_labels(
        log,
        "isolate_pool_allocated_count_info",
        count as u64,
        one_label("pool_name", name),
    );
}

/// A request was accepted by the scheduler.
pub fn log_scheduler_request_enqueued(
    log: &mut MetricLog,
    name: &'static str,
    scheduler_class: &'static str,
)
    ensures
        final(log)@ == old(log)@.push(
            counter(
                "isolate_scheduler_requests_enqueued_total"@,
                1,
                seq![("pool_name"@, name@), ("scheduler_class"@, scheduler_class@)],
            ),
        ),
{
    log_counter_with_labels(
        log,
        "isolate_scheduler_requests_enqueued_total",
        1,
        two_labels("pool_name", name, "scheduler_class", scheduler_class),
    );
}

/// A request was dispatched by the scheduler.
pub fn log_scheduler_request_dispatched(
    log: &mut MetricLog,
    name: &'static str,
    scheduler_class: &'static str,
)
    ensures
        final(log)@ == old(log)@.push(
            counter(
                "isolate_scheduler_requests_dispatched_total"@,
                1,
                seq![("pool_name"@, name@), ("scheduler_class"@, scheduler_class@)],
            ),
        ),
{
    log_counter_with_labels(
        log,
        "isolate_scheduler_requests_dispatched_total",
        1,
        two_labels("pool_name", name, "scheduler_class", scheduler_class),
    );
}

/// A worker was selected for a request that can reuse a context.
pub fn log_scheduler_context_affinity(
    log: &mut MetricLog,
    name: &'static str,
    context_kind: ReusableContextKind,
    outcome: SchedulerContextAffinityOutcome,
)
    ensures
        final(log)@ == old(log)@.push(
            counter(
                "isolate_scheduler_context_affinity_total"@,
                1,
                seq![
                    ("pool_name"@, name@),
                    ("context_kind"@, context_kind.label()),
                    ("outcome"@, outcome.label()),
                ],
            ),
        ),
{
    log_counter_with_labels(
        log,
        "isolate_scheduler_context_affinity_total",
        1,
        three_labels(
            "pool_name",
            name,
            "context_kind",
            context_kind.as_label(),
            "outcome",
            outcome.metric_label(),
        ),
    );
}

/// A request reached its queue deadline before dispatch.
pub fn log_scheduler_request_expired(
    log: &mut MetricLog,
    name: &'static str,
    scheduler_class: &'static str,
)
    ensures
        final(log)@ == old(log)@.push(
            counter(
                "isolate_scheduler_requests_expired_total"@,
                1,
                seq![("pool_name"@, name@), ("scheduler_class"@, scheduler_class@)],
            ),
        ),
{
    log_counter_with_labels(
        log,
        "isolate_scheduler_requests_expired_total",
        1,
        two_labels("pool_name", name, "scheduler_class", scheduler_class),
    );
}

/// A request was rejected before dispatch.
pub fn log_scheduler_request_rejected(
    log: &mut MetricLog,
    name: &'static str,
    scheduler_class: &'static str,
    reason: &'static str,
)
    ensures
        final(log)@ == old(log)@.push(
            counter(
                "isolate_scheduler_requests_rejected_total"@,
                1,
                seq![
                    ("pool_name"@, name@),
                    ("scheduler_class"@, scheduler_class@),
                    ("reason"@, reason@),
                ],
            ),
        ),
{
    log_counter_with_labels(
        log,
        "isolate_scheduler_requests_rejected_total",
        1,
        three_labels("pool_name", name, "scheduler_class", scheduler_class, "reason", reason),
    );
}

/// A request of a class became active.
pub fn log_scheduler_active_request_started(
    log: &mut MetricLog,
    name: &'static str,
    scheduler_class: &'static str,
    is_isolate_action: bool,
)
    ensures
        final(log)@ == old(log)@.push(
            update(
                MetricOperation::AddToGauge,
                "isolate_scheduler_active_requests_info"@,
                MetricValue::Integer(1),
                seq![
                    ("pool_name"@, name@),
                    ("scheduler_class"@, scheduler_class@),
                    ("is_isolate_action"@, bool_text(is_isolate_action)),
                ],
            ),
        ),
{
    log_update(
        log,
        MetricOperation::AddToGauge,
        "isolate_scheduler_active_requests_info",
        MetricValue::Integer(1),
        three_labels(
            "pool_name",
            name,
            "scheduler_class",
            scheduler_class,
            "is_isolate_action",
            bool_label(is_isolate_action),
        ),
    );
}

/// An active request of a class finished.
pub fn log_scheduler_active_request_finished(
    log: &mut MetricLog,
    name: &'static str,
    scheduler_class: &'static str,
    is_isolate_action: bool,
)
    ensures
        final(log)@ == old(log)@.push(
            update(
                MetricOperation::SubtractFromGauge,
                "isolate_scheduler_active_requests_info"@,
                MetricValue::Integer(1),
                seq![
                    ("pool_name"@, name@),
                    ("scheduler_class"@, scheduler_class@),
                    ("is_isolate_action"@, bool_text(is_isolate_action)),
                ],
            ),
        ),
{
    log_update(
        log,
        MetricOperation::SubtractFromGauge,
        "isolate_scheduler_active_requests_info",
        MetricValue::Integer(1),
        three_labels(
            "pool_name",
            name,
            "scheduler_class",
            scheduler_class,
            "is_isolate_action",
            bool_label(is_isolate_action),
        ),
    );
}

/// A dependency was dispatched while occupancy was at or above the shared base.
pub fn log_scheduler_dependency_reserve_dispatch(log: &mut MetricLog, name: &'static str)
    ensures
        final(log)@ == old(log)@.push(
            counter(
                "isolate_scheduler_dependency_reserve_dispatch_total"@,
                1,
                seq![("pool_name"@, name@)],
            ),
        ),
{
    log_counter_with_labels(
        log,
        "isolate_scheduler_dependency_reserve_dispatch_total",
        1,
        one_label("pool_name", name),
    );
}

/// A dependency was enqueued in capacity that other work cannot use.
pub fn log_scheduler_dependency_queue_reserve_enqueue(log: &mut MetricLog, name: &'static str)
    ensures
        final(log)@ == old(log)@.push(
            counter(
                "isolate_scheduler_dependency_queue_reserve_enqueue_total"@,
                1,
                seq![("pool_name"@, name@)],
            ),
        ),
{
    log_counter_with_labels(
        log,
        "isolate_scheduler_dependency_queue_reserve_enqueue_total",
        1,
        one_label("pool_name", name),
    );
}

/// The configured capacity of the scheduler.
pub fn log_scheduler_capacity(
    log: &mut MetricLog,
    name: &'static str,
    capacity_kind: &'static str,
    capacity: usize,
)
    ensures
        final(log)@ == old(log)@.push(
            gauge(
                "isolate_scheduler_capacity_info"@,
                capacity as int,
                seq![("pool_name"@, name@), ("capacity_kind"@, capacity_kind@)],
            ),
        ),
{
    log_gauge_with_labels(
        log,
        "isolate_scheduler_capacity_info",
        capacity as u64,
        two_labels("pool_name", name, "capacity_kind", capacity_kind),
    );
}

/// Whether the control-plane lane is enabled, as its gauge shows it.
pub fn control_plane_lane_enabled_value(enabled: bool) -> (value: u64)
    ensures
        value == flag(enabled),
{
    flag_value(enabled)
}

/// Whether control-plane requests are classified.
pub fn log_control_plane_lane_enabled(log: &mut MetricLog, name: &'static str, enabled: bool)
    ensures
        final(log)@ == old(log)@.push(
            gauge(
                "isolate_control_plane_lane_enabled_info"@,
                flag(enabled),
                seq![("pool_name"@, name@)],
            ),
        ),
{
    log_gauge_with_labels(
        log,
        "isolate_control_plane_lane_enabled_info",
        control_plane_lane_enabled_value(enabled),
        one_label("pool_name", name),
    );
}

/// How many requests a lane holds.
pub fn log_isolate_queue_depth(
    log: &mut MetricLog,
    name: &'static str,
    lane: &'static str,
    depth: usize,
)
    ensures
        final(log)@ == old(log)@.push(
            gauge(
                "isolate_queue_depth_info"@,
                depth as int,
                seq![("pool_name"@, name@), ("lane"@, lane@)],
            ),
        ),
{
    log_gauge_with_labels(
        log,
        "isolate_queue_depth_info",
        depth as u64,
        two_labels("pool_name", name, "lane", lane),
    );
}

/// The age of the oldest request of a lane.
pub fn log_isolate_queue_oldest_age(
    log: &mut MetricLog,
    name: &'static str,
    lane: &'static str,
    age: Duration,
)
    ensures
        final(log)@ == old(log)@.push(
            update(
                MetricOperation::SetGauge,
                "isolate_queue_oldest_age_seconds"@,
                MetricValue::Seconds(age),
                seq![("pool_name"@, name@), ("lane"@, lane@)],
            ),
        ),
{
    log_update(
        log,
        MetricOperation::SetGauge,
        "isolate_queue_oldest_age_seconds",
        MetricValue::Seconds(age),
        two_labels("pool_name", name, "lane", lane),
    );
}

/// The time that a dispatched request spent in the queue.
pub fn log_isolate_queue_sojourn(
    log: &mut MetricLog,
    name: &'static str,
    lane: &'static str,
    sojourn: Duration,
)
    ensures
        final(log)@ == old(log)@.push(
            update(
                MetricOperation::RecordDistribution,
                "isolate_queue_sojourn_seconds"@,
                MetricValue::Seconds(sojourn),
                seq![("pool_name"@, name@), ("lane"@, lane@)],
            ),
        ),
{
    log_update(
        log,
        MetricOperation::RecordDistribution,
        "isolate_queue_sojourn_seconds",
        MetricValue::Seconds(sojourn),
        two_labels("pool_name", name, "lane", lane),
    );
}

/// A request was rejected by the queue.
pub fn log_isolate_queue_rejection(
    log: &mut MetricLog,
    name: &'static str,
    lane: &'static str,
    reason: &'static str,
)
    ensures
        final(log)@ == old(log)@.push(
            counter(
                "isolate_queue_rejections_total"@,
                1,
                seq![("pool_name"@, name@), ("lane"@, lane@), ("reason"@, reason@)],
            ),
        ),
{
    log_counter_with_labels(
        log,
        "isolate_queue_rejections_total",
        1,
        three_labels("pool_name", name, "lane", lane, "reason", reason),
    );
}

/// Whether a lane is overloaded.
pub fn log_isolate_queue_overloaded(
    log: &mut MetricLog,
    name: &'static str,
    lane: &'static str,
    overloaded: bool,
)
    ensures
        final(log)@ == old(log)@.push(
            gauge(
                "isolate_queue_overloaded_info"@,
                flag(overloaded),
                seq![("pool_name"@, name@), ("lane"@, lane@)],
            ),
        ),
{
    log_gauge_with_labels(
        log,
        "isolate_queue_overloaded_info",
        flag_value(overloaded),
        two_labels("pool_name", name, "lane", lane),
    );
}

/// A lane entered or cleared its overload.
pub fn log_isolate_queue_overload_transition(
    log: &mut MetricLog,
    name: &'static str,
    lane: &'static str,
    transition: &'static str,
)
    ensures
        final(log)@ == old(log)@.push(
            counter(
                "isolate_queue_overload_transitions_total"@,
                1,
                seq![("pool_name"@, name@), ("lane"@, lane@), ("transition"@, transition@)],
            ),
        ),
{
    log_counter_with_labels(
        log,
        "isolate_queue_overload_transitions_total",
        1,
        three_labels("pool_name", name, "lane", lane, "transition", transition),
    );
}

/// How many requests of a lane a limit blocks.
pub fn log_isolate_queue_ineligible(
    log: &mut MetricLog,
    name: &'static str,
    lane: &'static str,
    reason: &'static str,
    count: usize,
)
    ensures
        final(log)@ == old(log)@.push(
            gauge(
                "isolate_queue_ineligible_info"@,
                count as int,
                seq![("pool_name"@, name@), ("lane"@, lane@), ("reason"@, reason@)],
            ),
        ),
{
    log_gauge_with_labels(
        log,
        "isolate_queue_ineligible_info",
        count as u64,
        three_labels("pool_name", name, "lane", lane, "reason", reason),
    );
}

/// The configured capacity of the queue.
pub fn log_isolate_queue_capacity(
    log: &mut MetricLog,
    name: &'static str,
    capacity_kind: &'static str,
    capacity: usize,
)
    ensures
        final(log)@ == old(log)@.push(
            gauge(
                "isolate_queue_capacity_info"@,
                capacity as int,
                seq![("pool_name"@, name@), ("capacity_kind"@, capacity_kind@)],
            ),
        ),
{
    log_gauge_with_labels(
        log,
        "isolate_queue_capacity_info",
        capacity as u64,
        two_labels("pool_name", name, "capacity_kind", capacity_kind),
    );
}

/// The policy of the queue.
pub fn log_isolate_queue_policy(log: &mut MetricLog, name: &'static str, policy: &'static str)
    ensures
        final(log)@ == old(log)@.push(
            gauge(
                "isolate_queue_policy_info"@,
                1,
                seq![("pool_name"@, name@), ("policy"@, policy@)],
            ),
        ),
{
    log_gauge_with_labels(
        log,
        "isolate_queue_policy_info",
        1,
        two_labels("pool_name", name, "policy", policy),
    );
}

/// A configured duration of the queue.
pub fn log_isolate_queue_config(
    log: &mut MetricLog,
    name: &'static str,
    config_kind: &'static str,
    duration: Duration,
)
    ensures
        final(log)@ == old(log)@.push(
            update(
                MetricOperation::SetGauge,
                "isolate_queue_config_millis_info"@,
                MetricValue::Milliseconds(duration),
                seq![("pool_name"@, name@), ("config_kind"@, config_kind@)],
            ),
        ),
{
    log_update(
        log,
        MetricOperation::SetGauge,
        "isolate_queue_config_millis_info",
        MetricValue::Milliseconds(duration),
        two_labels("pool_name", name, "config_kind", config_kind),
    );
}

/// How long a stolen worker had been idle.
pub fn log_worker_stolen(log: &mut MetricLog, age: Duration)
    ensures
        final(log)@ == old(log)@.push(
            update(
                MetricOperation::RecordDistribution,
                "isolate_scheduler_stolen_worker_age_seconds"@,
                MetricValue::Seconds(age),
                Seq::empty(),
            ),
        ),
{
    log_update(
        log,
        MetricOperation::RecordDistribution,
        "isolate_scheduler_stolen_worker_age_seconds",
        MetricValue::Seconds(age),
        no_labels(),
    );
}

/// The size of the arguments of a function, in bytes.
pub fn log_argument_length(log: &mut MetricLog, args: &str)
    ensures
        final(log)@ == old(log)@.push(
            update(
                MetricOperation::RecordDistribution,
                "udf_isolate_arguments_bytes"@,
                MetricValue::Integer(args.len() as i128),
                Seq::empty(),
            ),
        ),
{
    log_update(
        log,
        MetricOperation::RecordDistribution,
        "udf_isolate_arguments_bytes",
        MetricValue::Integer(args.len() as i128),
        no_labels(),
    );
}

/// The size of the result of a function, in bytes.
pub fn log_result_length(log: &mut MetricLog, result: &str)
    ensures
        final(log)@ == old(log)@.push(
            update(
                MetricOperation::RecordDistribution,
                "udf_isolate_result_bytes"@,
                MetricValue::Integer(result.len() as i128),
                Seq::empty(),
            ),
        ),
{
    log_update(
        log,
        MetricOperation::RecordDistribution,
        "udf_isolate_result_bytes",
        MetricValue::Integer(result.len() as i128),
        no_labels(),
    );
}

/// Operations were still pending when a function resolved.
pub fn log_unawaited_pending_op(log: &mut MetricLog, count: usize, environment: &'static str)
    ensures
        final(log)@ == old(log)@.push(
            counter("udf_unawaited_op_total"@, count as int, seq![("environment"@, environment@)]),
        ),
{
    log_counter_with_labels(
        log,
        "udf_unawaited_op_total",
        count as u64,
        one_label("environment", environment),
    );
}

/// An error could not be mapped to its source.
pub fn log_source_map_failure(log: &mut MetricLog)
    ensures
        final(log)@ == old(log)@.push(counter("udf_source_map_failure_total"@, 1, Seq::empty())),
{
    log_counter_with_labels(log, "udf_source_map_failure_total", 1, no_labels());
}

/// A function ran into its user timeout.
pub fn log_user_timeout(log: &mut MetricLog)
    ensures
        final(log)@ == old(log)@.push(counter("udf_user_timeout_total"@, 1, Seq::empty())),
{
    log_counter_with_labels(log, "udf_user_timeout_total", 1, no_labels());
}

/// A function ran into its system timeout.
pub fn log_system_timeout(log: &mut MetricLog)
    ensures
        final(log)@ == old(log)@.push(counter("udf_system_timeout_total"@, 1, Seq::empty())),
{
    log_counter_with_labels(log, "udf_system_timeout_total", 1, no_labels());
}

/// An isolate hit the limit of its array buffers.
pub fn log_array_buffer_oom(log: &mut MetricLog)
    ensures
        final(log)@ == old(log)@.push(counter("array_buffer_oom_total"@, 1, Seq::empty())),
{
    log_counter_with_labels(log, "array_buffer_oom_total", 1, no_labels());
}

/// An execution ended because it was canceled.
pub fn log_isolate_request_cancelled(log: &mut MetricLog)
    ensures
        final(log)@ == old(log)@.push(counter("isolate_request_canceled_total"@, 1, Seq::empty())),
{
    log_counter_with_labels(log, "isolate_request_canceled_total", 1, no_labels());
}

/// A handler was added to a promise after its rejection.
pub fn log_promise_handler_added_after_reject(log: &mut MetricLog)
    ensures
        final(log)@ == old(log)@.push(
            counter("promise_handler_added_after_reject_total"@, 1, Seq::empty()),
        ),
{
    log_counter_with_labels(log, "promise_handler_added_after_reject_total", 1, no_labels());
}

/// A promise was rejected after it was resolved.
pub fn log_promise_rejected_after_resolved(log: &mut MetricLog)
    ensures
        final(log)@ == old(log)@.push(
            counter("promise_rejected_after_resolved_total"@, 1, Seq::empty()),
        ),
{
    log_counter_with_labels(log, "promise_rejected_after_resolved_total", 1, no_labels());
}

/// A promise was resolved after it was resolved.
pub fn log_promise_resolved_after_resolved(log: &mut MetricLog)
    ensures
        final(log)@ == old(log)@.push(
            counter("promise_resolved_after_resolved_total"@, 1, Seq::empty()),
        ),
{
    log_counter_with_labels(log, "promise_resolved_after_resolved_total", 1, no_labels());
}

/// A source map was missing during analysis.
pub fn log_source_map_missing(log: &mut MetricLog)
    ensures
        final(log)@ == old(log)@.push(counter("source_map_missing_total"@, 1, Seq::empty())),
{
    log_counter_with_labels(log, "source_map_missing_total", 1, no_labels());
}

/// A source map gave no valid token during analysis.
pub fn log_source_map_token_lookup_failed(log: &mut MetricLog)
    ensures
        final(log)@ == old(log)@.push(
            counter("source_map_token_lookup_failed_total"@, 1, Seq::empty()),
        ),
{
    log_counter_with_labels(log, "source_map_token_lookup_failed_total", 1, no_labels());
}

/// A function came from a separate module during analysis.
pub fn log_source_map_origin_in_separate_module(log: &mut MetricLog)
    ensures
        final(log)@ == old(log)@.push(
            counter("source_map_origin_in_separate_module_total"@, 1, Seq::empty()),
        ),
{
    log_counter_with_labels(log, "source_map_origin_in_separate_module_total", 1, no_labels());
}

/// An isolate ran out of memory.
pub fn log_isolate_out_of_memory(log: &mut MetricLog)
    ensures
        final(log)@ == old(log)@.push(counter("isolate_out_of_memory_total"@, 1, Seq::empty())),
{
    log_counter_with_labels(log, "isolate_out_of_memory_total", 1, no_labels());
}

/// An HTTP action was called with an unknown identity.
pub fn log_http_action_with_unknown_identity(log: &mut MetricLog)
    ensures
        final(log)@ == old(log)@.push(
            counter("http_action_with_unknown_identity_total"@, 1, Seq::empty()),
        ),
{
    log_counter_with_labels(log, "http_action_with_unknown_identity_total", 1, no_labels());
}

/// A registered function was called as a plain function.
pub fn log_direct_function_call(log: &mut MetricLog)
    ensures
        final(log)@ == old(log)@.push(
            counter("isolate_direct_function_call_total"@, 1, Seq::empty()),
        ),
{
    log_counter_with_labels(log, "isolate_direct_function_call_total", 1, no_labels());
}

/// An isolate was recreated.
pub fn log_recreate_isolate(log: &mut MetricLog, reason: &'static str)
    ensures
        final(log)@ == old(log)@.push(
            counter("recreate_isolate_total"@, 1, seq![("reason"@, reason@)]),
        ),
{
    log_counter_with_labels(log, "recreate_isolate_total", 1, one_label("reason", reason));
}

/// A function called a nested function.
pub fn log_run_udf(
    log: &mut MetricLog,
    outer_type: UdfType,
    inner_type: UdfType,
    outer_observed_identity: bool,
    inner_observed_identity: bool,
)
    ensures
        final(log)@ == old(log)@.push(
            counter(
                "run_udf_total"@,
                1,
                seq![
                    ("outer_type"@, outer_type.label()),
                    ("inner_type"@, inner_type.label()),
                    ("outer_observed_identity"@, bool_text(outer_observed_identity)),
                    ("inner_observed_identity"@, bool_text(inner_observed_identity)),
                ],
            ),
        ),
{
    log_counter_with_labels(
        log,
        "run_udf_total",
        1,
        four_labels(
            "outer_type",
            outer_type.to_lowercase_string(),
            "inner_type",
            inner_type.to_lowercase_string(),
            "outer_observed_identity",
            bool_label(outer_observed_identity),
            "inner_observed_identity",
            bool_label(inner_observed_identity),
        ),
    );
}

/// A component asked for the user identity.
pub fn log_component_get_user_identity(log: &mut MetricLog, has_user_identity: bool)
    ensures
        final(log)@ == old(log)@.push(
            counter(
                "component_get_user_identity_total"@,
                1,
                seq![("has_user_identity"@, bool_text(has_user_identity))],
            ),
        ),
{
    log_counter_with_labels(
        log,
        "component_get_user_identity_total",
        1,
        one_label("has_user_identity", bool_label(has_user_identity)),
    );
}

/// The time that the code of a function ran.
pub fn log_user_function_execution_time(
    log: &mut MetricLog,
    udf_type: UdfType,
    execution_time: Duration,
)
    ensures
        final(log)@ == old(log)@.push(
            update(
                MetricOperation::RecordDistribution,
                "user_function_execution_seconds"@,
                MetricValue::Seconds(execution_time),
                seq![("udf_type"@, udf_type.label())],
            ),
        ),
{
    log_update(
        log,
        MetricOperation::RecordDistribution,
        "user_function_execution_seconds",
        MetricValue::Seconds(execution_time),
        one_label("udf_type", udf_type.to_lowercase_string()),
    );
}

/// A database function entered the initialization of a reusable context.
pub fn log_reusable_context_init(log: &mut MetricLog, udf_type: UdfType, reused: bool)
    ensures
        final(log)@ == old(log)@.push(
            counter(
                "reusable_context_init_total"@,
                1,
                seq![("udf_type"@, udf_type.label()), ("reused"@, bool_text(reused))],
            ),
        ),
{
    log_counter_with_labels(
        log,
        "reusable_context_init_total",
        1,
        two_labels("udf_type", udf_type.to_lowercase_string(), "reused", bool_label(reused)),
    );
}

/// A context of a query or a mutation was looked up for reuse.
pub fn log_database_udf_context_reuse_lookup(
    log: &mut MetricLog,
    udf_type: UdfType,
    outcome: DatabaseUdfContextReuseLookupOutcome,
)
    requires
        udf_type == UdfType::Query || udf_type == UdfType::Mutation,
    ensures
        final(log)@ == old(log)@.push(
            counter(
                "database_udf_context_reuse_lookup_total"@,
                1,
                seq![("udf_type"@, udf_type.label()), ("outcome"@, outcome.label())],
            ),
        ),
{
    log_counter_with_labels(
        log,
        "database_udf_context_reuse_lookup_total",
        1,
        two_labels("udf_type", udf_type.to_lowercase_string(), "outcome", outcome.metric_label()),
    );
}

/// The context cache was used.
pub fn log_context_cache_operation(
    log: &mut MetricLog,
    context_kind: ReusableContextKind,
    operation: ContextCacheOperation,
)
    ensures
        final(log)@ == old(log)@.push(
            counter(
                "isolate_context_cache_operations_total"@,
                1,
                seq![("context_kind"@, context_kind.label()), ("operation"@, operation.label())],
            ),
        ),
{
    log_counter_with_labels(
        log,
        "isolate_context_cache_operations_total",
        1,
        two_labels("context_kind", context_kind.as_label(), "operation", operation.as_label()),
    );
}

/// A saved context was cleared.
pub fn log_context_cache_cleared(
    log: &mut MetricLog,
    context_kind: ReusableContextKind,
    reason: ContextCacheClearReason,
)
    ensures
        final(log)@ == old(log)@.push(
            counter(
                "isolate_context_cache_cleared_total"@,
                1,
                seq![("context_kind"@, context_kind.label()), ("reason"@, reason.label())],
            ),
        ),
{
    log_counter_with_labels(
        log,
        "isolate_context_cache_cleared_total",
        1,
        two_labels("context_kind", context_kind.as_label(), "reason", reason.as_label()),
    );
}

/// How many contexts own capacity of the pool.
pub fn log_context_cache_owned(log: &mut MetricLog, pool_name: &'static str, owned: usize)
    ensures
        final(log)@ == old(log)@.push(
            gauge(
                "isolate_context_cache_owned_info"@,
                owned as int,
                seq![("pool_name"@, pool_name@)],
            ),
        ),
{
    log_gauge_with_labels(
        log,
        "isolate_context_cache_owned_info",
        owned as u64,
        one_label("pool_name", pool_name),
    );
}

/// A context was saved.
pub fn log_context_cache_entry_added(log: &mut MetricLog, context_kind: ReusableContextKind)
    ensures
        final(log)@ == old(log)@.push(
            update(
                MetricOperation::AddToGauge,
                "isolate_context_cache_entries_info"@,
                MetricValue::Integer(1),
                seq![("context_kind"@, context_kind.label())],
            ),
        ),
{
    log_update(
        log,
        MetricOperation::AddToGauge,
        "isolate_context_cache_entries_info",
        MetricValue::Integer(1),
        one_label("context_kind", context_kind.as_label()),
    );
}

/// A saved context was removed.
pub fn log_context_cache_entry_removed(log: &mut MetricLog, context_kind: ReusableContextKind)
    ensures
        final(log)@ == old(log)@.push(
            update(
                MetricOperation::SubtractFromGauge,
                "isolate_context_cache_entries_info"@,
                MetricValue::Integer(1),
                seq![("context_kind"@, context_kind.label())],
            ),
        ),
{
    log_update(
        log,
        MetricOperation::SubtractFromGauge,
        "isolate_context_cache_entries_info",
        MetricValue::Integer(1),
        one_label("context_kind", context_kind.as_label()),
    );
}

/// Times the service of a request.
pub fn service_request_timer(udf_type: &UdfType) -> (timer: MetricTimer)
    ensures
        timer@ == (TimerView {
            kind: TimerKind::Status,
            family: "udf_service_request_seconds"@,
            labels: seq![("udf_type"@, udf_type.label())],
        }),
{
    MetricTimer {
        kind: TimerKind::Status,
        family: "udf_service_request_seconds",
        labels: one_label("udf_type", udf_type.to_lowercase_string()),
    }
}

/// Times the wait in the queue.
pub fn queue_timer() -> (timer: MetricTimer)
    ensures
        timer@ == (TimerView {
            kind: TimerKind::Plain,
            family: "udf_queue_seconds"@,
            labels: Seq::empty(),
        }),
{
    MetricTimer { kind: TimerKind::Plain, family: "udf_queue_seconds", labels: no_labels() }
}

/// Times the building of a context.
pub fn context_build_timer() -> (timer: MetricTimer)
    ensures
        timer@ == (TimerView {
            kind: TimerKind::Status,
            family: "udf_isolate_build_seconds"@,
            labels: Seq::empty(),
        }),
{
    MetricTimer {
        kind: TimerKind::Status,
        family: "udf_isolate_build_seconds",
        labels: no_labels(),
    }
}

/// Times the loading of all modules of a request.
pub fn eval_user_module_timer(udf_type: UdfType, is_dynamic: bool) -> (timer: MetricTimer)
    ensures
        timer@ == (TimerView {
            kind: TimerKind::Status,
            family: "udf_isolate_load_user_modules_seconds"@,
            labels: seq![("udf_type"@, udf_type.label()), ("is_dynamic"@, bool_text(is_dynamic))],
        }),
{
    MetricTimer {
        kind: TimerKind::Status,
        family: "udf_isolate_load_user_modules_seconds",
        labels: two_labels(
            "udf_type",
            udf_type.to_lowercase_string(),
            "is_dynamic",
            bool_label(is_dynamic),
        ),
    }
}

/// Times the loading of a module's source.
pub fn lookup_source_timer(is_system: bool) -> (timer: MetricTimer)
    ensures
        timer@ == (TimerView {
            kind: TimerKind::Status,
            family: "udf_isolate_lookup_source_seconds"@,
            labels: seq![("is_system"@, bool_text(is_system))],
        }),
{
    MetricTimer {
        kind: TimerKind::Status,
        family: "udf_isolate_lookup_source_seconds",
        labels: one_label("is_system", bool_label(is_system)),
    }
}

/// Times the compilation of a module's source.
pub fn compile_module_timer(cached: bool) -> (timer: MetricTimer)
    ensures
        timer@ == (TimerView {
            kind: TimerKind::Status,
            family: "udf_isolate_compile_module_seconds"@,
            labels: seq![("cached"@, bool_text(cached))],
        }),
{
    MetricTimer {
        kind: TimerKind::Status,
        family: "udf_isolate_compile_module_seconds",
        labels: one_label("cached", bool_label(cached)),
    }
}

/// Times the instantiation of the top-level module.
pub fn instantiate_module_timer() -> (timer: MetricTimer)
    ensures
        timer@ == (TimerView {
            kind: TimerKind::Status,
            family: "udf_isolate_instantiate_module_seconds"@,
            labels: Seq::empty(),
        }),
{
    MetricTimer {
        kind: TimerKind::Status,
        family: "udf_isolate_instantiate_module_seconds",
        labels: no_labels(),
    }
}

/// Times the evaluation of the top-level module.
pub fn evaluate_module_timer() -> (timer: MetricTimer)
    ensures
        timer@ == (TimerView {
            kind: TimerKind::Status,
            family: "udf_isolate_evaluate_module_seconds"@,
            labels: Seq::empty(),
        }),
{
    MetricTimer {
        kind: TimerKind::Status,
        family: "udf_isolate_evaluate_module_seconds",
        labels: no_labels(),
    }
}

/// Times an operation of a function.
pub fn op_timer(op_name: &str) -> (timer: MetricTimer)
    ensures
        timer@ == (TimerView {
            kind: TimerKind::Status,
            family: "udf_op_seconds"@,
            labels: seq![("op"@, op_name@)],
        }),
{
    MetricTimer {
        kind: TimerKind::Status,
        family: "udf_op_seconds",
        labels: one_label("op", op_name),
    }
}

/// Times a system call of a function.
pub fn syscall_timer(op_name: &str) -> (timer: MetricTimer)
    ensures
        timer@ == (TimerView {
            kind: TimerKind::Status,
            family: "udf_syscall_seconds"@,
            labels: seq![("syscall"@, op_name@)],
        }),
{
    MetricTimer {
        kind: TimerKind::Status,
        family: "udf_syscall_seconds",
        labels: one_label("syscall", op_name),
    }
}

/// Times an asynchronous system call of a function.
pub fn async_syscall_timer(op_name: &str) -> (timer: MetricTimer)
    ensures
        timer@ == (TimerView {
            kind: TimerKind::Status,
            family: "udf_async_syscall_seconds"@,
            labels: seq![("syscall"@, op_name@)],
        }),
{
    MetricTimer {
        kind: TimerKind::Status,
        family: "udf_async_syscall_seconds",
        labels: one_label("syscall", op_name),
    }
}

/// Times a fetch of a function.
pub fn udf_fetch_timer() -> (timer: MetricTimer)
    ensures
        timer@ == (TimerView {
            kind: TimerKind::Status,
            family: "udf_fetch_seconds"@,
            labels: Seq::empty(),
        }),
{
    MetricTimer { kind: TimerKind::Status, family: "udf_fetch_seconds", labels: no_labels() }
}

/// Times the creation of an isolate.
pub fn create_isolate_timer() -> (timer: MetricTimer)
    ensures
        timer@ == (TimerView {
            kind: TimerKind::Plain,
            family: "create_isolate_seconds"@,
            labels: Seq::empty(),
        }),
{
    MetricTimer { kind: TimerKind::Plain, family: "create_isolate_seconds", labels: no_labels() }
}

/// Times the destruction of an isolate.
pub fn destroy_isolate_timer() -> (timer: MetricTimer)
    ensures
        timer@ == (TimerView {
            kind: TimerKind::Plain,
            family: "destroy_isolate_seconds"@,
            labels: Seq::empty(),
        }),
{
    MetricTimer { kind: TimerKind::Plain, family: "destroy_isolate_seconds", labels: no_labels() }
}

/// Times the creation of a context.
pub fn create_context_timer() -> (timer: MetricTimer)
    ensures
        timer@ == (TimerView {
            kind: TimerKind::Plain,
            family: "create_context_seconds"@,
            labels: Seq::empty(),
        }),
{
    MetricTimer { kind: TimerKind::Plain, family: "create_context_seconds", labels: no_labels() }
}

/// Times the creation of a code cache.
pub fn create_code_cache_timer() -> (timer: MetricTimer)
    ensures
        timer@ == (TimerView {
            kind: TimerKind::Status,
            family: "create_code_cache_seconds"@,
            labels: Seq::empty(),
        }),
{
    MetricTimer {
        kind: TimerKind::Status,
        family: "create_code_cache_seconds",
        labels: no_labels(),
    }
}

/// Times the wait for a concurrency permit.
pub fn concurrency_permit_acquire_timer() -> (timer: MetricTimer)
    ensures
        timer@ == (TimerView {
            kind: TimerKind::Cancelable,
            family: "concurrency_permit_acquire_seconds"@,
            labels: Seq::empty(),
        }),
{
    MetricTimer {
        kind: TimerKind::Cancelable,
        family: "concurrency_permit_acquire_seconds",
        labels: no_labels(),
    }
}

/// A version as a label shows it.
pub open spec fn version_text(version: Option<&str>) -> Seq<char> {
    match version {
        Some(version) => version@,
        None => "none"@,
    }
}

/// Times the execution of a function, with the version of the client package where it is known.
pub fn execute_timer(udf_type: &UdfType, npm_version: Option<&str>) -> (timer: MetricTimer)
    ensures
        timer@ == (TimerView {
            kind: TimerKind::Status,
            family: "udf_execute_seconds"@,
            labels: seq![
                ("udf_type"@, udf_type.label()),
                ("npm_version"@, version_text(npm_version)),
            ],
        }),
{
    let version = match npm_version {
        Some(version) => version,
        None => "none",
    };
    MetricTimer {
        kind: TimerKind::Status,
        family: "udf_execute_seconds",
        labels: two_labels("udf_type", udf_type.to_lowercase_string(), "npm_version", version),
    }
}

/// How a request was served.
#[derive(Clone, Copy, Debug, PartialEq, Eq, Structural)]
pub enum RequestStatus {
    Success,
    DeveloperError,
    SystemError,
}

/// How the timer of a served request ends: a system error leaves it unfinished.
pub fn finish_service_request_timer(status: RequestStatus) -> (end: TimerEnd)
    ensures
        end == (match status {
            RequestStatus::Success => TimerEnd::Finished,
            RequestStatus::DeveloperError => TimerEnd::FinishedWithDeveloperError,
            RequestStatus::SystemError => TimerEnd::Dropped,
        }),
{
    match status {
        RequestStatus::Success => TimerEnd::Finished,
        RequestStatus::DeveloperError => TimerEnd::FinishedWithDeveloperError,
        RequestStatus::SystemError => TimerEnd::Dropped,
    }
}

/// Counts a fetch, with the bytes of one that succeeded, and says how its timer ends.
pub fn finish_udf_fetch_timer(log: &mut MetricLog, success: Result<usize, ()>) -> (end: TimerEnd)
    ensures
        match success {
            Ok(size) => {
                &&& end == TimerEnd::Finished
                &&& final(log)@ == old(log)@.push(
                    counter("udf_fetch_bytes_total"@, size as int, Seq::empty()),
                ).push(counter("udf_fetch_total"@, 1, seq![("status"@, "success"@)]))
            },
            Err(_) => {
                &&& end == TimerEnd::Dropped
                &&& final(log)@ == old(log)@.push(
                    counter("udf_fetch_total"@, 1, seq![("status"@, "error"@)]),
                )
            },
        },
{
    match success {
        Ok(size) => {
            log_counter(log, "udf_fetch_bytes_total", size as u64);
            log_counter_with_labels(log, "udf_fetch_total", 1, one_label("status", "success"));
            TimerEnd::Finished
        },
        Err(_) => {
            log_counter_with_labels(log, "udf_fetch_total", 1, one_label("status", "error"));
            TimerEnd::Dropped
        },
    }
}

/// Counts the milliseconds that a client held a concurrency permit, if there were any.
pub fn log_concurrency_permit_used(log: &mut MetricLog, client_id: &str, duration: Duration)
    requires
        duration@ / 1_000_000 <= u64::MAX,
    ensures
        final(log)@ == (if duration@ >= 1_000_000 {
            old(log)@.push(
                counter(
                    "concurrency_permit_total_hold_time_seconds"@,
                    (duration@ / 1_000_000) as int,
                    seq![("client_id"@, client_id@)],
                ),
            )
        } else {
            old(log)@
        }),
{
    let millis: u64 = duration.as_millis() as u64;
    if millis > 0 {
        log_counter_with_labels(
            log,
            "concurrency_permit_total_hold_time_seconds",
            millis,
            one_label("client_id", client_id),
        );
    }
}

/// The link that the warning about a direct function call holds.
pub open spec fn direct_call_link() -> Seq<char> {
    "https://docs.convex.dev/production/best-practices/#use-helper-functions-to-write-shared-code"@
}

/// Counts a direct function call where a log line warns of one.
pub fn log_log_line(log: &mut MetricLog, line: &str)
    ensures
        final(log)@ == (if occurs(line@, direct_call_link()) {
            old(log)@.push(counter("isolate_direct_function_call_total"@, 1, Seq::empty()))
        } else {
            old(log)@
        }),
{
    if contains(
        line,
        "https://docs.convex.dev/production/best-practices/#use-helper-functions-to-write-shared-code",
    ) {
        log_direct_function_call(log);
    }
}

/// What an isolate reports of its heap.
#[derive(Clone, Copy, Debug, PartialEq, Eq, Structural)]
pub struct HeapStatistics {
    pub used_heap_size: usize,
    pub heap_size_limit: usize,
    pub total_available_size: usize,
    pub total_heap_size: usize,
    pub total_heap_size_executable: usize,
    pub external_memory: usize,
    pub total_physical_size: usize,
    pub malloced_memory: usize,
    pub peak_malloced_memory: usize,
    pub total_global_handles_size: usize,
    pub number_of_native_contexts: usize,
    pub number_of_detached_contexts: usize,
}

/// The update that records a size.
pub open spec fn size_recorded(family: Seq<char>, size: usize) -> UpdateView {
    update(
        MetricOperation::RecordDistribution,
        family,
        MetricValue::Integer(size as i128),
        Seq::empty(),
    )
}

fn record_size(log: &mut MetricLog, family: &'static str, size: usize)
    ensures
        final(log)@ == old(log)@.push(size_recorded(family@, size)),
{
    log_update(
        log,
        MetricOperation::RecordDistribution,
        family,
        MetricValue::Integer(size as i128),
        no_labels(),
    );
}

/// The updates that record the heap of an isolate.
pub open spec fn heap_updates(stats: HeapStatistics) -> Seq<UpdateView> {
    seq![
        size_recorded("isolate_used_heap_size_bytes"@, stats.used_heap_size),
        size_recorded("isolate_heap_size_limit_bytes"@, stats.heap_size_limit),
        size_recorded("isolate_available_size_bytes"@, stats.total_available_size),
        size_recorded("isolate_heap_size_bytes"@, stats.total_heap_size),
        size_recorded("isolate_heap_size_executable_bytes"@, stats.total_heap_size_executable),
        size_recorded("isolate_external_memory_bytes"@, stats.external_memory),
        size_recorded("isolate_physical_size_bytes"@, stats.total_physical_size),
        size_recorded("isolate_malloced_memory_bytes"@, stats.malloced_memory),
        size_recorded("isolate_peak_malloced_memory_bytes"@, stats.peak_malloced_memory),
        size_recorded("isolate_global_handles_size_bytes"@, stats.total_global_handles_size),
        size_recorded("isolate_native_context_total"@, stats.number_of_native_contexts),
        size_recorded("isolate_detached_context_total"@, stats.number_of_detached_contexts),
    ]
}

/// Records the heap of an isolate, before a context is built in it, to find leaks.
pub fn log_heap_statistics(log: &mut MetricLog, stats: &HeapStatistics)
    ensures
        final(log)@ == old(log)@ + heap_updates(*stats),
{
    record_size(log, "isolate_used_heap_size_bytes", stats.used_heap_size);
    record_size(log, "isolate_heap_size_limit_bytes", stats.heap_size_limit);
    record_size(log, "isolate_available_size_bytes", stats.total_available_size);
    record_size(log, "isolate_heap_size_bytes", stats.total_heap_size);
    record_size(log, "isolate_heap_size_executable_bytes", stats.total_heap_size_executable);
    record_size(log, "isolate_external_memory_bytes", stats.external_memory);
    record_size(log, "isolate_physical_size_bytes", stats.total_physical_size);
    record_size(log, "isolate_malloced_memory_bytes", stats.malloced_memory);
    record_size(log, "isolate_peak_malloced_memory_bytes", stats.peak_malloced_memory);
    record_size(log, "isolate_global_handles_size_bytes", stats.total_global_handles_size);
    record_size(log, "isolate_native_context_total", stats.number_of_native_contexts);
    record_size(log, "isolate_detached_context_total", stats.number_of_detached_contexts);
    assert(log@ =~= old(log)@ + heap_updates(*stats));
}

/// The heaps of isolates, added up.
#[derive(Clone, Copy, Debug, PartialEq, Eq, Structural)]
pub struct IsolateHeapStats {
    pub v8_used_heap_size: usize,
    pub v8_total_heap_size: usize,
    pub v8_total_heap_size_executable: usize,
    pub v8_external_memory_bytes: usize,
    pub v8_total_physical_size: usize,
    pub v8_malloced_memory: usize,
    pub array_buffer_size: usize,
}

/// The updates that show the heaps of all isolates.
pub open spec fn aggregated_heap_updates(stats: IsolateHeapStats) -> Seq<UpdateView> {
    seq![
        gauge("isolate_total_used_heap_size_bytes"@, stats.v8_used_heap_size as int, Seq::empty()),
        gauge("isolate_total_heap_size_bytes"@, stats.v8_total_heap_size as int, Seq::empty()),
        gauge(
            "isolate_total_heap_size_executable_bytes"@,
            stats.v8_total_heap_size_executable as int,
            Seq::empty(),
        ),
        gauge(
            "isolate_total_external_memory_bytes"@,
            stats.v8_external_memory_bytes as int,
            Seq::empty(),
        ),
        gauge(
            "isolate_total_physical_size_bytes"@,
            stats.v8_total_physical_size as int,
            Seq::empty(),
        ),
        gauge(
            "isolate_total_malloced_memory_bytes"@,
            stats.v8_malloced_memory as int,
            Seq::empty(),
        ),
        gauge(
            "isolate_total_array_buffer_memory_bytes"@,
            stats.array_buffer_size as int,
            Seq::empty(),
        ),
    ]
}

/// Shows the heaps of all isolates.
pub fn log_aggregated_heap_stats(log: &mut MetricLog, stats: &IsolateHeapStats)
    ensures
        final(log)@ == old(log)@ + aggregated_heap_updates(*stats),
{
    log_gauge(log, "isolate_total_used_heap_size_bytes", stats.v8_used_heap_size as u64);
    log_gauge(log, "isolate_total_heap_size_bytes", stats.v8_total_heap_size as u64);
    log_gauge(
        log,
        "isolate_total_heap_size_executable_bytes",
        stats.v8_total_heap_size_executable as u64,
    );
    log_gauge(log, "isolate_total_external_memory_bytes", stats.v8_external_memory_bytes as u64);
    log_gauge(log, "isolate_total_physical_size_bytes", stats.v8_total_physical_size as u64);
    log_gauge(log, "isolate_total_malloced_memory_bytes", stats.v8_malloced_memory as u64);
    log_gauge(log, "isolate_total_array_buffer_memory_bytes", stats.array_buffer_size as u64);
    assert(log@ =~= old(log)@ + aggregated_heap_updates(*stats));
}

/// The counters of a request class, at zero.
pub open spec fn class_counters(name: Seq<char>, class: Seq<char>) -> Seq<UpdateView> {
    let family = "isolate_scheduler_requests_rejected_total"@;
    seq![
        counter("isolate_scheduler_requests_expired_total"@, 0, class_labels(name, class)),
        counter(
            family,
            0,
            seq![("pool_name"@, name), ("scheduler_class"@, class), ("reason"@, "queue_full"@)],
        ),
        counter(
            family,
            0,
            seq![("pool_name"@, name), ("scheduler_class"@, class), ("reason"@, "lane_full"@)],
        ),
        counter(
            family,
            0,
            seq![
                ("pool_name"@, name),
                ("scheduler_class"@, class),
                ("reason"@, "scheduler_closed"@),
            ],
        ),
        counter(
            family,
            0,
            seq![
                ("pool_name"@, name),
                ("scheduler_class"@, class),
                ("reason"@, "delay_control_shed"@),
            ],
        ),
        counter(
            family,
            0,
            seq![("pool_name"@, name), ("scheduler_class"@, class), ("reason"@, "caller_dropped"@)],
        ),
        counter(
            family,
            0,
            seq![("pool_name"@, name), ("scheduler_class"@, class), ("reason"@, "no_worker"@)],
        ),
    ]
}

/// The counters of a lane of the queue, at zero.
pub open spec fn lane_counters(name: Seq<char>, lane: Seq<char>) -> Seq<UpdateView> {
    let rejections = "isolate_queue_rejections_total"@;
    let transitions = "isolate_queue_overload_transitions_total"@;
    seq![
        counter(
            rejections,
            0,
            seq![("pool_name"@, name), ("lane"@, lane), ("reason"@, "queue_full"@)],
        ),
        counter(
            rejections,
            0,
            seq![("pool_name"@, name), ("lane"@, lane), ("reason"@, "lane_full"@)],
        ),
        counter(
            rejections,
            0,
            seq![("pool_name"@, name), ("lane"@, lane), ("reason"@, "scheduler_closed"@)],
        ),
        counter(
            rejections,
            0,
            seq![("pool_name"@, name), ("lane"@, lane), ("reason"@, "hard_expired"@)],
        ),
        counter(
            rejections,
            0,
            seq![("pool_name"@, name), ("lane"@, lane), ("reason"@, "delay_control_shed"@)],
        ),
        counter(
            rejections,
            0,
            seq![("pool_name"@, name), ("lane"@, lane), ("reason"@, "caller_dropped"@)],
        ),
        counter(
            transitions,
            0,
            seq![("pool_name"@, name), ("lane"@, lane), ("transition"@, "entered"@)],
        ),
        counter(
            transitions,
            0,
            seq![("pool_name"@, name), ("lane"@, lane), ("transition"@, "cleared"@)],
        ),
    ]
}

/// All counters of capacity of a pool, at zero.
pub open spec fn capacity_counters(name: Seq<char>) -> Seq<UpdateView> {
    class_counters(name, "independent"@) + class_counters(name, "descendant_holder"@)
        + class_counters(name, "dependency"@) + class_counters(
        name,
        "dependency_descendant_holder"@,
    ) + class_counters(name, "control_plane"@) + lane_counters(name, "dependency"@) + lane_counters(
        name,
        "control_plane"@,
    ) + lane_counters(name, "independent_action"@) + lane_counters(name, "ordinary"@) + seq![
        counter("udf_execute_full_total"@, 0, Seq::empty()),
    ]
}

fn initialize_class_counters(log: &mut MetricLog, name: &'static str, class: &'static str)
    ensures
        final(log)@ == old(log)@ + class_counters(name@, class@),
{
    log_counter_with_labels(
        log,
        "isolate_scheduler_requests_expired_total",
        0,
        two_labels("pool_name", name, "scheduler_class", class),
    );
    let family = "isolate_scheduler_requests_rejected_total";
    log_counter_with_labels(
        log,
        family,
        0,
        three_labels("pool_name", name, "scheduler_class", class, "reason", "queue_full"),
    );
    log_counter_with_labels(
        log,
        family,
        0,
        three_labels("pool_name", name, "scheduler_class", class, "reason", "lane_full"),
    );
    log_counter_with_labels(
        log,
        family,
        0,
        three_labels("pool_name", name, "scheduler_class", class, "reason", "scheduler_closed"),
    );
    log_counter_with_labels(
        log,
        family,
        0,
        three_labels("pool_name", name, "scheduler_class", class, "reason", "delay_control_shed"),
    );
    log_counter_with_labels(
        log,
        family,
        0,
        three_labels("pool_name", name, "scheduler_class", class, "reason", "caller_dropped"),
    );
    log_counter_with_labels(
        log,
        family,
        0,
        three_labels("pool_name", name, "scheduler_class", class, "reason", "no_worker"),
    );
    assert(log@ =~= old(log)@ + class_counters(name@, class@));
}

fn initialize_lane_counters(log: &mut MetricLog, name: &'static str, lane: &'static str)
    ensures
        final(log)@ == old(log)@ + lane_counters(name@, lane@),
{
    let rejections = "isolate_queue_rejections_total";
    let transitions = "isolate_queue_overload_transitions_total";
    log_counter_with_labels(
        log,
        rejections,
        0,
        three_labels("pool_name", name, "lane", lane, "reason", "queue_full"),
    );
    log_counter_with_labels(
        log,
        rejections,
        0,
        three_labels("pool_name", name, "lane", lane, "reason", "lane_full"),
    );
    log_counter_with_labels(
        log,
        rejections,
        0,
        three_labels("pool_name", name, "lane", lane, "reason", "scheduler_closed"),
    );
    log_counter_with_labels(
        log,
        rejections,
        0,
        three_labels("pool_name", name, "lane", lane, "reason", "hard_expired"),
    );
    log_counter_with_labels(
        log,
        rejections,
        0,
        three_labels("pool_name", name, "lane", lane, "reason", "delay_control_shed"),
    );
    log_counter_with_labels(
        log,
        rejections,
        0,
        three_labels("pool_name", name, "lane", lane, "reason", "caller_dropped"),
    );
    log_counter_with_labels(
        log,
        transitions,
        0,
        three_labels("pool_name", name, "lane", lane, "transition", "entered"),
    );
    log_counter_with_labels(
        log,
        transitions,
        0,
        three_labels("pool_name", name, "lane", lane, "transition", "cleared"),
    );
    assert(log@ =~= old(log)@ + lane_counters(name@, lane@));
}

/// Makes all counters of capacity of a pool appear at zero.
pub fn initialize_capacity_counters(log: &mut MetricLog, name: &'static str)
    ensures
        final(log)@ == old(log)@ + capacity_counters(name@),
{
    initialize_class_counters(log, name, "independent");
    initialize_class_counters(log, name, "descendant_holder");
    initialize_class_counters(log, name, "dependency");
    initialize_class_counters(log, name, "dependency_descendant_holder");
    initialize_class_counters(log, name, "control_plane");
    initialize_lane_counters(log, name, "dependency");
    initialize_lane_counters(log, name, "control_plane");
    initialize_lane_counters(log, name, "independent_action");
    initialize_lane_counters(log, name, "ordinary");
    log_counter(log, "udf_execute_full_total", 0);
    assert(log@ =~= old(log)@ + capacity_counters(name@));
}

/// What is said when no worker is free.
pub const NO_AVAILABLE_WORKERS: &'static str =
    "There are no available workers to process the request";

/// Why a request was rejected before it was executed.
#[derive(Clone, Copy, Debug, PartialEq, Eq, Structural)]
pub enum RejectedBeforeExecutionReason {
    ExpiredInQueue,
    PerClientWorkerOverloaded,
    WorkerPoolOverloaded,
    IsolateNotClean,
    InitialPermitTimeout,
    ExecuteQueueFull,
}

/// An error that a client may retry: a short code and a message.
#[derive(Clone, Copy, Debug)]
pub struct RejectionError {
    pub short_msg: &'static str,
    pub msg: &'static str,
}

/// What a `RejectionError` says.
pub open spec fn rejection_texts(error: RejectionError) -> (Seq<char>, Seq<char>) {
    (error.short_msg@, error.msg@)
}

impl RejectedBeforeExecutionReason {
    pub open spec fn label(self) -> Seq<char> {
        match self {
            RejectedBeforeExecutionReason::ExpiredInQueue => "expired_in_queue"@,
            RejectedBeforeExecutionReason::PerClientWorkerOverloaded =>
                "per_client_worker_overloaded"@,
            RejectedBeforeExecutionReason::WorkerPoolOverloaded => "worker_pool_overloaded"@,
            RejectedBeforeExecutionReason::IsolateNotClean => "isolate_not_clean"@,
            RejectedBeforeExecutionReason::InitialPermitTimeout => "initial_permit_timeout"@,
            RejectedBeforeExecutionReason::ExecuteQueueFull => "execute_queue_full"@,
        }
    }

    pub fn as_label(self) -> (label: &'static str)
        ensures
            label@ == self.label(),
    {
        match self {
            RejectedBeforeExecutionReason::ExpiredInQueue => "expired_in_queue",
            RejectedBeforeExecutionReason::PerClientWorkerOverloaded =>
                "per_client_worker_overloaded",
            RejectedBeforeExecutionReason::WorkerPoolOverloaded => "worker_pool_overloaded",
            RejectedBeforeExecutionReason::IsolateNotClean => "isolate_not_clean",
            RejectedBeforeExecutionReason::InitialPermitTimeout => "initial_permit_timeout",
            RejectedBeforeExecutionReason::ExecuteQueueFull => "execute_queue_full",
        }
    }

    /// The code and the message of the error.
    pub open spec fn error(self) -> (Seq<char>, Seq<char>) {
        match self {
            RejectedBeforeExecutionReason::ExpiredInQueue => (
                "ExpiredInQueue"@,
                "Too many concurrent requests in a short period of time. Spread out your requests out over time or throttle them to avoid errors."@,
            ),
            RejectedBeforeExecutionReason::PerClientWorkerOverloaded => (
                "WorkerOverloaded"@,
                "There are no available workers to process the request"@,
            ),
            RejectedBeforeExecutionReason::WorkerPoolOverloaded => (
                "WorkerOverloaded"@,
                "There are no available workers to process the request"@,
            ),
            RejectedBeforeExecutionReason::IsolateNotClean => (
                "IsolateNotClean"@,
                "Selected isolate was not clean"@,
            ),
            RejectedBeforeExecutionReason::InitialPermitTimeout => (
                "InitialPermitTimeoutError"@,
                "Couldn't acquire a permit on this funrun"@,
            ),
            RejectedBeforeExecutionReason::ExecuteQueueFull => (
                "ExecuteFullError"@,
                "Too many concurrent requests in a short period of time. Spread out your requests out over time or throttle them to avoid errors."@,
            ),
        }
    }

    pub fn error_metadata(self) -> (error: RejectionError)
        ensures
            rejection_texts(error) == self.error(),
    {
        match self {
            RejectedBeforeExecutionReason::ExpiredInQueue => RejectionError {
                short_msg: "ExpiredInQueue",
                msg: "Too many concurrent requests in a short period of time. Spread out your requests out over time or throttle them to avoid errors.",
            },
            RejectedBeforeExecutionReason::PerClientWorkerOverloaded => RejectionError {
                short_msg: "WorkerOverloaded",
                msg: NO_AVAILABLE_WORKERS,
            },
            RejectedBeforeExecutionReason::WorkerPoolOverloaded => RejectionError {
                short_msg: "WorkerOverloaded",
                msg: NO_AVAILABLE_WORKERS,
            },
            RejectedBeforeExecutionReason::IsolateNotClean => RejectionError {
                short_msg: "IsolateNotClean",
                msg: "Selected isolate was not clean",
            },
            RejectedBeforeExecutionReason::InitialPermitTimeout => RejectionError {
                short_msg: "InitialPermitTimeoutError",
                msg: "Couldn't acquire a permit on this funrun",
            },
            RejectedBeforeExecutionReason::ExecuteQueueFull => RejectionError {
                short_msg: "ExecuteFullError",
                msg: "Too many concurrent requests in a short period of time. Spread out your requests out over time or throttle them to avoid errors.",
            },
        }
    }
}

/// The update that counts a rejection before execution.
pub open spec fn rejection_counted(reason: RejectedBeforeExecutionReason) -> UpdateView {
    counter(
        "udf_rejected_before_execution_total"@,
        1,
        seq![("reason"@, reason.label())],
    )
}

/// Counts a rejection before execution, and gives its error.
pub fn rejected_before_execution_error(
    log: &mut MetricLog,
    reason: RejectedBeforeExecutionReason,
) -> (error: RejectionError)
    ensures
        rejection_texts(error) == reason.error(),
        final(log)@ == old(log)@.push(rejection_counted(reason)),
{
    log_counter_with_labels(
        log,
        "udf_rejected_before_execution_total",
        1,
        one_label("reason", reason.as_label()),
    );
    reason.error_metadata()
}

/// Counts a request that found the queue full, and gives its error.
pub fn execute_full_error(log: &mut MetricLog) -> (error: RejectionError)
    ensures
        rejection_texts(error) == RejectedBeforeExecutionReason::ExecuteQueueFull.error(),
        final(log)@ == old(log)@.push(counter("udf_execute_full_total"@, 1, Seq::empty())).push(
            rejection_counted(RejectedBeforeExecutionReason::ExecuteQueueFull),
        ),
{
    log_counter(log, "udf_execute_full_total", 1);
    rejected_before_execution_error(log, RejectedBeforeExecutionReason::ExecuteQueueFull)
}

/// The labels of a kind of control-plane requests of a pool.
pub open spec fn request_kind_labels(pool_name: Seq<char>, request_kind: Seq<char>) -> Seq<
    (Seq<char>, Seq<char>),
> {
    seq![("pool_name"@, pool_name), ("request_kind"@, request_kind)]
}

/// The metrics of a kind of control-plane requests, at zero.
pub open spec fn request_kind_at_zero(pool_name: Seq<char>, request_kind: Seq<char>) -> Seq<
    UpdateView,
> {
    let labels = request_kind_labels(pool_name, request_kind);
    seq![
        counter("isolate_control_plane_requests_total"@, 0, labels),
        gauge("isolate_control_plane_requests_in_flight_info"@, 0, labels),
    ]
}

fn initialize_request_kind(
    log: &mut MetricLog,
    pool_name: &'static str,
    request_kind: &'static str,
)
    ensures
        final(log)@ == old(log)@ + request_kind_at_zero(pool_name@, request_kind@),
{
    log_counter_with_labels(
        log,
        "isolate_control_plane_requests_total",
        0,
        two_labels("pool_name", pool_name, "request_kind", request_kind),
    );
    log_gauge_with_labels(
        log,
        "isolate_control_plane_requests_in_flight_info",
        0,
        two_labels("pool_name", pool_name, "request_kind", request_kind),
    );
    assert(log@ =~= old(log)@ + request_kind_at_zero(pool_name@, request_kind@));
}

/// Makes the metrics of all kinds of control-plane requests appear at zero.
pub fn initialize_control_plane_request_metrics(log: &mut MetricLog, pool_name: &'static str)
    ensures
        final(log)@ == old(log)@ + (request_kind_at_zero(pool_name@, "analyze"@)
            + request_kind_at_zero(pool_name@, "evaluate_schema"@) + request_kind_at_zero(
            pool_name@,
            "evaluate_auth_config"@,
        ) + request_kind_at_zero(pool_name@, "evaluate_app_definitions"@) + request_kind_at_zero(
            pool_name@,
            "evaluate_component_initializer"@,
        )),
{
    initialize_request_kind(log, pool_name, "analyze");
    initialize_request_kind(log, pool_name, "evaluate_schema");
    initialize_request_kind(log, pool_name, "evaluate_auth_config");
    initialize_request_kind(log, pool_name, "evaluate_app_definitions");
    initialize_request_kind(log, pool_name, "evaluate_component_initializer");
    assert(log@ =~= old(log)@ + (request_kind_at_zero(pool_name@, "analyze"@)
        + request_kind_at_zero(pool_name@, "evaluate_schema"@) + request_kind_at_zero(
        pool_name@,
        "evaluate_auth_config"@,
    ) + request_kind_at_zero(pool_name@, "evaluate_app_definitions"@) + request_kind_at_zero(
        pool_name@,
        "evaluate_component_initializer"@,
    )));
}

/// A control-plane request in flight.
#[derive(Clone, Copy, Debug)]
pub struct ControlPlaneRequestGuard {
    pub pool_name: &'static str,
    pub request_kind: &'static str,
}

/// The update that moves the number of control-plane requests in flight.
pub open spec fn in_flight_moved(
    operation: MetricOperation,
    pool_name: Seq<char>,
    request_kind: Seq<char>,
) -> UpdateView {
    update(
        operation,
        "isolate_control_plane_requests_in_flight_info"@,
        MetricValue::Integer(1),
        request_kind_labels(pool_name, request_kind),
    )
}

impl ControlPlaneRequestGuard {
    /// Counts a control-plane request that starts.
    pub fn new(log: &mut MetricLog, pool_name: &'static str, request_kind: &'static str) -> (guard:
        ControlPlaneRequestGuard)
        ensures
            guard.pool_name@ == pool_name@,
            guard.request_kind@ == request_kind@,
            final(log)@ == old(log)@.push(
                counter(
                    "isolate_control_plane_requests_total"@,
                    1,
                    request_kind_labels(pool_name@, request_kind@),
                ),
            ).push(in_flight_moved(MetricOperation::AddToGauge, pool_name@, request_kind@)),
    {
        log_counter_with_labels(
            log,
            "isolate_control_plane_requests_total",
            1,
            two_labels("pool_name", pool_name, "request_kind", request_kind),
        );
        log_update(
            log,
            MetricOperation::AddToGauge,
            "isolate_control_plane_requests_in_flight_info",
            MetricValue::Integer(1),
            two_labels("pool_name", pool_name, "request_kind", request_kind),
        );
        ControlPlaneRequestGuard { pool_name, request_kind }
    }

    /// Counts a control-plane request that is over.
    pub fn finish(self, log: &mut MetricLog)
        ensures
            final(log)@ == old(log)@.push(
                in_flight_moved(
                    MetricOperation::SubtractFromGauge,
                    self.pool_name@,
                    self.request_kind@,
                ),
            ),
    {
        log_update(
            log,
            MetricOperation::SubtractFromGauge,
            "isolate_control_plane_requests_in_flight_info",
            MetricValue::Integer(1),
            two_labels("pool_name", self.pool_name, "request_kind", self.request_kind),
        );
    }
}

/// The update that shows a capacity of the context cache.
pub open spec fn cache_capacity(pool_name: Seq<char>, scope: Seq<char>, capacity: int) -> UpdateView {
    gauge(
        "isolate_context_cache_capacity_info"@,
        capacity,
        seq![("pool_name"@, pool_name), ("scope"@, scope)],
    )
}

/// Shows how many contexts an isolate and a pool can keep.
pub fn log_context_cache_capacity(
    log: &mut MetricLog,
    pool_name: &'static str,
    per_isolate: usize,
    pool: usize,
)
    ensures
        final(log)@ == old(log)@.push(
            cache_capacity(pool_name@, "per_isolate"@, per_isolate as int),
        ).push(cache_capacity(pool_name@, "pool"@, pool as int)),
{
    let family = "isolate_context_cache_capacity_info";
    log_gauge_with_labels(
        log,
        family,
        per_isolate as u64,
        two_labels("pool_name", pool_name, "scope", "per_isolate"),
    );
    log_gauge_with_labels(
        log,
        family,
        pool as u64,
        two_labels("pool_name", pool_name, "scope", "pool"),
    );
}

/// The update that shows a capacity of memory.
pub open spec fn memory_capacity(pool_name: Seq<char>, kind: Seq<char>, capacity: int) -> UpdateView {
    gauge(
        "isolate_memory_capacity_bytes"@,
        capacity,
        seq![("pool_name"@, pool_name), ("capacity_kind"@, kind)],
    )
}

fn log_memory_capacity(
    log: &mut MetricLog,
    pool_name: &'static str,
    kind: &'static str,
    capacity: usize,
)
    ensures
        final(log)@ == old(log)@.push(memory_capacity(pool_name@, kind@, capacity as int)),
{
    log_gauge_with_labels(
        log,
        "isolate_memory_capacity_bytes",
        capacity as u64,
        two_labels("pool_name", pool_name, "capacity_kind", kind),
    );
}

/// Shows how much memory the isolates may use, before the overhead of the native runtime.
pub fn log_isolate_memory_capacity(
    log: &mut MetricLog,
    pool_name: &'static str,
    heap_per_worker: usize,
    heap_pool: usize,
    array_buffer_per_worker: usize,
    array_buffer_pool: usize,
)
    ensures
        final(log)@ == old(log)@.push(
            memory_capacity(pool_name@, "heap_per_worker"@, heap_per_worker as int),
        ).push(memory_capacity(pool_name@, "heap_pool"@, heap_pool as int)).push(
            memory_capacity(
                pool_name@,
                "array_buffer_per_worker"@,
                array_buffer_per_worker as int,
            ),
        ).push(memory_capacity(pool_name@, "array_buffer_pool"@, array_buffer_pool as int)),
{
    log_memory_capacity(log, pool_name, "heap_per_worker", heap_per_worker);
    log_memory_capacity(log, pool_name, "heap_pool", heap_pool);
    log_memory_capacity(log, pool_name, "array_buffer_per_worker", array_buffer_per_worker);
    log_memory_capacity(log, pool_name, "array_buffer_pool", array_buffer_pool);
}

/// The properties that mark the path of a function in a trace: the path of its component only
/// where that is not the root.
pub fn record_component_function_path(udf_path: &str, component_path: Option<&str>) -> (properties:
    Vec<MetricLabel>)
    ensures
        label_texts(properties@) == (match component_path {
            Some(component) => seq![("udf_path"@, udf_path@), ("component"@, component@)],
            None => seq![("udf_path"@, udf_path@)],
        }),
{
    match component_path {
        Some(component) => two_labels("udf_path", udf_path, "component", component),
        None => one_label("udf_path", udf_path),
    }
}

} // verus!

use backend_runtime::context_kind::{
    ContextCacheClearReason, ContextCacheOperation, DatabaseUdfContextReuseLookupOutcome,
    ReusableContextKind, SchedulerContextAffinityOutcome,
};
use backend_runtime::metric_log::{MetricLog, MetricOperation, MetricUpdate, MetricValue};
use backend_runtime::metrics::{
    control_plane_lane_enabled_value, execute_full_error, initialize_capacity_counters,
    initialize_control_plane_request_metrics, log_context_cache_operation,
    log_control_plane_lane_enabled, log_database_udf_context_reuse_lookup,
    log_isolate_queue_sojourn, log_log_line, log_scheduler_active_request_finished,
    log_scheduler_active_request_started, log_scheduler_context_affinity,
    rejected_before_execution_error, ControlPlaneRequestGuard, RejectedBeforeExecutionReason,
    UdfType,
};
use backend_runtime::time::Duration;

fn labels(update: &MetricUpdate) -> Vec<(&str, &str)> {
    update.labels.iter().map(|label| (label.name, label.value.as_str())).collect()
}

#[test]
fn control_plane_lane_enabled_metric_is_closed_boolean_state() {
    assert_eq!(control_plane_lane_enabled_value(false), 0);
    assert_eq!(control_plane_lane_enabled_value(true), 1);
    let mut log = MetricLog::new();
    log_control_plane_lane_enabled(&mut log, "pool", true);
    let updates = log.take();
    assert_eq!(updates.len(), 1);
    assert_eq!(updates[0].operation, MetricOperation::SetGauge);
    assert_eq!(updates[0].value, MetricValue::Integer(1));
}

fn zero_series_for_pool(updates: &[MetricUpdate], family: &str, pool_name: &str) -> usize {
    let mut series: Vec<Vec<(&str, &str)>> = updates
        .iter()
        .filter(|update| update.family == family)
        .filter(|update| labels(update).contains(&("pool_name", pool_name)))
        .inspect(|update| assert_eq!(update.value, MetricValue::Integer(0)))
        .map(labels)
        .collect();
    series.sort();
    series.dedup();
    series.len()
}

#[test]
fn capacity_counter_initialization_covers_closed_label_sets() {
    const POOL_NAME: &str = "capacity_counter_initialization_test";
    let mut log = MetricLog::new();
    initialize_capacity_counters(&mut log, POOL_NAME);
    let updates = log.take();

    assert_eq!(
        zero_series_for_pool(&updates, "isolate_scheduler_requests_expired_total", POOL_NAME),
        5
    );
    assert_eq!(
        zero_series_for_pool(&updates, "isolate_scheduler_requests_rejected_total", POOL_NAME),
        30
    );
    assert_eq!(zero_series_for_pool(&updates, "isolate_queue_rejections_total", POOL_NAME), 24);
    assert_eq!(
        zero_series_for_pool(&updates, "isolate_queue_overload_transitions_total", POOL_NAME),
        8
    );
}

#[test]
fn a_request_that_started_and_finished_leaves_its_gauge_as_it_was() {
    let mut log = MetricLog::new();
    log_scheduler_active_request_started(&mut log, "pool", "independent", true);
    log_scheduler_active_request_finished(&mut log, "pool", "independent", true);
    let updates = log.take();
    assert_eq!(updates.len(), 2);
    assert_eq!(updates[0].operation, MetricOperation::AddToGauge);
    assert_eq!(updates[1].operation, MetricOperation::SubtractFromGauge);
    assert_eq!(updates[0].value, updates[1].value);
    assert_eq!(labels(&updates[0]), labels(&updates[1]));
}

#[test]
fn rejections_carry_their_reason() {
    let mut log = MetricLog::new();
    let error =
        rejected_before_execution_error(&mut log, RejectedBeforeExecutionReason::ExpiredInQueue);
    assert_eq!(error.short_msg, "ExpiredInQueue");
    let updates = log.take();
    assert_eq!(updates[0].family, "udf_rejected_before_execution_total");
    assert_eq!(labels(&updates[0]), vec![("reason", "expired_in_queue")]);
    let error = execute_full_error(&mut log);
    assert_eq!(error.short_msg, "ExecuteFullError");
    assert_eq!(log.take().len(), 2);
}

#[test]
fn control_plane_requests_are_counted_while_they_run() {
    let mut log = MetricLog::new();
    initialize_control_plane_request_metrics(&mut log, "pool");
    assert!(log.take().iter().all(|update| update.value == MetricValue::Integer(0)));
    let guard = ControlPlaneRequestGuard::new(&mut log, "pool", "analyze");
    let begun = log.take();
    guard.finish(&mut log);
    let ended = log.take();
    let change = |updates: &[MetricUpdate], operation: MetricOperation| {
        updates.iter().filter(|update| update.operation == operation).count()
    };
    assert_eq!(change(&begun, MetricOperation::AddToGauge), 1);
    assert_eq!(change(&ended, MetricOperation::SubtractFromGauge), 1);
}

#[test]
fn labels_say_what_happened() {
    let mut log = MetricLog::new();
    log_scheduler_context_affinity(
        &mut log,
        "pool",
        ReusableContextKind::DatabaseUdf,
        SchedulerContextAffinityOutcome::EmptyWorker,
    );
    log_context_cache_operation(
        &mut log,
        ReusableContextKind::HttpAction,
        ContextCacheOperation::RejectFrequency,
    );
    log_database_udf_context_reuse_lookup(
        &mut log,
        UdfType::Query,
        DatabaseUdfContextReuseLookupOutcome::ValidationFailed,
    );
    let updates = log.take();
    assert!(labels(&updates[0]).contains(&("outcome", "same_client_worker")));
    assert!(labels(&updates[1]).contains(&("operation", "reject_frequency")));
    assert!(labels(&updates[2]).contains(&("outcome", "validation_failed")));
    assert_eq!(
        ContextCacheClearReason::AppDefinitionEvaluation.as_label(),
        "app_definition_evaluation"
    );
}

#[test]
fn waits_are_recorded_and_direct_calls_counted() {
    let mut log = MetricLog::new();
    log_isolate_queue_sojourn(&mut log, "pool", "ordinary", Duration::from_millis(7));
    let updates = log.take();
    assert_eq!(updates[0].operation, MetricOperation::RecordDistribution);
    assert_eq!(updates[0].value, MetricValue::Seconds(Duration::from_millis(7)));
    log_log_line(&mut log, "an ordinary line");
    assert!(log.take().is_empty());
    log_log_line(
        &mut log,
        "see https://docs.convex.dev/production/best-practices/\
         #use-helper-functions-to-write-shared-code",
    );
    assert_eq!(log.take()[0].family, "isolate_direct_function_call_total");
}

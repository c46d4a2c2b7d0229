use backend_runtime::build_target::{known_or_unknown, uses_jemalloc};
use backend_runtime::dashboard::{
    has_admin_key, is_allowed_self_hosted_runtime_metric, is_self_hosted_runtime_metric,
    snapshot_checkpoint_repair_execute_enabled_from, DashboardRequest, DeploymentOp, IdentityKind,
};
use backend_runtime::site_proxy::forwarded_uri;

#[test]
fn self_hosted_runtime_metrics_are_explicitly_allowlisted() {
    assert!(is_allowed_self_hosted_runtime_metric("isolate_context_cache_operations_total"));
    assert!(is_allowed_self_hosted_runtime_metric(
        "sync_degradable_query_pressure_lifecycle_total"
    ));
    assert!(is_allowed_self_hosted_runtime_metric("postgres_cancellation_terminal_total"));
    assert!(!is_allowed_self_hosted_runtime_metric("function_context_cache_arguments_total"));
    assert!(!is_allowed_self_hosted_runtime_metric("mysql_cancellation_requested_total"));
    assert!(!is_self_hosted_runtime_metric(
        "backend",
        "wrong_service_isolate_context_cache_operations_total"
    ));
    assert!(is_self_hosted_runtime_metric(
        "backend",
        "backend_isolate_context_cache_operations_total"
    ));
}

#[test]
fn destructive_checkpoint_repair_is_exact_opt_in() {
    assert!(!snapshot_checkpoint_repair_execute_enabled_from(None));
    assert!(!snapshot_checkpoint_repair_execute_enabled_from(Some("1")));
    assert!(!snapshot_checkpoint_repair_execute_enabled_from(Some("TRUE")));
    assert!(snapshot_checkpoint_repair_execute_enabled_from(Some("true")));
}

#[test]
fn each_request_needs_its_own_permission() {
    assert_eq!(DashboardRequest::CheckAdminKey.required_operation(), None);
    assert_eq!(
        DashboardRequest::SelfHostedRuntimeMetrics.required_operation(),
        Some(DeploymentOp::ViewMetrics)
    );
    assert_eq!(
        DashboardRequest::Shapes2.required_operation(),
        Some(DeploymentOp::ViewData)
    );
    assert_eq!(
        DashboardRequest::DeleteTables.required_operation(),
        Some(DeploymentOp::WriteData)
    );
    assert_eq!(
        DashboardRequest::RunTestFunction.required_operation(),
        Some(DeploymentOp::RunTestQuery)
    );
    assert!(DashboardRequest::DeleteComponent.is_post());
    assert!(!DashboardRequest::GetIndexes.is_post());
    assert_eq!(DashboardRequest::GetIndexes.path(), "/get_indexes");
    assert!(has_admin_key(IdentityKind::ActingUser));
    assert!(!has_admin_key(IdentityKind::User));
}

#[test]
fn requests_to_the_site_are_sent_on_under_the_prefix() {
    assert_eq!(forwarded_uri("http://127.0.0.1:1/http", "/a?b=c"), "http://127.0.0.1:1/http/a?b=c");
}

#[test]
fn jemalloc_is_left_out_where_it_cannot_be_used() {
    assert!(uses_jemalloc(true, "x86_64", "linux", "unknown"));
    assert!(!uses_jemalloc(false, "x86_64", "linux", "unknown"));
    assert!(!uses_jemalloc(true, "wasm32", "linux", "unknown"));
    for os in ["windows", "android", "bitrig", "dragonfly", "fuchsia", "redox"] {
        assert!(!uses_jemalloc(true, "x86_64", os, "unknown"));
    }
    assert!(!uses_jemalloc(true, "x86_64", "linux", "rumprun"));
    assert_eq!(known_or_unknown(Some("abc")), "abc");
    assert_eq!(known_or_unknown(None), "unknown");
}

//! What the dashboard may ask for.
use vstd::prelude::*;
use vstd::string::*;

use crate::text::{occurs_at, same_text, strip_prefix};

verus! {

/// Which tables to delete.
#[derive(Debug)]
pub struct DeleteTableArgs {
    pub table_names: Vec<String>,
    pub component_id: Option<String>,
}

/// Which component to delete.
#[derive(Debug)]
pub struct DeleteComponentArgs {
    pub component_id: Option<String>,
}

/// Of which component to show the shapes.
#[derive(Debug)]
pub struct ShapesArgs {
    pub component: Option<String>,
}

/// Of which component to show the indexes.
#[derive(Debug)]
pub struct GetIndexesArgs {
    pub component_id: Option<String>,
}

/// What a key must allow.
#[derive(Clone, Copy, Debug, PartialEq, Eq, Structural)]
pub enum DeploymentOp {
    ViewData,
    WriteData,
    ViewMetrics,
    RunTestQuery,
}

/// What the dashboard can ask for.
#[derive(Clone, Copy, Debug, PartialEq, Eq, Structural)]
pub enum DashboardRequest {
    CheckAdminKey,
    SelfHostedRuntimeMetrics,
    Shapes2,
    GetIndexes,
    DeleteTables,
    DeleteComponent,
    RunTestFunction,
}

impl DashboardRequest {
    pub open spec fn route(self) -> Seq<char> {
        match self {
            DashboardRequest::CheckAdminKey => "/check_admin_key"@,
            DashboardRequest::SelfHostedRuntimeMetrics => "/self_hosted_runtime_metrics"@,
            DashboardRequest::Shapes2 => "/shapes2"@,
            DashboardRequest::GetIndexes => "/get_indexes"@,
            DashboardRequest::DeleteTables => "/delete_tables"@,
            DashboardRequest::DeleteComponent => "/delete_component"@,
            DashboardRequest::RunTestFunction => "/run_test_function"@,
        }
    }

    /// Where the request is sent.
    pub fn path(self) -> (path: &'static str)
        ensures
            path@ == self.route(),
    {
        match self {
            DashboardRequest::CheckAdminKey => "/check_admin_key",
            DashboardRequest::SelfHostedRuntimeMetrics => "/self_hosted_runtime_metrics",
            DashboardRequest::Shapes2 => "/shapes2",
            DashboardRequest::GetIndexes => "/get_indexes",
            DashboardRequest::DeleteTables => "/delete_tables",
            DashboardRequest::DeleteComponent => "/delete_component",
            DashboardRequest::RunTestFunction => "/run_test_function",
        }
    }

    pub open spec fn changes(self) -> bool {
        ||| self == DashboardRequest::DeleteTables
        ||| self == DashboardRequest::DeleteComponent
        ||| self == DashboardRequest::RunTestFunction
    }

    /// Whether the request is posted, and not just a question.
    pub fn is_post(self) -> (post: bool)
        ensures
            post == self.changes(),
    {
        match self {
            DashboardRequest::DeleteTables => true,
            DashboardRequest::DeleteComponent => true,
            DashboardRequest::RunTestFunction => true,
            _ => false,
        }
    }

    pub open spec fn operation(self) -> Option<DeploymentOp> {
        match self {
            DashboardRequest::CheckAdminKey => None,
            DashboardRequest::SelfHostedRuntimeMetrics => Some(DeploymentOp::ViewMetrics),
            DashboardRequest::Shapes2 => Some(DeploymentOp::ViewData),
            DashboardRequest::GetIndexes => Some(DeploymentOp::ViewData),
            DashboardRequest::DeleteTables => Some(DeploymentOp::WriteData),
            DashboardRequest::DeleteComponent => Some(DeploymentOp::WriteData),
            DashboardRequest::RunTestFunction => Some(DeploymentOp::RunTestQuery),
        }
    }

    /// What the key of the request must allow. Any admin key can be checked.
    pub fn required_operation(self) -> (operation: Option<DeploymentOp>)
        ensures
            operation == self.operation(),
    {
        match self {
            DashboardRequest::CheckAdminKey => None,
            DashboardRequest::SelfHostedRuntimeMetrics => Some(DeploymentOp::ViewMetrics),
            DashboardRequest::Shapes2 => Some(DeploymentOp::ViewData),
            DashboardRequest::GetIndexes => Some(DeploymentOp::ViewData),
            DashboardRequest::DeleteTables => Some(DeploymentOp::WriteData),
            DashboardRequest::DeleteComponent => Some(DeploymentOp::WriteData),
            DashboardRequest::RunTestFunction => Some(DeploymentOp::RunTestQuery),
        }
    }
}

/// Whose key came with a request.
#[derive(Clone, Copy, Debug, PartialEq, Eq, Structural)]
pub enum IdentityKind {
    DeploymentAdmin,
    ActingUser,
    System,
    User,
    Unknown,
}

/// Whether an identity has an admin key: its own, or that of the admin it acts for.
pub fn has_admin_key(identity: IdentityKind) -> (admin: bool)
    ensures
        admin == (identity == IdentityKind::DeploymentAdmin || identity
            == IdentityKind::ActingUser),
{
    match identity {
        IdentityKind::DeploymentAdmin => true,
        IdentityKind::ActingUser => true,
        _ => false,
    }
}

/// Whether the setting for it turns on the execution of snapshot checkpoint repairs: only the exact
/// word does.
pub fn snapshot_checkpoint_repair_execute_enabled_from(value: Option<&str>) -> (enabled: bool)
    ensures
        enabled == (value is Some && value->0@ == "true"@),
{
    match value {
        Some(value) => same_text(value, "true"),
        None => false,
    }
}

/// The metric families that a self-hosted deployment shows.
pub open spec fn allowed_families() -> Seq<Seq<char>> {
    seq![
        "isolate_scheduler_context_affinity_total"@,
        "reusable_context_init_total"@,
        "database_udf_context_reuse_lookup_total"@,
        "database_udf_context_reuse_decision_total"@,
        "isolate_context_cache_operations_total"@,
        "isolate_context_cache_cleared_total"@,
        "isolate_context_cache_entries_info"@,
        "isolate_context_cache_capacity_info"@,
        "isolate_context_cache_owned_info"@,
        "sync_degradable_query_workload_decisions_total"@,
        "sync_degradable_query_pressure_lifecycle_total"@,
        "sync_degradable_query_pressure_pending_queries"@,
        "sync_degradable_query_retry_attempts_total"@,
        "sync_degradable_query_retry_queries"@,
        "sync_degradable_query_client_retry_total"@,
        "sync_degradable_query_deferrals_total"@,
        "postgres_cancellation_requested_total"@,
        "postgres_cancellation_terminal_total"@,
    ]
}

/// Whether a self-hosted deployment shows a metric family, named without its service.
pub fn is_allowed_self_hosted_runtime_metric(name: &str) -> (allowed: bool)
    ensures
        allowed == allowed_families().contains(name@),
{
    let families: [&'static str; 18] = [
        "isolate_scheduler_context_affinity_total",
        "reusable_context_init_total",
        "database_udf_context_reuse_lookup_total",
        "database_udf_context_reuse_decision_total",
        "isolate_context_cache_operations_total",
        "isolate_context_cache_cleared_total",
        "isolate_context_cache_entries_info",
        "isolate_context_cache_capacity_info",
        "isolate_context_cache_owned_info",
        "sync_degradable_query_workload_decisions_total",
        "sync_degradable_query_pressure_lifecycle_total",
        "sync_degradable_query_pressure_pending_queries",
        "sync_degradable_query_retry_attempts_total",
        "sync_degradable_query_retry_queries",
        "sync_degradable_query_client_retry_total",
        "sync_degradable_query_deferrals_total",
        "postgres_cancellation_requested_total",
        "postgres_cancellation_terminal_total",
    ];
    let mut i: usize = 0;
    assert(families@.map_values(|family: &'static str| family@) =~= allowed_families());
    while i < 18
        invariant
            i <= 18,
            families@.len() == 18,
            families@.map_values(|family: &'static str| family@) == allowed_families(),
            forall|k: int| 0 <= k < i ==> #[trigger] allowed_families()[k] != name@,
        decreases 18 - i,
    {
        assert(allowed_families()[i as int] == families@.map_values(
            |family: &'static str| family@,
        )[i as int]);
        if same_text(families[i], name) {
            return true;
        }
        i = i + 1;
    }
    false
}

/// Whether a self-hosted deployment shows a metric family: one of its own service, and of those
/// allowed.
pub open spec fn is_shown(service_name: Seq<char>, name: Seq<char>) -> bool {
    exists|family: Seq<char>|
        #![trigger allowed_families().contains(family)]
        name == service_name + "_"@ + family && allowed_families().contains(family)
}

/// Whether a self-hosted deployment shows a metric family.
pub fn is_self_hosted_runtime_metric(service_name: &str, name: &str) -> (shown: bool)
    ensures
        shown == is_shown(service_name@, name@),
{
    let mut service_prefix = service_name.to_owned();
    service_prefix.append("_");
    match strip_prefix(name, service_prefix.as_str()) {
        Some(family) => {
            proof {
                assert forall|other: Seq<char>|
                    name@ == service_name@ + "_"@ + other implies other == family@ by {
                    let n = service_prefix@.len() as int;
                    assert(name@.skip(n) =~= other);
                    assert(name@.skip(n) =~= family@);
                }
            }
            is_allowed_self_hosted_runtime_metric(family)
        },
        None => {
            proof {
                assert forall|family: Seq<char>|
                    #![trigger allowed_families().contains(family)]
                    name@ != service_name@ + "_"@ + family by {
                    if name@ == service_prefix@ + family {
                        assert(name@.subrange(0, service_prefix@.len() as int) =~= service_prefix@);
                        assert(occurs_at(name@, service_prefix@, 0));
                    }
                }
            }
            false
        },
    }
}

/// No family with the name of a function, an argument or an identity in it is shown, nor one of
/// another service.
pub proof fn only_listed_families_are_shown(service_name: Seq<char>, name: Seq<char>)
    requires
        is_shown(service_name, name),
    ensures
        allowed_families().contains(name.skip(service_name.len() as int + 1)),
        name.take(service_name.len() as int) == service_name,
{
    let family = choose|family: Seq<char>|
        #![trigger allowed_families().contains(family)]
        name == service_name + "_"@ + family && allowed_families().contains(family);
    reveal_strlit("_");
    assert(name.skip(service_name.len() as int + 1) =~= family);
    assert(name.take(service_name.len() as int) =~= service_name);
}

/// Nothing but a key that may write lets data be deleted.
pub proof fn deletions_need_the_right_to_write(request: DashboardRequest)
    ensures
        (request == DashboardRequest::DeleteTables || request == DashboardRequest::DeleteComponent)
            <==> request.operation() == Some(DeploymentOp::WriteData),
{
}

/// Each request needs the right that fits it: data is viewed with one, metrics with another, data is
/// deleted with a third and test functions are run with a fourth; only the check of a key needs none.
/// What is posted is what deletes or runs.
pub proof fn requests_need_the_right_that_fits(request: DashboardRequest)
    ensures
        request.operation() is None <==> request is CheckAdminKey,
        request.operation() == Some(DeploymentOp::ViewMetrics)
            <==> request is SelfHostedRuntimeMetrics,
        request.operation() == Some(DeploymentOp::ViewData) <==> request is Shapes2
            || request is GetIndexes,
        request.operation() == Some(DeploymentOp::RunTestQuery) <==> request is RunTestFunction,
        request.changes() <==> request.operation() == Some(DeploymentOp::WriteData)
            || request.operation() == Some(DeploymentOp::RunTestQuery),
{
}

/// Every listed family of a service is shown.
pub proof fn every_listed_family_is_shown(service_name: Seq<char>, i: int)
    requires
        0 <= i < allowed_families().len(),
    ensures
        is_shown(service_name, service_name + "_"@ + allowed_families()[i]),
{
    assert(allowed_families().contains(allowed_families()[i]));
}

} // verus!

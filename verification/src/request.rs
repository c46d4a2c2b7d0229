//! Requests to the isolate scheduler, and what the scheduler reads of them.
use vstd::prelude::*;
use vstd::string::*;

use crate::component::{
    context_cache_key, CanonicalizedComponentModulePath, ModulePathView,
    ResolvedComponentFunctionPath,
};
use crate::context_kind::ReusableContextKind;
use crate::isolate_queue::IsolateQueueLane;

verus! {

/// Whether another request that holds a worker waits for a request.
#[derive(Clone, Copy, Debug, PartialEq, Eq, Structural)]
pub enum SchedulerDependencyClass {
    Independent,
    UnblocksAncestor,
}

impl SchedulerDependencyClass {
    pub fn unblocks_ancestor(self) -> (unblocks: bool)
        ensures
            unblocks == (self is UnblocksAncestor),
    {
        match self {
            SchedulerDependencyClass::Independent => false,
            SchedulerDependencyClass::UnblocksAncestor => true,
        }
    }
}

/// What a request asks for.
#[derive(Debug)]
pub enum RequestType {
    Udf {
        path: ResolvedComponentFunctionPath,
        /// Whether the function and the kind of the request let a context be used again.
        reuses_context: bool,
        /// Whether the function calls other functions through the scheduler.
        has_udf_callback: bool,
    },
    Action { path: ResolvedComponentFunctionPath },
    HttpAction { path: ResolvedComponentFunctionPath },
    Analyze,
    EvaluateSchema,
    EvaluateAuthConfig,
    EvaluateAppDefinitions,
    EvaluateComponentInitializer,
}

impl RequestType {
    /// Whether the request serves a deployment and not a function call.
    pub open spec fn serves_deployment(&self) -> bool {
        match self {
            RequestType::Udf { .. } => false,
            RequestType::Action { .. } => false,
            RequestType::HttpAction { .. } => false,
            _ => true,
        }
    }

    pub fn is_control_plane(&self) -> (control_plane: bool)
        ensures
            control_plane == self.serves_deployment(),
    {
        match self {
            RequestType::Analyze => true,
            RequestType::EvaluateSchema => true,
            RequestType::EvaluateAuthConfig => true,
            RequestType::EvaluateAppDefinitions => true,
            RequestType::EvaluateComponentInitializer => true,
            RequestType::Udf { .. } => false,
            RequestType::Action { .. } => false,
            RequestType::HttpAction { .. } => false,
        }
    }

    /// The function that the request calls.
    pub open spec fn function(&self) -> Option<ResolvedComponentFunctionPath> {
        match self {
            RequestType::Udf { path, .. } => Some(*path),
            RequestType::Action { path } => Some(*path),
            RequestType::HttpAction { path } => Some(*path),
            _ => None,
        }
    }
}

/// What the scheduler needs to know of a request to start it.
#[derive(Clone, Copy, Debug, PartialEq, Eq, Structural)]
pub struct RequestSchedulingProperties {
    pub unblocks_ancestor: bool,
    pub can_block_on_descendant: bool,
    pub is_isolate_action: bool,
    pub is_control_plane: bool,
}

impl RequestSchedulingProperties {
    /// Whether the properties can be those of a request: control-plane work neither waits for
    /// other requests nor does any wait for it, and it is no action.
    pub open spec fn consistent(self) -> bool {
        self.is_control_plane ==> !self.unblocks_ancestor && !self.can_block_on_descendant
            && !self.is_isolate_action
    }

    pub open spec fn lane(self) -> IsolateQueueLane {
        if self.is_control_plane {
            IsolateQueueLane::ControlPlane
        } else if self.unblocks_ancestor {
            IsolateQueueLane::Dependency
        } else if self.is_isolate_action {
            IsolateQueueLane::IndependentAction
        } else {
            IsolateQueueLane::Ordinary
        }
    }

    /// The lane that the request waits in.
    pub fn queue_lane(self) -> (lane: IsolateQueueLane)
        requires
            !self.is_control_plane || !self.unblocks_ancestor,
        ensures
            lane == self.lane(),
    {
        if self.is_control_plane {
            IsolateQueueLane::ControlPlane
        } else if self.unblocks_ancestor {
            IsolateQueueLane::Dependency
        } else if self.is_isolate_action {
            IsolateQueueLane::IndependentAction
        } else {
            IsolateQueueLane::Ordinary
        }
    }

    pub open spec fn label(self) -> Seq<char> {
        if self.is_control_plane {
            "control_plane"@
        } else if self.unblocks_ancestor {
            if self.can_block_on_descendant {
                "dependency_descendant_holder"@
            } else {
                "dependency"@
            }
        } else if self.can_block_on_descendant {
            "descendant_holder"@
        } else {
            "independent"@
        }
    }

    /// The class that the metrics show.
    pub fn as_label(&self) -> (label: &'static str)
        requires
            self.consistent(),
        ensures
            label@ == self.label(),
    {
        if self.is_control_plane {
            return "control_plane";
        }
        match (self.unblocks_ancestor, self.can_block_on_descendant) {
            (false, false) => "independent",
            (false, true) => "descendant_holder",
            (true, false) => "dependency",
            (true, true) => "dependency_descendant_holder",
        }
    }

    /// Whether the request is an action for which no other request waits.
    pub open spec fn is_independent_action(self) -> bool {
        self.is_isolate_action && !self.unblocks_ancestor
    }
}

/// A request to the scheduler.
#[derive(Debug)]
pub struct Request {
    pub client_id: String,
    pub inner: RequestType,
    pub scheduler_dependency: SchedulerDependencyClass,
}

impl Request {
    /// What holds of every request: no request waits for control-plane work.
    pub open spec fn wf(&self) -> bool {
        !self.inner.serves_deployment() || !(self.scheduler_dependency is UnblocksAncestor)
    }

    /// A request for which no other request waits.
    pub fn new(client_id: String, inner: RequestType) -> (request: Request)
        ensures
            request.wf(),
            request == (Request {
                client_id,
                inner,
                scheduler_dependency: SchedulerDependencyClass::Independent,
            }),
    {
        Request { client_id, inner, scheduler_dependency: SchedulerDependencyClass::Independent }
    }

    pub fn new_with_scheduler_dependency(
        client_id: String,
        inner: RequestType,
        scheduler_dependency: SchedulerDependencyClass,
    ) -> (request: Request)
        requires
            !inner.serves_deployment() || !(scheduler_dependency is UnblocksAncestor),
        ensures
            request.wf(),
            request == (Request { client_id, inner, scheduler_dependency }),
    {
        Request { client_id, inner, scheduler_dependency }
    }

    pub open spec fn module_view(&self) -> Option<ModulePathView> {
        match self.inner.function() {
            Some(path) => Some(
                ModulePathView { component: path.component@, module: path.module@ },
            ),
            None => None,
        }
    }

    /// The module whose contexts can serve the request.
    pub fn module(&self) -> (module: Option<CanonicalizedComponentModulePath>)
        ensures
            match module {
                Some(module) => self.module_view() == Some(module@),
                None => self.module_view() is None,
            },
    {
        match &self.inner {
            RequestType::Udf { path, .. } => Some(context_cache_key(path)),
            RequestType::Action { path } => Some(context_cache_key(path)),
            RequestType::HttpAction { path } => Some(context_cache_key(path)),
            RequestType::Analyze => None,
            RequestType::EvaluateSchema => None,
            RequestType::EvaluateAuthConfig => None,
            RequestType::EvaluateAppDefinitions => None,
            RequestType::EvaluateComponentInitializer => None,
        }
    }

    pub open spec fn context_kind(&self, reuse_http_action_contexts: bool) -> Option<
        ReusableContextKind,
    > {
        match self.inner {
            RequestType::Udf { reuses_context, .. } => if reuses_context {
                Some(ReusableContextKind::DatabaseUdf)
            } else {
                None
            },
            RequestType::HttpAction { .. } => if reuse_http_action_contexts {
                Some(ReusableContextKind::HttpAction)
            } else {
                None
            },
            _ => None,
        }
    }

    /// The kind of contexts that can serve the request, if any can.
    pub fn reusable_context_kind(&self, reuse_http_action_contexts: bool) -> (kind: Option<
        ReusableContextKind,
    >)
        ensures
            kind == self.context_kind(reuse_http_action_contexts),
    {
        match &self.inner {
            RequestType::Udf { reuses_context, .. } => {
                if *reuses_context {
                    Some(ReusableContextKind::DatabaseUdf)
                } else {
                    None
                }
            },
            RequestType::HttpAction { .. } => {
                if reuse_http_action_contexts {
                    Some(ReusableContextKind::HttpAction)
                } else {
                    None
                }
            },
            _ => None,
        }
    }

    pub open spec fn properties(&self, control_plane_lane_enabled: bool) -> RequestSchedulingProperties {
        RequestSchedulingProperties {
            unblocks_ancestor: self.scheduler_dependency is UnblocksAncestor,
            can_block_on_descendant: match self.inner {
                RequestType::Udf { has_udf_callback, .. } => has_udf_callback,
                RequestType::Action { .. } => true,
                RequestType::HttpAction { .. } => true,
                _ => false,
            },
            is_isolate_action: match self.inner {
                RequestType::Action { .. } => true,
                RequestType::HttpAction { .. } => true,
                _ => false,
            },
            is_control_plane: control_plane_lane_enabled && self.inner.serves_deployment(),
        }
    }

    /// What the scheduler needs to know to start the request.
    pub fn scheduling_properties(&self, control_plane_lane_enabled: bool) -> (properties:
        RequestSchedulingProperties)
        requires
            self.wf(),
        ensures
            properties == self.properties(control_plane_lane_enabled),
            properties.consistent(),
    {
        let (can_block_on_descendant, is_isolate_action) = match &self.inner {
            RequestType::Udf { has_udf_callback, .. } => (*has_udf_callback, false),
            RequestType::Action { .. } => (true, true),
            RequestType::HttpAction { .. } => (true, true),
            _ => (false, false),
        };
        RequestSchedulingProperties {
            unblocks_ancestor: self.scheduler_dependency.unblocks_ancestor(),
            can_block_on_descendant,
            is_isolate_action,
            is_control_plane: control_plane_lane_enabled && self.inner.is_control_plane(),
        }
    }
}

/// How many requests are being served.
#[derive(Clone, Copy, Debug, PartialEq, Eq, Structural)]
pub struct ActiveRequestCounts {
    pub total: usize,
    pub independent_actions: usize,
}

impl Default for ActiveRequestCounts {
    fn default() -> (counts: ActiveRequestCounts)
        ensures
            counts == ActiveRequestCounts::none(),
    {
        ActiveRequestCounts { total: 0, independent_actions: 0 }
    }
}

/// The number one if a condition holds.
pub open spec fn one_if(condition: bool) -> int {
    if condition {
        1
    } else {
        0
    }
}

impl ActiveRequestCounts {
    pub open spec fn none() -> ActiveRequestCounts {
        ActiveRequestCounts { total: 0, independent_actions: 0 }
    }

    /// The counts with a request more.
    pub open spec fn with(self, properties: RequestSchedulingProperties) -> ActiveRequestCounts {
        ActiveRequestCounts {
            total: (self.total + 1) as usize,
            independent_actions: (self.independent_actions + one_if(
                properties.is_independent_action(),
            )) as usize,
        }
    }

    /// The counts with a request less.
    pub open spec fn without(self, properties: RequestSchedulingProperties) -> ActiveRequestCounts {
        ActiveRequestCounts {
            total: (self.total - 1) as usize,
            independent_actions: (self.independent_actions - one_if(
                properties.is_independent_action(),
            )) as usize,
        }
    }

    pub fn is_empty(&self) -> (empty: bool)
        ensures
            empty == (self.total == 0),
    {
        self.total == 0
    }

    pub fn increment(&mut self, properties: RequestSchedulingProperties)
        requires
            old(self).total < usize::MAX,
            old(self).independent_actions < usize::MAX,
        ensures
            *final(self) == old(self).with(properties),
    {
        self.total = self.total + 1;
        if properties.is_isolate_action && !properties.unblocks_ancestor {
            self.independent_actions = self.independent_actions + 1;
        }
    }

    pub fn decrement(&mut self, properties: RequestSchedulingProperties)
        requires
            old(self).total > 0,
            properties.is_independent_action() ==> old(self).independent_actions > 0,
        ensures
            *final(self) == old(self).without(properties),
    {
        self.total = self.total - 1;
        if properties.is_isolate_action && !properties.unblocks_ancestor {
            self.independent_actions = self.independent_actions - 1;
        }
    }
}

/// A request that was served leaves the counts as they were before it came.
pub proof fn served_requests_leave_no_trace(
    counts: ActiveRequestCounts,
    properties: RequestSchedulingProperties,
)
    requires
        counts.total < usize::MAX,
        counts.independent_actions < usize::MAX,
    ensures
        counts.with(properties).without(properties) == counts,
{
}

/// Control-plane requests use the control-plane lane only while it is enabled; without it they wait
/// with ordinary requests.
pub proof fn control_plane_lane_is_optional(request: Request)
    requires
        request.wf(),
        request.inner.serves_deployment(),
    ensures
        request.properties(true).lane() == IsolateQueueLane::ControlPlane,
        request.properties(false).lane() == IsolateQueueLane::Ordinary,
        request.properties(true).consistent(),
        request.properties(false).consistent(),
{
}

/// A request for which another one waits is in the dependency lane, and no other request is.
pub proof fn dependency_lane_unblocks_ancestors(request: Request, control_plane_lane_enabled: bool)
    requires
        request.wf(),
    ensures
        request.properties(control_plane_lane_enabled).lane() == IsolateQueueLane::Dependency
            <==> request.scheduler_dependency is UnblocksAncestor,
{
}

/// The lane of a request follows from what it asks for and from who waits for it: work for a
/// deployment has a lane of its own while that is enabled, requests for which another one waits
/// have theirs, actions for which none waits have theirs, and all others wait together.
pub proof fn requests_wait_in_the_lane_of_their_work(
    request: Request,
    control_plane_lane_enabled: bool,
)
    requires
        request.wf(),
    ensures
        ({
            let lane = request.properties(control_plane_lane_enabled).lane();
            let action = request.inner is Action || request.inner is HttpAction;
            let deployment = !action && !(request.inner is Udf);
            let awaited = request.scheduler_dependency is UnblocksAncestor;
            &&& lane is ControlPlane <==> control_plane_lane_enabled && deployment
            &&& lane is Dependency <==> awaited
            &&& lane is IndependentAction <==> action && !awaited
            &&& lane is Ordinary <==> !awaited && (request.inner is Udf || (deployment
                && !control_plane_lane_enabled))
        }),
{
}

/// A request can wait for another one while it holds a worker if it is an action, or a function
/// that calls others through the scheduler; and only actions for which none waits count as
/// independent actions.
pub proof fn callers_can_wait_for_what_they_call(request: Request, control_plane_lane_enabled: bool)
    requires
        request.wf(),
    ensures
        ({
            let properties = request.properties(control_plane_lane_enabled);
            let action = request.inner is Action || request.inner is HttpAction;
            &&& properties.can_block_on_descendant <==> action || (request.inner
                matches RequestType::Udf { has_udf_callback, .. } && has_udf_callback)
            &&& properties.is_independent_action() <==> action
                && request.scheduler_dependency is Independent
            &&& properties.unblocks_ancestor <==> request.scheduler_dependency is UnblocksAncestor
        }),
{
}

/// A context is used again for a function whose request lets it, or for an HTTP action while that
/// is enabled, each with a kind of its own; a module belongs to each request that can use one.
pub proof fn contexts_are_used_again_by_request(request: Request, reuse_http_action_contexts: bool)
    ensures
        ({
            let kind = request.context_kind(reuse_http_action_contexts);
            &&& kind == Some(ReusableContextKind::DatabaseUdf) <==> (request.inner
                matches RequestType::Udf { reuses_context, .. } && reuses_context)
            &&& kind == Some(ReusableContextKind::HttpAction) <==> request.inner is HttpAction
                && reuse_http_action_contexts
            &&& kind is Some ==> request.module_view() is Some
            &&& request.module_view() is Some <==> request.inner is Udf || request.inner is Action
                || request.inner is HttpAction
        }),
{
}

/// The metrics tell two classes of requests apart if and only if they differ in what the scheduler
/// asks of a class: whether it serves a deployment, whether another request waits for it, and
/// whether it can wait for others.
pub proof fn classes_have_labels_of_their_own(
    a: RequestSchedulingProperties,
    b: RequestSchedulingProperties,
)
    requires
        a.consistent(),
        b.consistent(),
    ensures
        a.label() == b.label() <==> a.is_control_plane == b.is_control_plane && a.unblocks_ancestor
            == b.unblocks_ancestor && a.can_block_on_descendant == b.can_block_on_descendant,
{
    reveal_strlit("control_plane");
    reveal_strlit("dependency_descendant_holder");
    reveal_strlit("dependency");
    reveal_strlit("descendant_holder");
    reveal_strlit("independent");
    assert("control_plane"@.len() == 13);
    assert("dependency_descendant_holder"@.len() == 28);
    assert("dependency"@.len() == 10);
    assert("descendant_holder"@.len() == 17);
    assert("independent"@.len() == 11);
}

/// Each request that is served counts once, and an action for which none waits counts once more
/// among those; no other request changes their number.
pub proof fn served_requests_are_counted_once(
    counts: ActiveRequestCounts,
    properties: RequestSchedulingProperties,
)
    requires
        counts.total < usize::MAX,
        counts.independent_actions < usize::MAX,
    ensures
        counts.with(properties).total == counts.total + 1,
        properties.is_isolate_action && !properties.unblocks_ancestor ==> counts.with(
            properties,
        ).independent_actions == counts.independent_actions + 1,
        !properties.is_isolate_action || properties.unblocks_ancestor ==> counts.with(
            properties,
        ).independent_actions == counts.independent_actions,
        counts.total > 0 ==> counts.without(properties).total == counts.total - 1,
{
}

} // verus!

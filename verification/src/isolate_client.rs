//! What callers of the isolate scheduler do: sending requests, trying again, and reading answers.
use vstd::prelude::*;
use vstd::string::*;

use crate::isolate_queue::{reserve_is_for_dependencies, IsolateQueueSendError};
use crate::isolate_queue_state::{
    lane_updates, rejection_update, send_refusal, IsolateQueueState, QueueWake, ReceiverWake,
    StateModel,
};
use crate::metric_log::{counter, MetricLog, UpdateView};
use crate::metrics::{
    aggregated_heap_updates, execute_full_error, log_aggregated_heap_stats,
    log_scheduler_dependency_queue_reserve_enqueue, log_scheduler_request_enqueued,
    log_scheduler_request_rejected, rejection_counted, rejection_texts, IsolateHeapStats,
    RejectedBeforeExecutionReason, RejectionError,
};
use crate::request::RequestSchedulingProperties;
use crate::scheduler_loop::{class_labels, request_rejected_update};
use crate::string_map::StringMap;
use crate::text::strip_prefix;
use crate::time::Moment;

verus! {

/// Why a request could not be sent.
#[derive(Debug)]
pub enum SendRequestError {
    /// The scheduler is shut down.
    Shutdown,
    /// Too many requests wait.
    Full(RejectionError),
}

/// What the metrics count when a request could not be sent.
pub open spec fn send_failure_updates(
    pool: Seq<char>,
    properties: RequestSchedulingProperties,
    error: IsolateQueueSendError,
) -> Seq<UpdateView> {
    if error == IsolateQueueSendError::SchedulerClosed {
        seq![request_rejected_update(pool, properties, error.label())]
    } else {
        seq![
            request_rejected_update(pool, properties, error.label()),
            counter("udf_execute_full_total"@, 1, Seq::empty()),
            rejection_counted(RejectedBeforeExecutionReason::ExecuteQueueFull),
        ]
    }
}

pub open spec fn enqueued_update(
    pool: Seq<char>,
    properties: RequestSchedulingProperties,
) -> UpdateView {
    counter("isolate_scheduler_requests_enqueued_total"@, 1, class_labels(pool, properties))
}

/// What the metrics count when a request was sent.
pub open spec fn send_updates(
    pool: Seq<char>,
    properties: RequestSchedulingProperties,
    used_reserve: bool,
) -> Seq<UpdateView> {
    if used_reserve {
        seq![
            enqueued_update(pool, properties),
            counter(
                "isolate_scheduler_dependency_queue_reserve_enqueue_total"@,
                1,
                seq![("pool_name"@, pool)],
            ),
        ]
    } else {
        seq![enqueued_update(pool, properties)]
    }
}

/// Whether an error is the one that a caller gets when its request was refused.
pub open spec fn is_send_error(refusal: IsolateQueueSendError, error: SendRequestError) -> bool {
    if refusal == IsolateQueueSendError::SchedulerClosed {
        error is Shutdown
    } else {
        error matches SendRequestError::Full(error) && rejection_texts(error)
            == RejectedBeforeExecutionReason::ExecuteQueueFull.error()
    }
}

/// Takes in whether the queue took a request.
pub fn record_send(
    result: Result<bool, IsolateQueueSendError>,
    scheduling_properties: RequestSchedulingProperties,
    pool_name: &'static str,
    log: &mut MetricLog,
) -> (sent: Result<(), SendRequestError>)
    requires
        scheduling_properties.consistent(),
        result == Ok::<bool, IsolateQueueSendError>(true)
            ==> scheduling_properties.unblocks_ancestor,
    ensures
        match result {
            Ok(used_reserve) => sent is Ok && final(log)@ == old(log)@ + send_updates(
                pool_name@,
                scheduling_properties,
                used_reserve,
            ),
            Err(refusal) => {
                &&& sent matches Err(error) && is_send_error(refusal, error)
                &&& final(log)@ == old(log)@ + send_failure_updates(
                    pool_name@,
                    scheduling_properties,
                    refusal,
                )
            },
        },
{
    match result {
        Ok(used_reserve) => {
            log_scheduler_request_enqueued(log, pool_name, scheduling_properties.as_label());
            if used_reserve {
                log_scheduler_dependency_queue_reserve_enqueue(log, pool_name);
            }
            assert(log@ =~= old(log)@ + send_updates(
                pool_name@,
                scheduling_properties,
                used_reserve,
            ));
            Ok(())
        },
        Err(refusal) => {
            log_scheduler_request_rejected(
                log,
                pool_name,
                scheduling_properties.as_label(),
                refusal.as_label(),
            );
            if refusal == IsolateQueueSendError::SchedulerClosed {
                assert(log@ =~= old(log)@ + send_failure_updates(
                    pool_name@,
                    scheduling_properties,
                    refusal,
                ));
                return Err(SendRequestError::Shutdown);
            }
            let error = execute_full_error(log);
            assert(log@ =~= old(log)@ + send_failure_updates(
                pool_name@,
                scheduling_properties,
                refusal,
            ));
            Err(SendRequestError::Full(error))
        },
    }
}

/// Sends a request to the queue of the scheduler. A request that is refused is given back.
pub fn send_request<T>(
    queue: &mut IsolateQueueState<T>,
    item: T,
    scheduling_properties: RequestSchedulingProperties,
    now: Moment,
    pool_name: &'static str,
    log: &mut MetricLog,
) -> (sent: (Result<(), (SendRequestError, T)>, QueueWake))
    requires
        old(queue).wf(),
        old(queue)@.queue.config.reaches_from(now@),
        old(queue)@.pool_name == pool_name@,
        scheduling_properties.consistent(),
    ensures
        final(queue).wf(),
        match send_refusal(old(queue)@, scheduling_properties.lane()) {
            None => {
                &&& sent.0 is Ok
                &&& sent.1 == (QueueWake {
                    receivers: ReceiverWake::OneMore,
                    expiry_companions: true,
                })
                &&& final(queue)@ == (StateModel {
                    queue: old(queue)@.queue.pushed(item, scheduling_properties.lane(), now@),
                    ..old(queue)@
                })
                &&& final(log)@ == old(log)@ + lane_updates(
                    pool_name@,
                    final(queue)@.queue,
                    scheduling_properties.lane(),
                ) + send_updates(
                    pool_name@,
                    scheduling_properties,
                    old(queue)@.queue.entries.len() >= old(queue)@.queue.capacity,
                )
            },
            Some(refusal) => {
                &&& sent.0 matches Err((error, returned)) && is_send_error(refusal, error)
                    && returned == item
                &&& sent.1 == QueueWake::nobody()
                &&& final(queue)@ == old(queue)@
                &&& final(log)@ == old(log)@.push(
                    rejection_update(
                        pool_name@,
                        scheduling_properties.lane(),
                        refusal.label(),
                    ),
                ) + send_failure_updates(pool_name@, scheduling_properties, refusal)
            },
        },
{
    let lane = scheduling_properties.queue_lane();
    let (result, wake) = queue.try_send(item, lane, now, log);
    match result {
        Ok(used_reserve) => {
            proof {
                if used_reserve {
                    reserve_is_for_dependencies(old(queue)@.queue, lane);
                }
            }
            match record_send(Ok(used_reserve), scheduling_properties, pool_name, log) {
                Ok(()) => (Ok(()), wake),
                Err(error) => (Ok(()), wake),
            }
        },
        Err((refusal, item)) => {
            match record_send(Err(refusal), scheduling_properties, pool_name, log) {
                Ok(()) => (Err((SendRequestError::Shutdown, item)), wake),
                Err(error) => (Err((error, item)), wake),
            }
        },
    }
}

/// How often a request of the control plane is tried.
pub const MAX_ATTEMPTS: u32 = 3;

/// Which attempt is made after one failed: the next one if it is worth it and there is one left,
/// else none.
pub open spec fn next_attempt(
    attempt: nat,
    rejected_before_execution: bool,
    overloaded: bool,
) -> Option<nat> {
    if attempt < MAX_ATTEMPTS && (rejected_before_execution || overloaded) {
        Some(attempt + 1)
    } else {
        None
    }
}

/// The attempts of a request of the control plane.
#[derive(Debug)]
pub struct ControlPlaneAttempts {
    attempt: u32,
}

impl View for ControlPlaneAttempts {
    type V = nat;

    /// Which attempt is being made.
    closed spec fn view(&self) -> nat {
        self.attempt as nat
    }
}

impl ControlPlaneAttempts {
    #[verifier::type_invariant]
    spec fn is_allowed(self) -> bool {
        1 <= self.attempt <= MAX_ATTEMPTS
    }

    pub fn new() -> (attempts: ControlPlaneAttempts)
        ensures
            attempts@ == 1,
    {
        ControlPlaneAttempts { attempt: 1 }
    }

    /// Takes in that an attempt failed, and says whether to wait and try again: only if the request
    /// was not begun or the system is overloaded, and only so often.
    pub fn failed(&mut self, rejected_before_execution: bool, overloaded: bool) -> (retry: bool)
        ensures
            retry == (old(self)@ < MAX_ATTEMPTS && (rejected_before_execution || overloaded)),
            final(self)@ == old(self)@ + (if retry {
                1int
            } else {
                0int
            }),
            1 <= final(self)@ <= MAX_ATTEMPTS,
            match next_attempt(old(self)@, rejected_before_execution, overloaded) {
                Some(attempt) => retry && final(self)@ == attempt,
                None => !retry && final(self)@ == old(self)@,
            },
    {
        proof {
            use_type_invariant(&*self);
        }
        let retry = self.attempt < MAX_ATTEMPTS && (rejected_before_execution || overloaded);
        if retry {
            self.attempt = self.attempt + 1;
        }
        retry
    }
}

/// Where the code of a module runs.
#[derive(Clone, Copy, Debug, PartialEq, Eq, Structural)]
pub enum ModuleEnvironment {
    Isolate,
    Node,
    Invalid,
}

/// A module that is to be analyzed or evaluated.
#[derive(Debug)]
pub struct ModuleConfig {
    pub path: String,
    /// Whether the module holds only what others depend on.
    pub is_deps: bool,
    pub environment: ModuleEnvironment,
}

/// Why modules are refused.
#[derive(Clone, Copy, Debug, PartialEq, Eq, Structural)]
pub enum ModuleError {
    AnalyzeOutsideIsolate,
    EvaluateOutsideIsolate,
}

impl ModuleError {
    pub open spec fn text(self) -> Seq<char> {
        match self {
            ModuleError::AnalyzeOutsideIsolate => "Can only analyze Isolate modules"@,
            ModuleError::EvaluateOutsideIsolate => "Can only evaluate Isolate modules"@,
        }
    }

    pub fn message(self) -> (message: &'static str)
        ensures
            message@ == self.text(),
    {
        match self {
            ModuleError::AnalyzeOutsideIsolate => "Can only analyze Isolate modules",
            ModuleError::EvaluateOutsideIsolate => "Can only evaluate Isolate modules",
        }
    }
}

/// Whether all modules run in isolates.
pub open spec fn all_isolate(modules: Seq<ModuleConfig>) -> bool {
    forall|i: int|
        0 <= i < modules.len() ==> (#[trigger] modules[i]).environment == ModuleEnvironment::Isolate
}

fn all_in_isolate(modules: &Vec<ModuleConfig>) -> (all: bool)
    ensures
        all == all_isolate(modules@),
{
    let mut i: usize = 0;
    while i < modules.len()
        invariant
            i <= modules.len(),
            forall|k: int|
                0 <= k < i ==> (#[trigger] modules@[k]).environment == ModuleEnvironment::Isolate,
        decreases modules.len() - i,
    {
        if modules[i].environment != ModuleEnvironment::Isolate {
            assert(modules@[i as int].environment != ModuleEnvironment::Isolate);
            return false;
        }
        i = i + 1;
    }
    true
}

/// The paths of the first `n` modules that are to be analyzed.
pub open spec fn analyzed_paths(modules: Seq<ModuleConfig>, n: int) -> Seq<Seq<char>>
    decreases n,
{
    if n <= 0 {
        Seq::empty()
    } else if modules[n - 1].is_deps {
        analyzed_paths(modules, n - 1)
    } else {
        analyzed_paths(modules, n - 1).push(modules[n - 1].path@)
    }
}

/// The modules of a deployment that are to be analyzed: all but those that others only depend on.
/// All modules have to run in isolates.
pub fn modules_to_analyze(modules: &Vec<ModuleConfig>) -> (paths: Result<Vec<String>, ModuleError>)
    ensures
        match paths {
            Ok(paths) => all_isolate(modules@) && paths@.map_values(|path: String| path@)
                == analyzed_paths(modules@, modules@.len() as int),
            Err(error) => !all_isolate(modules@) && error == ModuleError::AnalyzeOutsideIsolate,
        },
{
    if !all_in_isolate(modules) {
        return Err(ModuleError::AnalyzeOutsideIsolate);
    }
    let mut paths: Vec<String> = Vec::new();
    let mut i: usize = 0;
    assert(paths@.map_values(|path: String| path@) =~= analyzed_paths(modules@, 0));
    while i < modules.len()
        invariant
            i <= modules.len(),
            paths@.map_values(|path: String| path@) == analyzed_paths(modules@, i as int),
        decreases modules.len() - i,
    {
        let ghost before = paths@.map_values(|path: String| path@);
        if !modules[i].is_deps {
            paths.push(modules[i].path.clone());
            assert(paths@.map_values(|path: String| path@) =~= before.push(
                modules@[i as int].path@,
            ));
        }
        i = i + 1;
    }
    Ok(paths)
}

/// Checks the definitions of an app before they are evaluated: all of them have to run in isolates.
pub fn check_app_definitions(
    app_definition: &ModuleConfig,
    component_definitions: &Vec<ModuleConfig>,
) -> (checked: Result<(), ModuleError>)
    ensures
        match checked {
            Ok(()) => app_definition.environment == ModuleEnvironment::Isolate && all_isolate(
                component_definitions@,
            ),
            Err(error) => error == ModuleError::EvaluateOutsideIsolate && !(
            app_definition.environment == ModuleEnvironment::Isolate && all_isolate(
                component_definitions@,
            )),
        },
{
    if app_definition.environment != ModuleEnvironment::Isolate {
        return Err(ModuleError::EvaluateOutsideIsolate);
    }
    if !all_in_isolate(component_definitions) {
        return Err(ModuleError::EvaluateOutsideIsolate);
    }
    Ok(())
}

/// The modules that were analyzed so far.
pub struct AnalyzedModules<A> {
    pub modules: StringMap<A>,
}

impl<A> AnalyzedModules<A> {
    pub fn new() -> (analyzed: AnalyzedModules<A>)
        ensures
            analyzed.modules@ == Map::<Seq<char>, A>::empty(),
    {
        AnalyzedModules { modules: StringMap::new() }
    }

    /// Takes in the analysis of a module. An error of the module ends the analysis of all.
    pub fn add_module<E>(&mut self, path: String, answer: Result<A, E>) -> (added: Result<(), E>)
        ensures
            match answer {
                Ok(analyzed) => added is Ok && final(self).modules@ == old(self).modules@.insert(
                    path@,
                    analyzed,
                ),
                Err(error) => added == Err::<(), E>(error) && final(self).modules@ == old(
                    self).modules@,
            },
    {
        match answer {
            Ok(analyzed) => {
                let _ = self.modules.insert(path, analyzed);
                Ok(())
            },
            Err(error) => Err(error),
        }
    }
}

/// A text without a prefix, however often it begins with it.
pub open spec fn without_prefixes(text: Seq<char>, prefix: Seq<char>) -> Seq<char>
    decreases text.len(),
{
    if prefix.len() > 0 && prefix.is_prefix_of(text) {
        without_prefixes(text.skip(prefix.len() as int), prefix)
    } else {
        text
    }
}

/// What the caller is told when the settings of the authentication could not be evaluated.
#[derive(Debug)]
pub enum AuthConfigError {
    /// The error as it is: the evaluation was not begun.
    AsItIs,
    BadRequest { short_msg: &'static str, msg: String },
}

/// What the caller is told, for the error, its text, its text as it came back, and what the settings
/// are.
pub open spec fn auth_config_message(
    original: Seq<char>,
    recaptured: Seq<char>,
    explanation: Seq<char>,
) -> (Seq<char>, Seq<char>) {
    if "Uncaught Error: Environment variable"@.is_prefix_of(original) {
        (
            "AuthConfigMissingEnvironmentVariable"@,
            without_prefixes(recaptured, "Uncaught Error: "@),
        )
    } else {
        ("InvalidAuthConfig"@, explanation + ": "@ + recaptured)
    }
}

/// Says what the caller is told when the settings of the authentication could not be evaluated. A
/// missing environment variable is named without the decoration that the error carries.
pub fn auth_config_error(
    original: &str,
    recaptured: &str,
    rejected_before_execution: bool,
    explanation: &str,
) -> (error: AuthConfigError)
    ensures
        match error {
            AuthConfigError::AsItIs => rejected_before_execution,
            AuthConfigError::BadRequest { short_msg, msg } => !rejected_before_execution && (
            short_msg@, msg@) == auth_config_message(original@, recaptured@, explanation@),
        },
{
    if rejected_before_execution {
        return AuthConfigError::AsItIs;
    }
    let variable = strip_prefix(original, "Uncaught Error: Environment variable");
    proof {
        lemma_prefix(original@, "Uncaught Error: Environment variable"@);
    }
    if variable.is_some() {
        let mut rest = recaptured;
        proof {
            reveal_strlit("Uncaught Error: ");
        }
        let ghost prefix = "Uncaught Error: "@;
        loop
            invariant
                prefix == "Uncaught Error: "@,
                prefix.len() > 0,
                without_prefixes(rest@, prefix) == without_prefixes(recaptured@, prefix),
            ensures
                rest@ == without_prefixes(recaptured@, prefix),
            decreases rest@.len(),
        {
            proof {
                lemma_prefix(rest@, prefix);
            }
            match strip_prefix(rest, "Uncaught Error: ") {
                Some(less) => {
                    assert(rest@.skip(prefix.len() as int) =~= less@);
                    rest = less;
                },
                None => {
                    break ;
                },
            }
        }
        return AuthConfigError::BadRequest {
            short_msg: "AuthConfigMissingEnvironmentVariable",
            msg: rest.to_owned(),
        };
    }
    let mut msg = String::new();
    msg.append(explanation);
    msg.append(": ");
    msg.append(recaptured);
    assert(msg@ =~= explanation@ + ": "@ + recaptured@);
    AuthConfigError::BadRequest { short_msg: "InvalidAuthConfig", msg }
}

proof fn lemma_prefix(text: Seq<char>, prefix: Seq<char>)
    ensures
        prefix.is_prefix_of(text) <==> exists|rest: Seq<char>| text == #[trigger] (prefix + rest),
{
    if prefix.is_prefix_of(text) {
        let rest = text.skip(prefix.len() as int);
        assert(text =~= prefix + rest);
    }
    if exists|rest: Seq<char>| text == #[trigger] (prefix + rest) {
        let rest = choose|rest: Seq<char>| text == #[trigger] (prefix + rest);
        assert(text.take(prefix.len() as int) =~= prefix);
    }
}

/// What the kinds of functions give.
#[derive(Clone, Copy, Debug, PartialEq, Eq, Structural)]
pub enum FunctionOutcomeKind {
    Query,
    Mutation,
    Action,
    HttpAction,
}

/// Whether the outcome of a nested function can be handed to its caller: only queries and mutations
/// are nested.
pub fn check_nested_outcome(kind: FunctionOutcomeKind) -> (checked: Result<(), &'static str>)
    ensures
        match checked {
            Ok(()) => kind is Query || kind is Mutation,
            Err(message) => (kind is Action || kind is HttpAction) && message@
                == "nested udf must be query or mutation"@,
        },
{
    match kind {
        FunctionOutcomeKind::Query => Ok(()),
        FunctionOutcomeKind::Mutation => Ok(()),
        FunctionOutcomeKind::Action => Err("nested udf must be query or mutation"),
        FunctionOutcomeKind::HttpAction => Err("nested udf must be query or mutation"),
    }
}

/// The message when the value that a nested function returned cannot be read.
pub fn nested_value_error(path: &str, message: &str) -> (text: String)
    ensures
        text@ == "Subquery "@ + path@ + " return value invalid: "@ + message@,
{
    let mut text = String::new();
    text.append("Subquery ");
    text.append(path);
    text.append(" return value invalid: ");
    text.append(message);
    assert(text@ =~= "Subquery "@ + path@ + " return value invalid: "@ + message@);
    text
}

/// The heaps of the first `n` workers, added up.
pub open spec fn heap_sum(stats: Seq<IsolateHeapStats>, n: int) -> (int, int, int, int, int, int, int)
    decreases n,
{
    if n <= 0 {
        (0, 0, 0, 0, 0, 0, 0)
    } else {
        let sum = heap_sum(stats, n - 1);
        let last = stats[n - 1];
        (
            sum.0 + last.v8_used_heap_size,
            sum.1 + last.v8_total_heap_size,
            sum.2 + last.v8_total_heap_size_executable,
            sum.3 + last.v8_external_memory_bytes,
            sum.4 + last.v8_total_physical_size,
            sum.5 + last.v8_malloced_memory,
            sum.6 + last.array_buffer_size,
        )
    }
}

/// The parts of the heap of a worker.
pub open spec fn heap_parts(stats: IsolateHeapStats) -> (int, int, int, int, int, int, int) {
    (
        stats.v8_used_heap_size as int,
        stats.v8_total_heap_size as int,
        stats.v8_total_heap_size_executable as int,
        stats.v8_external_memory_bytes as int,
        stats.v8_total_physical_size as int,
        stats.v8_malloced_memory as int,
        stats.array_buffer_size as int,
    )
}

/// Whether sums of heaps can be shown.
pub open spec fn heap_fits(sum: (int, int, int, int, int, int, int)) -> bool {
    &&& sum.0 <= usize::MAX
    &&& sum.1 <= usize::MAX
    &&& sum.2 <= usize::MAX
    &&& sum.3 <= usize::MAX
    &&& sum.4 <= usize::MAX
    &&& sum.5 <= usize::MAX
    &&& sum.6 <= usize::MAX
}

proof fn lemma_heap_sum_grows(stats: Seq<IsolateHeapStats>, n: int, m: int)
    requires
        0 <= n <= m <= stats.len(),
        heap_fits(heap_sum(stats, m)),
    ensures
        heap_fits(heap_sum(stats, n)),
    decreases m - n,
{
    if n < m {
        lemma_heap_sum_grows(stats, n, m - 1);
    }
}

/// Adds up the heaps of all workers.
pub fn aggregate_heap_stats(stats: &Vec<IsolateHeapStats>) -> (total: IsolateHeapStats)
    requires
        heap_fits(heap_sum(stats@, stats@.len() as int)),
    ensures
        heap_parts(total) == heap_sum(stats@, stats@.len() as int),
{
    let mut total = IsolateHeapStats {
        v8_used_heap_size: 0,
        v8_total_heap_size: 0,
        v8_total_heap_size_executable: 0,
        v8_external_memory_bytes: 0,
        v8_total_physical_size: 0,
        v8_malloced_memory: 0,
        array_buffer_size: 0,
    };
    let mut i: usize = 0;
    while i < stats.len()
        invariant
            i <= stats.len(),
            heap_fits(heap_sum(stats@, stats@.len() as int)),
            heap_parts(total) == heap_sum(stats@, i as int),
        decreases stats.len() - i,
    {
        proof {
            lemma_heap_sum_grows(stats@, i + 1, stats@.len() as int);
        }
        let one = stats[i];
        total = IsolateHeapStats {
            v8_used_heap_size: total.v8_used_heap_size + one.v8_used_heap_size,
            v8_total_heap_size: total.v8_total_heap_size + one.v8_total_heap_size,
            v8_total_heap_size_executable: total.v8_total_heap_size_executable
                + one.v8_total_heap_size_executable,
            v8_external_memory_bytes: total.v8_external_memory_bytes
                + one.v8_external_memory_bytes,
            v8_total_physical_size: total.v8_total_physical_size + one.v8_total_physical_size,
            v8_malloced_memory: total.v8_malloced_memory + one.v8_malloced_memory,
            array_buffer_size: total.array_buffer_size + one.array_buffer_size,
        };
        i = i + 1;
    }
    total
}

/// Shows the heaps of all workers together.
pub fn report_heap_stats(stats: &Vec<IsolateHeapStats>, log: &mut MetricLog)
    requires
        heap_fits(heap_sum(stats@, stats@.len() as int)),
    ensures
        exists|total: IsolateHeapStats| #[trigger]
            heap_parts(total) == heap_sum(stats@, stats@.len() as int) && final(log)@ == old(log)@
                + aggregated_heap_updates(total),
{
    let total = aggregate_heap_stats(stats);
    log_aggregated_heap_stats(log, &total);
}

/// Which attempt is made after so many attempts failed in a way that is worth another one, if one is
/// made.
pub open spec fn attempt_after(failures: Seq<(bool, bool)>) -> Option<nat>
    decreases failures.len(),
{
    if failures.len() == 0 {
        Some(1nat)
    } else {
        match attempt_after(failures.drop_last()) {
            Some(attempt) => next_attempt(attempt, failures.last().0, failures.last().1),
            None => None,
        }
    }
}

/// A request of the control plane is tried three times, as long as each failure says that it was not
/// begun or that the system is overloaded; after any other failure, or after the third, it is not
/// tried again.
pub proof fn three_attempts_are_made(failures: Seq<(bool, bool)>)
    ensures
        attempt_after(failures) is Some <==> failures.len() <= 2 && forall|i: int|
            0 <= i < failures.len() ==> (#[trigger] failures[i]).0 || failures[i].1,
        attempt_after(failures) matches Some(attempt) ==> attempt == failures.len() + 1,
    decreases failures.len(),
{
    if failures.len() > 0 {
        let before = failures.drop_last();
        three_attempts_are_made(before);
        assert(forall|i: int| 0 <= i < before.len() ==> #[trigger] before[i] == failures[i]);
        assert(failures.last() == failures[failures.len() - 1]);
    }
}

/// The modules that are analyzed are those that are not there only for others, all of them, each
/// once and in their order.
pub proof fn all_but_dependencies_are_analyzed(modules: Seq<ModuleConfig>, n: int)
    requires
        0 <= n <= modules.len(),
    ensures
        analyzed_paths(modules, n) == modules.take(n).filter(
            |module: ModuleConfig| !module.is_deps,
        ).map_values(|module: ModuleConfig| module.path@),
    decreases n,
{
    reveal(Seq::filter);
    let kept = |module: ModuleConfig| !module.is_deps;
    let path = |module: ModuleConfig| module.path@;
    if n > 0 {
        all_but_dependencies_are_analyzed(modules, n - 1);
        let taken = modules.take(n);
        assert(taken.drop_last() =~= modules.take(n - 1));
        assert(taken.last() == modules[n - 1]);
        let before = modules.take(n - 1).filter(kept);
        assert(taken.filter(kept) == if kept(taken.last()) {
            before.push(taken.last())
        } else {
            before
        });
        assert(before.push(taken.last()).map_values(path) =~= before.map_values(path).push(
            taken.last().path@,
        ));
    } else {
        assert(modules.take(0).filter(kept) =~= Seq::empty());
        assert(modules.take(0).filter(kept).map_values(path) =~= Seq::empty());
    }
}

/// However often a text begins with a prefix, all of them go: one more makes no difference, a text
/// that does not begin with it stays, and what is left does not begin with it.
pub proof fn all_prefixes_go(text: Seq<char>, prefix: Seq<char>)
    requires
        prefix.len() > 0,
    ensures
        without_prefixes(prefix + text, prefix) == without_prefixes(text, prefix),
        !prefix.is_prefix_of(text) ==> without_prefixes(text, prefix) == text,
        !prefix.is_prefix_of(without_prefixes(text, prefix)),
        without_prefixes(text, prefix).len() <= text.len(),
        without_prefixes(text, prefix) == text.skip(
            text.len() - without_prefixes(text, prefix).len(),
        ),
    decreases text.len(),
{
    assert((prefix + text).take(prefix.len() as int) =~= prefix);
    assert(prefix.is_prefix_of(prefix + text));
    assert((prefix + text).skip(prefix.len() as int) =~= text);
    if prefix.is_prefix_of(text) {
        let less = text.skip(prefix.len() as int);
        all_prefixes_go(less, prefix);
        let rest = without_prefixes(less, prefix);
        assert(less.skip(less.len() - rest.len()) =~= text.skip(text.len() - rest.len()));
    } else {
        assert(text.skip(0) =~= text);
    }
}

/// A missing environment variable is told of by its own short message, without the decoration that
/// the error carries; every other error is explained, and told of as it came back.
pub proof fn missing_variables_are_told_plainly(
    original: Seq<char>,
    recaptured: Seq<char>,
    explanation: Seq<char>,
)
    ensures
        ({
            let (short, message) = auth_config_message(original, recaptured, explanation);
            let missing = "Uncaught Error: Environment variable"@.is_prefix_of(original);
            &&& missing ==> short == "AuthConfigMissingEnvironmentVariable"@
            &&& missing ==> !"Uncaught Error: "@.is_prefix_of(message)
            &&& missing && !"Uncaught Error: "@.is_prefix_of(recaptured) ==> message == recaptured
            &&& !missing ==> short == "InvalidAuthConfig"@ && message == explanation + ": "@
                + recaptured
        }),
{
    reveal_strlit("Uncaught Error: ");
    all_prefixes_go(recaptured, "Uncaught Error: "@);
}

/// The heaps of two groups of workers together are those of one and those of the other, part by
/// part, and the heaps of one worker are its own.
pub proof fn heaps_add_up(a: Seq<IsolateHeapStats>, b: Seq<IsolateHeapStats>, n: int)
    requires
        0 <= n <= b.len(),
    ensures
        ({
            let sum = heap_sum(a + b, a.len() + n);
            let first = heap_sum(a, a.len() as int);
            let second = heap_sum(b, n);
            &&& sum.0 == first.0 + second.0
            &&& sum.1 == first.1 + second.1
            &&& sum.2 == first.2 + second.2
            &&& sum.3 == first.3 + second.3
            &&& sum.4 == first.4 + second.4
            &&& sum.5 == first.5 + second.5
            &&& sum.6 == first.6 + second.6
        }),
    decreases n,
{
    if n > 0 {
        heaps_add_up(a, b, n - 1);
        assert((a + b)[a.len() + n - 1] == b[n - 1]);
    } else {
        lemma_heap_prefix(a, b, a.len() as int);
    }
}

proof fn lemma_heap_prefix(a: Seq<IsolateHeapStats>, b: Seq<IsolateHeapStats>, n: int)
    requires
        0 <= n <= a.len(),
    ensures
        heap_sum(a + b, n) == heap_sum(a, n),
    decreases n,
{
    if n > 0 {
        lemma_heap_prefix(a, b, n - 1);
        assert((a + b)[n - 1] == a[n - 1]);
    }
}

/// The heaps of a single worker are its own, each part in its place.
pub proof fn one_heap_is_its_own_sum(stats: IsolateHeapStats)
    ensures
        ({
            let sum = heap_sum(seq![stats], 1);
            &&& sum.0 == stats.v8_used_heap_size
            &&& sum.1 == stats.v8_total_heap_size
            &&& sum.2 == stats.v8_total_heap_size_executable
            &&& sum.3 == stats.v8_external_memory_bytes
            &&& sum.4 == stats.v8_total_physical_size
            &&& sum.5 == stats.v8_malloced_memory
            &&& sum.6 == stats.array_buffer_size
            &&& heap_parts(stats) == sum
        }),
{
    reveal_with_fuel(heap_sum, 2);
}

/// A caller whose request was refused is told that the scheduler is shut down if and only if it is;
/// for every other refusal it is told that too many requests wait, which it may try again.
pub proof fn refused_callers_are_told_why(refusal: IsolateQueueSendError, error: SendRequestError)
    requires
        is_send_error(refusal, error),
    ensures
        error is Shutdown <==> refusal is SchedulerClosed,
        error matches SendRequestError::Full(error) ==> error.short_msg@ == "ExecuteFullError"@,
{
}

/// A request that is sent is counted once, and once more if it uses the reserve; one that is refused
/// is counted as rejected, and as refused for want of room unless the scheduler is shut down.
pub proof fn sent_requests_are_counted(
    pool: Seq<char>,
    properties: RequestSchedulingProperties,
    used_reserve: bool,
    error: IsolateQueueSendError,
)
    ensures
        send_updates(pool, properties, used_reserve).len() == (if used_reserve {
            2nat
        } else {
            1
        }),
        send_updates(pool, properties, used_reserve)[0] == enqueued_update(pool, properties),
        send_failure_updates(pool, properties, error)[0] == request_rejected_update(
            pool,
            properties,
            error.label(),
        ),
        send_failure_updates(pool, properties, error).len() == 1 <==> error is SchedulerClosed,
        !(error is SchedulerClosed) ==> send_failure_updates(pool, properties, error).contains(
            rejection_counted(RejectedBeforeExecutionReason::ExecuteQueueFull),
        ),
{
    let failed = send_failure_updates(pool, properties, error);
    if !(error is SchedulerClosed) {
        assert(failed[2] == rejection_counted(RejectedBeforeExecutionReason::ExecuteQueueFull));
    }
}

} // verus!

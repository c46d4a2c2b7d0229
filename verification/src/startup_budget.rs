//! The memory that the configuration claims at startup, against the limit of the control group.
use vstd::prelude::*;
use vstd::string::*;

use crate::memory_pressure::{no_labels_view, CgroupReadError};
use crate::memory_text::CgroupMemory;
use crate::metric_log::{
    gauge, log_gauge, log_gauge_with_labels, one_label, MetricLog, UpdateView,
};
use crate::number::{decimal, decimal_text};

verus! {

/// A part of the configured memory.
#[derive(Clone, Copy, Debug)]
pub struct MemoryBudgetComponent {
    pub name: &'static str,
    pub bytes: u64,
}

/// The name and the bytes of a part of the budget.
pub open spec fn component_view(component: MemoryBudgetComponent) -> (Seq<char>, int) {
    (component.name@, component.bytes as int)
}

/// The names and the bytes of the parts of a budget.
pub open spec fn component_views(components: Seq<MemoryBudgetComponent>) -> Seq<(Seq<char>, int)> {
    components.map_values(|component: MemoryBudgetComponent| component_view(component))
}

/// The bytes of all parts.
pub open spec fn total(components: Seq<(Seq<char>, int)>) -> int
    decreases components.len(),
{
    if components.len() == 0 {
        0
    } else {
        total(components.drop_last()) + components.last().1
    }
}

/// The memory that the configuration claims.
#[derive(Debug)]
pub struct StartupMemoryBudget {
    pub components: Vec<MemoryBudgetComponent>,
    pub total_bytes: u64,
}

/// Why a startup budget is refused.
#[derive(Clone, Copy, Debug, PartialEq, Eq, Structural)]
pub enum StartupBudgetError {
    TotalOverflow,
    HeapSizeOverflow,
    HeapPoolOverflow,
    ArrayBufferPoolOverflow,
    ExceedsLimit { budget_bytes: u64, limit_bytes: u64 },
    Cgroup(CgroupReadError),
}

impl StartupBudgetError {
    pub open spec fn text(self) -> Seq<char> {
        match self {
            StartupBudgetError::TotalOverflow => "configured startup memory budget overflow"@,
            StartupBudgetError::HeapSizeOverflow => "configured isolate heap size overflow"@,
            StartupBudgetError::HeapPoolOverflow => "configured isolate heap pool overflow"@,
            StartupBudgetError::ArrayBufferPoolOverflow =>
                "configured isolate ArrayBuffer pool overflow"@,
            StartupBudgetError::ExceedsLimit { budget_bytes, limit_bytes } =>
                "Configured startup memory budget exceeds the finite cgroup memory limit: budget="@
                + decimal(budget_bytes as nat) + " bytes, limit="@ + decimal(limit_bytes as nat)
                + " bytes"@,
            StartupBudgetError::Cgroup(error) => error.text(),
        }
    }

    pub fn message(self) -> (message: String)
        ensures
            message@ == self.text(),
    {
        match self {
            StartupBudgetError::TotalOverflow =>
                "configured startup memory budget overflow".to_owned(),
            StartupBudgetError::HeapSizeOverflow =>
                "configured isolate heap size overflow".to_owned(),
            StartupBudgetError::HeapPoolOverflow =>
                "configured isolate heap pool overflow".to_owned(),
            StartupBudgetError::ArrayBufferPoolOverflow =>
                "configured isolate ArrayBuffer pool overflow".to_owned(),
            StartupBudgetError::ExceedsLimit { budget_bytes, limit_bytes } => {
                let mut message =
                    "Configured startup memory budget exceeds the finite cgroup memory limit: budget=".to_owned();
                message.append(decimal_text(budget_bytes).as_str());
                message.append(" bytes, limit=");
                message.append(decimal_text(limit_bytes).as_str());
                message.append(" bytes");
                message
            },
            StartupBudgetError::Cgroup(error) => error.message(),
        }
    }
}

proof fn lemma_total_grows(components: Seq<MemoryBudgetComponent>, i: int)
    requires
        0 <= i <= components.len(),
    ensures
        0 <= total(component_views(components.take(i))) <= total(component_views(components)),
    decreases components.len() - i,
{
    if i == components.len() {
        assert(components.take(i) =~= components);
        lemma_total_positive(components);
    } else {
        lemma_total_grows(components, i + 1);
        let longer = component_views(components.take(i + 1));
        assert(longer.drop_last() =~= component_views(components.take(i)));
        assert(longer.last() == component_view(components[i]));
        lemma_total_positive(components.take(i));
    }
}

proof fn lemma_total_positive(components: Seq<MemoryBudgetComponent>)
    ensures
        total(component_views(components)) >= 0,
{
    lemma_total_of_sizes(component_views(components));
}

proof fn lemma_total_of_sizes(components: Seq<(Seq<char>, int)>)
    requires
        forall|i: int| 0 <= i < components.len() ==> (#[trigger] components[i]).1 >= 0,
    ensures
        total(components) >= 0,
    decreases components.len(),
{
    if components.len() > 0 {
        lemma_total_of_sizes(components.drop_last());
    }
}

impl StartupMemoryBudget {
    /// Adds up the parts of a budget.
    pub fn new(components: Vec<MemoryBudgetComponent>) -> (budget: Result<
        StartupMemoryBudget,
        StartupBudgetError,
    >)
        ensures
            match budget {
                Ok(budget) => {
                    &&& component_views(budget.components@) == component_views(components@)
                    &&& budget.total_bytes == total(component_views(components@))
                },
                Err(error) => {
                    &&& error == StartupBudgetError::TotalOverflow
                    &&& total(component_views(components@)) > u64::MAX
                },
            },
    {
        let mut sum: u64 = 0;
        let mut i: usize = 0;
        assert(component_views(components@.take(0)) =~= Seq::empty());
        while i < components.len()
            invariant
                i <= components.len(),
                sum == total(component_views(components@.take(i as int))),
            decreases components.len() - i,
        {
            proof {
                let longer = component_views(components@.take(i + 1));
                assert(longer.drop_last() =~= component_views(components@.take(i as int)));
                assert(longer.last() == component_view(components@[i as int]));
                lemma_total_grows(components@, i + 1);
            }
            sum = match sum.checked_add(components[i].bytes) {
                Some(sum) => sum,
                None => {
                    return Err(StartupBudgetError::TotalOverflow);
                },
            };
            i = i + 1;
        }
        assert(components@.take(i as int) =~= components@);
        Ok(StartupMemoryBudget { components, total_bytes: sum })
    }
}

/// The configured sizes that claim memory.
#[derive(Clone, Copy, Debug, PartialEq, Eq, Structural)]
pub struct StartupBudgetSettings {
    pub max_isolate_workers: usize,
    pub isolate_max_user_heap_size: usize,
    pub isolate_max_heap_extra_size: usize,
    pub isolate_max_array_buffer_total_size: usize,
    pub udf_cache_max_size: usize,
    pub index_cache_size: u64,
    pub module_cache_max_size_bytes: u64,
    pub funrun_index_cache_size: u64,
    pub funrun_module_cache_size: u64,
    pub funrun_code_cache_size: u64,
    pub local_node_executor_max_rss_bytes: usize,
    pub native_kernel_memory_reserve_bytes: usize,
}

impl StartupBudgetSettings {
    /// The heaps of all isolate workers.
    pub open spec fn heap_pool(self) -> int {
        (self.isolate_max_user_heap_size + self.isolate_max_heap_extra_size)
            * self.max_isolate_workers
    }

    /// The array buffers of all isolate workers.
    pub open spec fn array_buffer_pool(self) -> int {
        self.isolate_max_array_buffer_total_size * self.max_isolate_workers
    }

    /// The parts of the budget, in order.
    pub open spec fn components(self) -> Seq<(Seq<char>, int)> {
        seq![
            ("isolate_heap_pool"@, self.heap_pool()),
            ("isolate_array_buffer_pool"@, self.array_buffer_pool()),
            ("query_cache"@, self.udf_cache_max_size as int),
            ("shared_index_cache"@, self.index_cache_size as int),
            ("application_module_cache"@, self.module_cache_max_size_bytes as int),
            ("function_runner_index_cache"@, self.funrun_index_cache_size as int),
            ("function_runner_module_cache"@, self.funrun_module_cache_size as int),
            ("function_runner_code_cache"@, self.funrun_code_cache_size as int),
            ("local_node_rss_threshold"@, self.local_node_executor_max_rss_bytes as int),
            ("native_kernel_reserve"@, self.native_kernel_memory_reserve_bytes as int),
        ]
    }

    /// Which sum or product is out of range.
    pub open spec fn fault(self) -> Option<StartupBudgetError> {
        if self.isolate_max_user_heap_size + self.isolate_max_heap_extra_size > usize::MAX {
            Some(StartupBudgetError::HeapSizeOverflow)
        } else if self.heap_pool() > u64::MAX {
            Some(StartupBudgetError::HeapPoolOverflow)
        } else if self.array_buffer_pool() > u64::MAX {
            Some(StartupBudgetError::ArrayBufferPoolOverflow)
        } else if total(self.components()) > u64::MAX {
            Some(StartupBudgetError::TotalOverflow)
        } else {
            None
        }
    }
}

fn component(name: &'static str, bytes: u64) -> (component: MemoryBudgetComponent)
    ensures
        component_view(component) == (name@, bytes as int),
{
    MemoryBudgetComponent { name, bytes }
}

/// The budget that the settings claim.
pub fn configured_startup_budget(settings: &StartupBudgetSettings) -> (budget: Result<
    StartupMemoryBudget,
    StartupBudgetError,
>)
    ensures
        match budget {
            Ok(budget) => {
                &&& settings.fault() is None
                &&& component_views(budget.components@) == settings.components()
                &&& budget.total_bytes == total(settings.components())
            },
            Err(error) => settings.fault() == Some(error),
        },
{
    let workers: u64 = settings.max_isolate_workers as u64;
    let heap_per_worker: usize = match settings.isolate_max_user_heap_size.checked_add(
        settings.isolate_max_heap_extra_size,
    ) {
        Some(heap) => heap,
        None => {
            return Err(StartupBudgetError::HeapSizeOverflow);
        },
    };
    let heap_pool: u64 = match (heap_per_worker as u64).checked_mul(workers) {
        Some(pool) => pool,
        None => {
            return Err(StartupBudgetError::HeapPoolOverflow);
        },
    };
    let array_buffer_pool: u64 = match (settings.isolate_max_array_buffer_total_size as u64).checked_mul(
        workers,
    ) {
        Some(pool) => pool,
        None => {
            return Err(StartupBudgetError::ArrayBufferPoolOverflow);
        },
    };
    let mut components: Vec<MemoryBudgetComponent> = Vec::new();
    components.push(component("isolate_heap_pool", heap_pool));
    components.push(component("isolate_array_buffer_pool", array_buffer_pool));
    components.push(component("query_cache", settings.udf_cache_max_size as u64));
    components.push(component("shared_index_cache", settings.index_cache_size));
    components.push(component("application_module_cache", settings.module_cache_max_size_bytes));
    components.push(component("function_runner_index_cache", settings.funrun_index_cache_size));
    components.push(component("function_runner_module_cache", settings.funrun_module_cache_size));
    components.push(component("function_runner_code_cache", settings.funrun_code_cache_size));
    // A sampled trigger for retiring the local node process: a planning allowance, which sampling
    // delay, draining requests and descendants can exceed.
    components.push(
        component(
            "local_node_rss_threshold",
            settings.local_node_executor_max_rss_bytes as u64,
        ),
    );
    components.push(
        component(
            "native_kernel_reserve",
            settings.native_kernel_memory_reserve_bytes as u64,
        ),
    );
    assert(component_views(components@) =~= settings.components());
    StartupMemoryBudget::new(components)
}

/// What is left of the limit of the control group; none where there is no finite limit.
pub fn startup_budget_headroom(cgroup: Option<CgroupMemory>, budget: &StartupMemoryBudget) -> (rest:
    Result<Option<u64>, StartupBudgetError>)
    ensures
        match cgroup {
            Some(CgroupMemory { max_bytes: Some(limit), .. }) => if budget.total_bytes <= limit {
                rest == Ok::<Option<u64>, StartupBudgetError>(
                    Some((limit - budget.total_bytes) as u64),
                )
            } else {
                rest == Err::<Option<u64>, StartupBudgetError>(
                    StartupBudgetError::ExceedsLimit {
                        budget_bytes: budget.total_bytes,
                        limit_bytes: limit,
                    },
                )
            },
            _ => rest == Ok::<Option<u64>, StartupBudgetError>(None),
        },
{
    let limit_bytes: u64 = match cgroup {
        Some(cgroup) => match cgroup.max_bytes {
            Some(limit_bytes) => limit_bytes,
            None => {
                return Ok(None);
            },
        },
        None => {
            return Ok(None);
        },
    };
    if budget.total_bytes > limit_bytes {
        return Err(
            StartupBudgetError::ExceedsLimit { budget_bytes: budget.total_bytes, limit_bytes },
        );
    }
    Ok(Some(limit_bytes - budget.total_bytes))
}

/// The updates that show the first `n` parts of a budget.
pub open spec fn component_updates(components: Seq<(Seq<char>, int)>, n: int) -> Seq<UpdateView> {
    Seq::new(
        n as nat,
        |i: int|
            gauge(
                "backend_startup_memory_budget_bytes"@,
                components[i].1,
                seq![("component"@, components[i].0)],
            ),
    )
}

/// The updates that show a budget.
pub open spec fn budget_updates(components: Seq<(Seq<char>, int)>) -> Seq<UpdateView> {
    component_updates(components, components.len() as int).push(
        gauge(
            "backend_startup_memory_budget_bytes"@,
            total(components),
            seq![("component"@, "configured_total"@)],
        ),
    )
}

/// The updates that show what is left of the limit.
pub open spec fn headroom_updates(headroom: Option<u64>) -> Seq<UpdateView> {
    match headroom {
        Some(bytes) => seq![
            gauge("backend_startup_memory_budget_limit_available_info"@, 1, no_labels_view()),
            gauge("backend_startup_memory_budget_headroom_bytes"@, bytes as int, no_labels_view()),
        ],
        None => seq![
            gauge("backend_startup_memory_budget_limit_available_info"@, 0, no_labels_view()),
        ],
    }
}

/// What is left of the limit of a control group after the configured memory.
pub open spec fn budget_headroom(
    settings: StartupBudgetSettings,
    reading: Result<Option<CgroupMemory>, CgroupReadError>,
) -> Result<Option<u64>, StartupBudgetError> {
    if settings.fault() is Some {
        Err(settings.fault()->0)
    } else {
        match reading {
            Err(error) => Err(StartupBudgetError::Cgroup(error)),
            Ok(Some(CgroupMemory { max_bytes: Some(limit), .. })) => {
                let claimed = total(settings.components());
                if claimed <= limit {
                    Ok(Some((limit - claimed) as u64))
                } else {
                    Err(
                        StartupBudgetError::ExceedsLimit {
                            budget_bytes: claimed as u64,
                            limit_bytes: limit,
                        },
                    )
                }
            },
            Ok(_) => Ok(None),
        }
    }
}

/// Checks the configured memory against the limit of the control group, and shows both. The
/// control group is none where there is no hierarchy or no memory controller.
pub fn validate_startup_budget(
    settings: &StartupBudgetSettings,
    reading: &Result<Option<CgroupMemory>, CgroupReadError>,
    log: &mut MetricLog,
) -> (headroom: Result<Option<u64>, StartupBudgetError>)
    ensures
        headroom == budget_headroom(*settings, *reading),
        final(log)@ == old(log)@ + (if settings.fault() is Some {
            Seq::empty()
        } else {
            budget_updates(settings.components()) + (match headroom {
                Ok(headroom) => headroom_updates(headroom),
                Err(_) => Seq::empty(),
            })
        }),
{
    let budget: StartupMemoryBudget = match configured_startup_budget(settings) {
        Ok(budget) => budget,
        Err(error) => {
            assert(log@ =~= old(log)@ + Seq::<UpdateView>::empty());
            return Err(error);
        },
    };
    let ghost components = settings.components();
    let ghost before = log@;
    let mut i: usize = 0;
    assert(log@ =~= before + component_updates(components, 0));
    while i < budget.components.len()
        invariant
            i <= budget.components.len(),
            component_views(budget.components@) == components,
            log@ == before + component_updates(components, i as int),
        decreases budget.components.len() - i,
    {
        let part = budget.components[i];
        assert(components[i as int] == component_view(part));
        log_gauge_with_labels(
            log,
            "backend_startup_memory_budget_bytes",
            part.bytes,
            one_label("component", part.name),
        );
        assert(log@ =~= before + component_updates(components, i + 1));
        i = i + 1;
    }
    assert(components.len() == budget.components.len());
    log_gauge_with_labels(
        log,
        "backend_startup_memory_budget_bytes",
        budget.total_bytes,
        one_label("component", "configured_total"),
    );
    assert(log@ =~= before + budget_updates(components));
    assert(log@ =~= before + (budget_updates(components) + Seq::empty()));
    let cgroup: Option<CgroupMemory> = match reading {
        Ok(cgroup) => *cgroup,
        Err(error) => {
            return Err(StartupBudgetError::Cgroup(*error));
        },
    };
    match startup_budget_headroom(cgroup, &budget) {
        Err(error) => Err(error),
        Ok(Some(bytes)) => {
            log_gauge(log, "backend_startup_memory_budget_limit_available_info", 1);
            log_gauge(log, "backend_startup_memory_budget_headroom_bytes", bytes);
            assert(log@ =~= before + (budget_updates(components) + headroom_updates(Some(bytes))));
            Ok(Some(bytes))
        },
        Ok(None) => {
            log_gauge(log, "backend_startup_memory_budget_limit_available_info", 0);
            assert(log@ =~= before + (budget_updates(components) + headroom_updates(None)));
            Ok(None)
        },
    }
}

/// What the configuration claims and what is left add up to the limit.
pub proof fn budget_and_headroom_make_up_the_limit(
    settings: StartupBudgetSettings,
    memory: CgroupMemory,
)
    ensures
        budget_headroom(settings, Ok(Some(memory))) matches Ok(Some(rest)) ==> memory.max_bytes
            is Some && total(settings.components()) + rest == memory.max_bytes->0,
{
    assert(settings.heap_pool() >= 0) by (nonlinear_arith)
        requires
            settings.heap_pool() == (settings.isolate_max_user_heap_size
                + settings.isolate_max_heap_extra_size) * settings.max_isolate_workers,
            settings.isolate_max_user_heap_size >= 0,
            settings.isolate_max_heap_extra_size >= 0,
            settings.max_isolate_workers >= 0,
    ;
    assert(settings.array_buffer_pool() >= 0) by (nonlinear_arith)
        requires
            settings.array_buffer_pool() == settings.isolate_max_array_buffer_total_size
                * settings.max_isolate_workers,
            settings.isolate_max_array_buffer_total_size >= 0,
            settings.max_isolate_workers >= 0,
    ;
    lemma_total_of_sizes(settings.components());
}

proof fn lemma_total_push(components: Seq<(Seq<char>, int)>, part: (Seq<char>, int))
    ensures
        total(components.push(part)) == total(components) + part.1,
{
    assert(components.push(part).drop_last() =~= components);
}

/// What two lists of parts claim together is what the one claims and what the other claims.
pub proof fn parts_add_up(a: Seq<(Seq<char>, int)>, b: Seq<(Seq<char>, int)>)
    ensures
        total(a + b) == total(a) + total(b),
    decreases b.len(),
{
    if b.len() > 0 {
        parts_add_up(a, b.drop_last());
        assert((a + b).drop_last() =~= a + b.drop_last());
        assert((a + b).last() == b.last());
    } else {
        assert(a + b =~= a);
    }
}

/// The configuration claims the heaps and array buffers of all workers, each cache once, the
/// allowance for the local node process and the reserve, and nothing else.
pub proof fn the_budget_is_what_is_configured(settings: StartupBudgetSettings)
    ensures
        total(settings.components()) == settings.max_isolate_workers * (
        settings.isolate_max_user_heap_size + settings.isolate_max_heap_extra_size
            + settings.isolate_max_array_buffer_total_size) + settings.udf_cache_max_size
            + settings.index_cache_size + settings.module_cache_max_size_bytes
            + settings.funrun_index_cache_size + settings.funrun_module_cache_size
            + settings.funrun_code_cache_size + settings.local_node_executor_max_rss_bytes
            + settings.native_kernel_memory_reserve_bytes,
{
    let parts = settings.components();
    let heap = settings.isolate_max_user_heap_size + settings.isolate_max_heap_extra_size;
    let buffers = settings.isolate_max_array_buffer_total_size as int;
    let workers = settings.max_isolate_workers as int;
    assert(heap * workers + buffers * workers == workers * (heap + buffers)) by (nonlinear_arith);
    let s0 = Seq::<(Seq<char>, int)>::empty();
    let s1 = s0.push(parts[0]);
    let s2 = s1.push(parts[1]);
    let s3 = s2.push(parts[2]);
    let s4 = s3.push(parts[3]);
    let s5 = s4.push(parts[4]);
    let s6 = s5.push(parts[5]);
    let s7 = s6.push(parts[6]);
    let s8 = s7.push(parts[7]);
    let s9 = s8.push(parts[8]);
    let s10 = s9.push(parts[9]);
    lemma_total_push(s0, parts[0]);
    lemma_total_push(s1, parts[1]);
    lemma_total_push(s2, parts[2]);
    lemma_total_push(s3, parts[3]);
    lemma_total_push(s4, parts[4]);
    lemma_total_push(s5, parts[5]);
    lemma_total_push(s6, parts[6]);
    lemma_total_push(s7, parts[7]);
    lemma_total_push(s8, parts[8]);
    lemma_total_push(s9, parts[9]);
    assert(s10 =~= parts);
}

/// A configuration is refused if and only if what it claims cannot be counted, the control group
/// cannot be read, or it claims more than the limit; without a limit nothing is left to tell.
pub proof fn budgets_are_refused_beyond_the_limit(
    settings: StartupBudgetSettings,
    reading: Result<Option<CgroupMemory>, CgroupReadError>,
)
    requires
        settings.fault() is None,
    ensures
        ({
            let headroom = budget_headroom(settings, reading);
            let claimed = total(settings.components());
            &&& reading matches Err(error) ==> headroom == Err::<Option<u64>, StartupBudgetError>(
                StartupBudgetError::Cgroup(error),
            )
            &&& reading matches Ok(None) ==> headroom == Ok::<Option<u64>, StartupBudgetError>(None)
            &&& reading matches Ok(Some(memory)) ==> match memory.max_bytes {
                None => headroom == Ok::<Option<u64>, StartupBudgetError>(None),
                Some(limit) => {
                    &&& headroom is Ok <==> claimed <= limit
                    &&& headroom is Ok ==> headroom->Ok_0 is Some
                    &&& headroom matches Err(error) ==> error matches StartupBudgetError::ExceedsLimit {
                        budget_bytes,
                        limit_bytes,
                    } && limit_bytes == limit && budget_bytes > limit_bytes
                },
            }
        }),
{
    the_budget_is_what_is_configured(settings);
    let heap = settings.isolate_max_user_heap_size + settings.isolate_max_heap_extra_size
        + settings.isolate_max_array_buffer_total_size;
    let workers = settings.max_isolate_workers as int;
    assert(workers * heap >= 0) by (nonlinear_arith)
        requires
            workers >= 0,
            heap >= 0,
    ;
}

/// What is configured is accepted if and only if the heap of a worker, the heaps and the array
/// buffers of all workers, and all of it together can be counted.
pub proof fn budgets_that_can_be_counted_are_accepted(settings: StartupBudgetSettings)
    ensures
        ({
            let heap = settings.isolate_max_user_heap_size + settings.isolate_max_heap_extra_size;
            settings.fault() is None <==> heap <= usize::MAX && heap * settings.max_isolate_workers
                <= u64::MAX && settings.isolate_max_array_buffer_total_size
                * settings.max_isolate_workers <= u64::MAX && total(settings.components())
                <= u64::MAX
        }),
{
}

} // verus!

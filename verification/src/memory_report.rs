//! Reports of the memory of the process, its allocator and its control group.
use vstd::prelude::*;
use vstd::string::*;

use crate::malloc_info::MallocInfoError;
use crate::memory_pressure::{no_labels_view, CgroupReadError, JemallocConfiguration};
use crate::memory_text::{
    file_text, keyed_u64, parse_keyed_u64, parse_process_status, process_memory, CgroupMemory,
    KeyedFault, KeyedValuesError, ProcessMemory, ProcessStatusError,
};
use crate::metric_log::{
    counter, flag, flag_value, gauge, log_counter, log_gauge, log_gauge_with_labels,
    one_label, MetricLog, MetricOperation, MetricUpdate, MetricValue, UpdateView,
};
use crate::string_map::StringMap;

verus! {

/// How many memory reports are made for one report of the allocator's arenas.
pub const MEMORY_REPORTS_PER_ALLOCATOR_ARENA_REPORT: usize = 20;

/// The largest report of `malloc_info` that is read.
pub const MAX_MALLOC_INFO_BYTES: usize = 4 * 1024 * 1024;

/// What glibc reports of its main arena and its mapped regions.
#[derive(Clone, Copy, Debug, PartialEq, Eq, Structural)]
pub struct MallInfo {
    pub arena: u64,
    pub hblks: u64,
    pub hblkhd: u64,
    pub uordblks: u64,
    pub fordblks: u64,
    pub keepcost: u64,
}

/// The memory of glibc's allocator.
#[derive(Clone, Copy, Debug, PartialEq, Eq, Structural)]
pub struct GlibcAllocatorMemory {
    pub arena_bytes: u64,
    pub mmap_bytes: u64,
    pub in_use_bytes: u64,
    pub free_bytes: u64,
    pub main_arena_top_chunk_bytes: u64,
    pub mmap_regions: u64,
}

/// The memory of jemalloc.
#[derive(Clone, Copy, Debug, PartialEq, Eq, Structural)]
pub struct JemallocMemory {
    pub allocated_bytes: u64,
    pub active_bytes: u64,
    pub metadata_bytes: u64,
    pub resident_bytes: u64,
    pub mapped_bytes: u64,
    pub retained_bytes: u64,
}

/// Why the numbers of an allocator are refused.
#[derive(Clone, Copy, Debug, PartialEq, Eq, Structural)]
pub enum AllocatorMemoryError {
    /// The allocator could not be asked.
    Unreadable,
    ArenaNotReconciled,
    TopChunkExceedsFree,
    AllocatedExceedsActive,
    ActiveExceedsResident,
    MetadataExceedsResident,
    MallocInfoFailed,
    FlushFailed,
    OutputTooLong,
    PositionUnavailable,
    CloseFailed,
    InvalidUtf8,
    MallocInfo(MallocInfoError),
    NoInitializedArenas,
}

impl AllocatorMemoryError {
    pub open spec fn text(self) -> Seq<char> {
        match self {
            AllocatorMemoryError::Unreadable => "allocator could not be read"@,
            AllocatorMemoryError::ArenaNotReconciled =>
                "allocator arena accounting does not reconcile"@,
            AllocatorMemoryError::TopChunkExceedsFree =>
                "allocator main-arena top chunk exceeds free arena bytes"@,
            AllocatorMemoryError::AllocatedExceedsActive =>
                "jemalloc allocated bytes exceed active bytes"@,
            AllocatorMemoryError::ActiveExceedsResident =>
                "jemalloc active bytes exceed resident bytes"@,
            AllocatorMemoryError::MetadataExceedsResident =>
                "jemalloc metadata bytes exceed resident bytes"@,
            AllocatorMemoryError::MallocInfoFailed => "malloc_info failed"@,
            AllocatorMemoryError::FlushFailed => "flushing malloc_info stream failed"@,
            AllocatorMemoryError::OutputTooLong => "malloc_info output exceeded its size limit"@,
            AllocatorMemoryError::PositionUnavailable =>
                "malloc_info stream position is unavailable"@,
            AllocatorMemoryError::CloseFailed => "closing malloc_info stream failed"@,
            AllocatorMemoryError::InvalidUtf8 => "malloc_info returned invalid UTF-8"@,
            AllocatorMemoryError::MallocInfo(error) => error.text(),
            AllocatorMemoryError::NoInitializedArenas =>
                "jemalloc reported no initialized arenas"@,
        }
    }

    pub fn message(self) -> (message: &'static str)
        ensures
            message@ == self.text(),
    {
        match self {
            AllocatorMemoryError::Unreadable => "allocator could not be read",
            AllocatorMemoryError::ArenaNotReconciled =>
                "allocator arena accounting does not reconcile",
            AllocatorMemoryError::TopChunkExceedsFree =>
                "allocator main-arena top chunk exceeds free arena bytes",
            AllocatorMemoryError::AllocatedExceedsActive =>
                "jemalloc allocated bytes exceed active bytes",
            AllocatorMemoryError::ActiveExceedsResident =>
                "jemalloc active bytes exceed resident bytes",
            AllocatorMemoryError::MetadataExceedsResident =>
                "jemalloc metadata bytes exceed resident bytes",
            AllocatorMemoryError::MallocInfoFailed => "malloc_info failed",
            AllocatorMemoryError::FlushFailed => "flushing malloc_info stream failed",
            AllocatorMemoryError::OutputTooLong => "malloc_info output exceeded its size limit",
            AllocatorMemoryError::PositionUnavailable =>
                "malloc_info stream position is unavailable",
            AllocatorMemoryError::CloseFailed => "closing malloc_info stream failed",
            AllocatorMemoryError::InvalidUtf8 => "malloc_info returned invalid UTF-8",
            AllocatorMemoryError::MallocInfo(error) => error.message(),
            AllocatorMemoryError::NoInitializedArenas =>
                "jemalloc reported no initialized arenas",
        }
    }
}

/// What glibc reports, if it can be.
pub open spec fn glibc_memory(info: MallInfo) -> Result<GlibcAllocatorMemory, AllocatorMemoryError> {
    if info.uordblks + info.fordblks != info.arena {
        Err(AllocatorMemoryError::ArenaNotReconciled)
    } else if info.keepcost > info.fordblks {
        Err(AllocatorMemoryError::TopChunkExceedsFree)
    } else {
        Ok(
            GlibcAllocatorMemory {
                arena_bytes: info.arena,
                mmap_bytes: info.hblkhd,
                in_use_bytes: info.uordblks,
                free_bytes: info.fordblks,
                main_arena_top_chunk_bytes: info.keepcost,
                mmap_regions: info.hblks,
            },
        )
    }
}

/// Checks what glibc reports: used and free bytes make up the arena, and the top chunk is free.
pub fn glibc_allocator_memory(info: &MallInfo) -> (memory: Result<
    GlibcAllocatorMemory,
    AllocatorMemoryError,
>)
    ensures
        memory == glibc_memory(*info),
        match memory {
            Ok(memory) => {
                &&& info.uordblks + info.fordblks == info.arena
                &&& info.keepcost <= info.fordblks
                &&& memory == GlibcAllocatorMemory {
                    arena_bytes: info.arena,
                    mmap_bytes: info.hblkhd,
                    in_use_bytes: info.uordblks,
                    free_bytes: info.fordblks,
                    main_arena_top_chunk_bytes: info.keepcost,
                    mmap_regions: info.hblks,
                }
            },
            Err(error) => if info.uordblks + info.fordblks != info.arena {
                error == AllocatorMemoryError::ArenaNotReconciled
            } else {
                info.keepcost > info.fordblks && error == AllocatorMemoryError::TopChunkExceedsFree
            },
        },
{
    match info.uordblks.checked_add(info.fordblks) {
        Some(sum) => {
            if sum != info.arena {
                return Err(AllocatorMemoryError::ArenaNotReconciled);
            }
        },
        None => {
            return Err(AllocatorMemoryError::ArenaNotReconciled);
        },
    }
    if info.keepcost > info.fordblks {
        return Err(AllocatorMemoryError::TopChunkExceedsFree);
    }
    Ok(
        GlibcAllocatorMemory {
            arena_bytes: info.arena,
            mmap_bytes: info.hblkhd,
            in_use_bytes: info.uordblks,
            free_bytes: info.fordblks,
            main_arena_top_chunk_bytes: info.keepcost,
            mmap_regions: info.hblks,
        },
    )
}

/// The first thing that cannot be in what jemalloc reports.
pub open spec fn jemalloc_memory_fault(memory: JemallocMemory) -> Option<AllocatorMemoryError> {
    if memory.allocated_bytes > memory.active_bytes {
        Some(AllocatorMemoryError::AllocatedExceedsActive)
    } else if memory.active_bytes > memory.resident_bytes {
        Some(AllocatorMemoryError::ActiveExceedsResident)
    } else if memory.metadata_bytes > memory.resident_bytes {
        Some(AllocatorMemoryError::MetadataExceedsResident)
    } else {
        None
    }
}

/// Checks what jemalloc reports: allocated bytes are active, active bytes and metadata resident.
pub fn jemalloc_memory(memory: JemallocMemory) -> (checked: Result<
    JemallocMemory,
    AllocatorMemoryError,
>)
    ensures
        match jemalloc_memory_fault(memory) {
            Some(fault) => checked == Err::<JemallocMemory, AllocatorMemoryError>(fault),
            None => checked == Ok::<JemallocMemory, AllocatorMemoryError>(memory),
        },
        checked == (if memory.allocated_bytes > memory.active_bytes {
            Err::<JemallocMemory, AllocatorMemoryError>(
                AllocatorMemoryError::AllocatedExceedsActive,
            )
        } else if memory.active_bytes > memory.resident_bytes {
            Err(AllocatorMemoryError::ActiveExceedsResident)
        } else if memory.metadata_bytes > memory.resident_bytes {
            Err(AllocatorMemoryError::MetadataExceedsResident)
        } else {
            Ok(memory)
        }),
{
    if memory.allocated_bytes > memory.active_bytes {
        return Err(AllocatorMemoryError::AllocatedExceedsActive);
    }
    if memory.active_bytes > memory.resident_bytes {
        return Err(AllocatorMemoryError::ActiveExceedsResident);
    }
    if memory.metadata_bytes > memory.resident_bytes {
        return Err(AllocatorMemoryError::MetadataExceedsResident);
    }
    Ok(memory)
}

/// What the calls that write the report of `malloc_info` to a memory stream returned.
#[derive(Clone, Copy, Debug, PartialEq, Eq, Structural)]
pub struct MallocInfoStream {
    pub info_result: i32,
    pub flush_result: i32,
    pub stream_error: i32,
    pub length: i64,
    pub close_result: i32,
}

/// The first call that failed, for a stream over `capacity` bytes.
pub open spec fn stream_fault(stream: MallocInfoStream, capacity: usize) -> Option<
    AllocatorMemoryError,
> {
    if stream.info_result != 0 {
        Some(AllocatorMemoryError::MallocInfoFailed)
    } else if stream.flush_result != 0 {
        Some(AllocatorMemoryError::FlushFailed)
    } else if stream.stream_error != 0 {
        Some(AllocatorMemoryError::OutputTooLong)
    } else if stream.length < 0 {
        Some(AllocatorMemoryError::PositionUnavailable)
    } else if stream.close_result != 0 {
        Some(AllocatorMemoryError::CloseFailed)
    } else if stream.length >= capacity {
        Some(AllocatorMemoryError::OutputTooLong)
    } else {
        None
    }
}

/// How many bytes of the stream hold the report.
pub fn malloc_info_length(stream: &MallocInfoStream, capacity: usize) -> (length: Result<
    usize,
    AllocatorMemoryError,
>)
    ensures
        match length {
            Ok(length) => stream_fault(*stream, capacity) is None && length == stream.length,
            Err(error) => stream_fault(*stream, capacity) == Some(error),
        },
{
    if stream.info_result != 0 {
        return Err(AllocatorMemoryError::MallocInfoFailed);
    }
    if stream.flush_result != 0 {
        return Err(AllocatorMemoryError::FlushFailed);
    }
    if stream.stream_error != 0 {
        return Err(AllocatorMemoryError::OutputTooLong);
    }
    if stream.length < 0 {
        return Err(AllocatorMemoryError::PositionUnavailable);
    }
    if stream.close_result != 0 {
        return Err(AllocatorMemoryError::CloseFailed);
    }
    let length: u64 = stream.length as u64;
    if length >= capacity as u64 {
        return Err(AllocatorMemoryError::OutputTooLong);
    }
    Ok(length as usize)
}

/// How many flags are set.
pub open spec fn count_set(flags: Seq<bool>) -> nat
    decreases flags.len(),
{
    if flags.len() == 0 {
        0
    } else {
        count_set(flags.drop_last()) + (if flags.last() {
            1nat
        } else {
            0nat
        })
    }
}

/// Counts the arenas of jemalloc that are initialized.
pub fn initialized_arena_count(initialized: &Vec<bool>) -> (count: Result<
    usize,
    AllocatorMemoryError,
>)
    ensures
        match count {
            Ok(count) => count == count_set(initialized@) && count > 0,
            Err(error) => count_set(initialized@) == 0 && error
                == AllocatorMemoryError::NoInitializedArenas,
        },
{
    let mut count: usize = 0;
    let mut i: usize = 0;
    assert(initialized@.take(0) =~= Seq::empty());
    while i < initialized.len()
        invariant
            i <= initialized.len(),
            count <= i,
            count == count_set(initialized@.take(i as int)),
        decreases initialized.len() - i,
    {
        assert(initialized@.take(i + 1).drop_last() =~= initialized@.take(i as int));
        if initialized[i] {
            count = count + 1;
        }
        i = i + 1;
    }
    assert(initialized@.take(i as int) =~= initialized@);
    if count == 0 {
        return Err(AllocatorMemoryError::NoInitializedArenas);
    }
    Ok(count)
}

/// Shows how many arenas the allocator has; none where that is not known.
pub fn report_allocator_arena_count(count: Option<usize>, log: &mut MetricLog)
    ensures
        final(log)@ == old(log)@ + (match count {
            Some(count) => seq![
                gauge("backend_allocator_arena_telemetry_info"@, 1, no_labels_view()),
                gauge("backend_allocator_arenas_info"@, count as int, no_labels_view()),
            ],
            None => seq![gauge("backend_allocator_arena_telemetry_info"@, 0, no_labels_view())],
        }),
{
    match count {
        Some(count) => {
            log_gauge(log, "backend_allocator_arena_telemetry_info", 1);
            log_gauge(log, "backend_allocator_arenas_info", count as u64);
            assert(log@ =~= old(log)@ + seq![
                gauge("backend_allocator_arena_telemetry_info"@, 1, no_labels_view()),
                gauge("backend_allocator_arenas_info"@, count as int, no_labels_view()),
            ]);
        },
        None => {
            log_gauge(log, "backend_allocator_arena_telemetry_info", 0);
            assert(log@ =~= old(log)@ + seq![
                gauge("backend_allocator_arena_telemetry_info"@, 0, no_labels_view()),
            ]);
        },
    }
}

/// Why a source of memory telemetry failed.
#[derive(Debug)]
pub enum SourceError {
    /// A file could not be read.
    Unreadable,
    ProcessStatus(ProcessStatusError),
    Allocator(AllocatorMemoryError),
    Cgroup(CgroupReadError),
    KeyedValues(KeyedValuesError),
    MissingStatAccounting,
    MissingEvent,
    /// The task that takes the sample did not finish.
    BlockingTask,
}

/// What a `SourceError` says.
pub enum SourceFault {
    Unreadable,
    ProcessStatus(ProcessStatusError),
    Allocator(AllocatorMemoryError),
    Cgroup(CgroupReadError),
    KeyedValues(KeyedFault),
    MissingStatAccounting,
    MissingEvent,
    BlockingTask,
}

impl View for SourceError {
    type V = SourceFault;

    open spec fn view(&self) -> SourceFault {
        match self {
            SourceError::Unreadable => SourceFault::Unreadable,
            SourceError::ProcessStatus(error) => SourceFault::ProcessStatus(*error),
            SourceError::Allocator(error) => SourceFault::Allocator(*error),
            SourceError::Cgroup(error) => SourceFault::Cgroup(*error),
            SourceError::KeyedValues(error) => SourceFault::KeyedValues(error@),
            SourceError::MissingStatAccounting => SourceFault::MissingStatAccounting,
            SourceError::MissingEvent => SourceFault::MissingEvent,
            SourceError::BlockingTask => SourceFault::BlockingTask,
        }
    }
}

impl SourceError {
    pub open spec fn text(self) -> Seq<char> {
        match self {
            SourceError::Unreadable => "memory telemetry file could not be read"@,
            SourceError::ProcessStatus(error) => error.text(),
            SourceError::Allocator(error) => error.text(),
            SourceError::Cgroup(error) => error.text(),
            SourceError::KeyedValues(error) => error.text(),
            SourceError::MissingStatAccounting =>
                "cgroup memory.stat is missing required anon or file accounting"@,
            SourceError::MissingEvent => "cgroup memory.events is missing a required event"@,
            SourceError::BlockingTask => "memory telemetry task did not finish"@,
        }
    }

    pub fn message(&self) -> (message: String)
        ensures
            message@ == self.text(),
    {
        match self {
            SourceError::Unreadable => "memory telemetry file could not be read".to_owned(),
            SourceError::ProcessStatus(error) => error.message(),
            SourceError::Allocator(error) => error.message().to_owned(),
            SourceError::Cgroup(error) => error.message(),
            SourceError::KeyedValues(error) => error.message(),
            SourceError::MissingStatAccounting =>
                "cgroup memory.stat is missing required anon or file accounting".to_owned(),
            SourceError::MissingEvent =>
                "cgroup memory.events is missing a required event".to_owned(),
            SourceError::BlockingTask => "memory telemetry task did not finish".to_owned(),
        }
    }
}

/// A source of memory telemetry that failed.
#[derive(Debug)]
pub struct SourceFailure {
    pub source: &'static str,
    pub error: SourceError,
}

/// What a list of failures says.
pub open spec fn failure_views(failures: Seq<SourceFailure>) -> Seq<(Seq<char>, SourceFault)> {
    failures.map_values(|failure: SourceFailure| (failure.source@, failure.error@))
}

/// What the outcome of a sample says.
pub open spec fn outcome_view(outcome: Result<(), SourceError>) -> Result<(), SourceFault> {
    match outcome {
        Ok(_) => Ok(()),
        Err(error) => Err(error@),
    }
}

/// The update that shows whether a source succeeded.
pub open spec fn source_up(source: Seq<char>, up: bool) -> UpdateView {
    gauge("backend_memory_telemetry_source_up_info"@, flag(up), seq![("source"@, source)])
}

fn log_source_up(source: &'static str, up: bool, log: &mut MetricLog)
    ensures
        final(log)@ == old(log)@.push(source_up(source@, up)),
{
    log_gauge_with_labels(
        log,
        "backend_memory_telemetry_source_up_info",
        flag_value(up),
        one_label("source", source),
    );
}

/// The failures after a source was sampled.
pub open spec fn failures_after(
    failures: Seq<(Seq<char>, SourceFault)>,
    source: Seq<char>,
    outcome: Result<(), SourceFault>,
) -> Seq<(Seq<char>, SourceFault)> {
    match outcome {
        Ok(_) => failures,
        Err(error) => failures.push((source, error)),
    }
}

/// Shows whether a source succeeded, and keeps its failure.
pub fn sample_source(
    source: &'static str,
    outcome: Result<(), SourceError>,
    failures: &mut Vec<SourceFailure>,
    log: &mut MetricLog,
)
    ensures
        failure_views(final(failures)@) == failures_after(
            failure_views(old(failures)@),
            source@,
            outcome_view(outcome),
        ),
        final(log)@ == old(log)@.push(source_up(source@, outcome is Ok)),
{
    match outcome {
        Ok(_) => log_source_up(source, true, log),
        Err(error) => {
            log_source_up(source, false, log);
            failures.push(SourceFailure { source, error });
            assert(failure_views(failures@) =~= failure_views(old(failures)@).push(
                (source@, error@),
            ));
        },
    }
}

/// The update that shows one component of a family.
pub open spec fn component_gauge(family: Seq<char>, component: Seq<char>, value: int) -> UpdateView {
    gauge(family, value, seq![("component"@, component)])
}

fn log_component(family: &'static str, component: &'static str, value: u64, log: &mut MetricLog)
    ensures
        final(log)@ == old(log)@.push(component_gauge(family@, component@, value as int)),
{
    log_gauge_with_labels(log, family, value, one_label("component", component));
}

/// The updates that show the memory of a process.
pub open spec fn process_updates(memory: ProcessMemory) -> Seq<UpdateView> {
    let family = "backend_process_memory_bytes"@;
    seq![
        component_gauge(family, "virtual"@, memory.virtual_bytes as int),
        component_gauge(family, "resident"@, memory.resident_bytes as int),
        component_gauge(family, "resident_anon"@, memory.resident_anon_bytes as int),
        component_gauge(family, "resident_file"@, memory.resident_file_bytes as int),
        component_gauge(family, "resident_shmem"@, memory.resident_shmem_bytes as int),
        component_gauge(family, "swap"@, memory.swap_bytes as int),
    ]
}

/// What a process status gives: the memory it reports, or why there is none.
pub open spec fn process_outcome(status: Option<Seq<char>>) -> Result<ProcessMemory, SourceFault> {
    match status {
        None => Err(SourceFault::Unreadable),
        Some(status) => match process_memory(status) {
            Ok(memory) => Ok(memory),
            Err(error) => Err(SourceFault::ProcessStatus(error)),
        },
    }
}

/// Shows the memory that `/proc/self/status` reports; none stands for a file that could not be
/// read.
pub fn report_process_memory(status: Option<&str>, log: &mut MetricLog) -> (outcome: Result<
    (),
    SourceError,
>)
    ensures
        match process_outcome(file_text(status)) {
            Ok(memory) => outcome is Ok && final(log)@ == old(log)@ + process_updates(memory),
            Err(fault) => outcome matches Err(error) && error@ == fault && final(log)@ == old(
                log,
            )@,
        },
{
    let status = match status {
        Some(status) => status,
        None => {
            return Err(SourceError::Unreadable);
        },
    };
    let memory: ProcessMemory = match parse_process_status(status) {
        Ok(memory) => memory,
        Err(error) => {
            return Err(SourceError::ProcessStatus(error));
        },
    };
    let family = "backend_process_memory_bytes";
    log_component(family, "virtual", memory.virtual_bytes, log);
    log_component(family, "resident", memory.resident_bytes, log);
    log_component(family, "resident_anon", memory.resident_anon_bytes, log);
    log_component(family, "resident_file", memory.resident_file_bytes, log);
    log_component(family, "resident_shmem", memory.resident_shmem_bytes, log);
    log_component(family, "swap", memory.swap_bytes, log);
    assert(log@ =~= old(log)@ + process_updates(memory));
    Ok(())
}

/// What the allocator of this build was found to hold.
#[derive(Clone, Copy, Debug)]
pub enum AllocatorSample {
    Glibc(Result<GlibcAllocatorMemory, AllocatorMemoryError>),
    System,
    Jemalloc(Result<(JemallocMemory, JemallocConfiguration), AllocatorMemoryError>),
}

pub open spec fn allocator_selected(name: Seq<char>) -> UpdateView {
    gauge("backend_allocator_selected_info"@, 1, seq![("allocator"@, name)])
}

pub open spec fn allocator_telemetry(available: bool) -> UpdateView {
    gauge("backend_allocator_telemetry_info"@, flag(available), no_labels_view())
}

/// The updates that show the memory of glibc's allocator.
pub open spec fn glibc_updates(memory: GlibcAllocatorMemory) -> Seq<UpdateView> {
    let family = "backend_allocator_memory_bytes"@;
    seq![
        component_gauge(family, "arena"@, memory.arena_bytes as int),
        component_gauge(family, "mmap"@, memory.mmap_bytes as int),
        component_gauge(family, "in_use"@, memory.in_use_bytes as int),
        component_gauge(family, "free"@, memory.free_bytes as int),
        component_gauge(family, "main_arena_top_chunk"@, memory.main_arena_top_chunk_bytes as int),
        gauge(
            "backend_allocator_mmap_regions_info"@,
            memory.mmap_regions as int,
            no_labels_view(),
        ),
    ]
}

/// The updates that show the memory of jemalloc.
pub open spec fn jemalloc_updates(memory: JemallocMemory) -> Seq<UpdateView> {
    let family = "backend_allocator_memory_bytes"@;
    seq![
        component_gauge(family, "allocated"@, memory.allocated_bytes as int),
        component_gauge(family, "active"@, memory.active_bytes as int),
        component_gauge(family, "metadata"@, memory.metadata_bytes as int),
        component_gauge(family, "resident"@, memory.resident_bytes as int),
        component_gauge(family, "mapped"@, memory.mapped_bytes as int),
        component_gauge(family, "retained"@, memory.retained_bytes as int),
    ]
}

/// The updates that show the configuration of jemalloc.
pub open spec fn jemalloc_configuration_updates(c: JemallocConfiguration) -> Seq<UpdateView> {
    let family = "backend_allocator_configuration_info"@;
    seq![
        component_gauge(family, "narenas"@, c.narenas as int),
        component_gauge(family, "dirty_decay_ms"@, c.dirty_decay_ms as int),
        component_gauge(
            family,
            "abort_on_invalid_configuration"@,
            flag(c.abort_on_invalid_configuration),
        ),
        component_gauge(
            family,
            "background_thread_configured"@,
            flag(c.background_thread_configured),
        ),
        component_gauge(family, "background_thread_active"@, flag(c.background_thread_active)),
        component_gauge(family, "statistics_supported"@, flag(c.statistics_supported)),
        component_gauge(family, "profiling_supported"@, flag(c.profiling_supported)),
        component_gauge(family, "profiling_enabled"@, flag(c.profiling_enabled)),
        component_gauge(family, "profiling_active"@, flag(c.profiling_active)),
    ]
}

/// The updates that show what the allocator holds.
pub open spec fn allocator_updates(sample: AllocatorSample) -> Seq<UpdateView> {
    match sample {
        AllocatorSample::Glibc(Ok(memory)) => seq![
            allocator_selected("glibc"@),
            allocator_telemetry(true),
        ] + glibc_updates(memory),
        AllocatorSample::Glibc(Err(_)) => seq![
            allocator_selected("glibc"@),
            allocator_telemetry(false),
        ],
        AllocatorSample::System => seq![allocator_selected("system"@), allocator_telemetry(false)],
        AllocatorSample::Jemalloc(Ok((memory, configuration))) => seq![
            allocator_selected("jemalloc"@),
            allocator_telemetry(true),
        ] + jemalloc_updates(memory) + jemalloc_configuration_updates(configuration),
        AllocatorSample::Jemalloc(Err(_)) => seq![
            allocator_selected("jemalloc"@),
            allocator_telemetry(false),
        ],
    }
}

pub open spec fn allocator_outcome(sample: AllocatorSample) -> Result<(), SourceFault> {
    match sample {
        AllocatorSample::Glibc(Err(error)) => Err(SourceFault::Allocator(error)),
        AllocatorSample::Jemalloc(Err(error)) => Err(SourceFault::Allocator(error)),
        _ => Ok(()),
    }
}

fn log_allocator_selected(name: &'static str, log: &mut MetricLog)
    ensures
        final(log)@ == old(log)@.push(allocator_selected(name@)),
{
    log_gauge_with_labels(log, "backend_allocator_selected_info", 1, one_label("allocator", name));
}

fn log_glibc_memory(memory: &GlibcAllocatorMemory, log: &mut MetricLog)
    ensures
        final(log)@ == old(log)@ + glibc_updates(*memory),
{
    let family = "backend_allocator_memory_bytes";
    log_component(family, "arena", memory.arena_bytes, log);
    log_component(family, "mmap", memory.mmap_bytes, log);
    log_component(family, "in_use", memory.in_use_bytes, log);
    log_component(family, "free", memory.free_bytes, log);
    log_component(family, "main_arena_top_chunk", memory.main_arena_top_chunk_bytes, log);
    log_gauge(log, "backend_allocator_mmap_regions_info", memory.mmap_regions);
    assert(log@ =~= old(log)@ + glibc_updates(*memory));
}

fn log_jemalloc_memory(memory: &JemallocMemory, log: &mut MetricLog)
    ensures
        final(log)@ == old(log)@ + jemalloc_updates(*memory),
{
    let family = "backend_allocator_memory_bytes";
    log_component(family, "allocated", memory.allocated_bytes, log);
    log_component(family, "active", memory.active_bytes, log);
    log_component(family, "metadata", memory.metadata_bytes, log);
    log_component(family, "resident", memory.resident_bytes, log);
    log_component(family, "mapped", memory.mapped_bytes, log);
    log_component(family, "retained", memory.retained_bytes, log);
    assert(log@ =~= old(log)@ + jemalloc_updates(*memory));
}

fn log_jemalloc_configuration(c: &JemallocConfiguration, log: &mut MetricLog)
    ensures
        final(log)@ == old(log)@ + jemalloc_configuration_updates(*c),
{
    let family = "backend_allocator_configuration_info";
    log_component(family, "narenas", c.narenas as u64, log);
    log.record(
        MetricUpdate {
            operation: MetricOperation::SetGauge,
            family,
            value: MetricValue::Integer(c.dirty_decay_ms as i128),
            labels: one_label("component", "dirty_decay_ms"),
        },
    );
    log_component(
        family,
        "abort_on_invalid_configuration",
        flag_value(c.abort_on_invalid_configuration),
        log,
    );
    log_component(
        family,
        "background_thread_configured",
        flag_value(c.background_thread_configured),
        log,
    );
    log_component(
        family,
        "background_thread_active",
        flag_value(c.background_thread_active),
        log,
    );
    log_component(family, "statistics_supported", flag_value(c.statistics_supported), log);
    log_component(family, "profiling_supported", flag_value(c.profiling_supported), log);
    log_component(family, "profiling_enabled", flag_value(c.profiling_enabled), log);
    log_component(family, "profiling_active", flag_value(c.profiling_active), log);
    assert(log@ =~= old(log)@ + jemalloc_configuration_updates(*c));
}

/// Shows what the allocator of this build holds.
pub fn report_allocator_memory(sample: &AllocatorSample, log: &mut MetricLog) -> (outcome: Result<
    (),
    SourceError,
>)
    ensures
        outcome_view(outcome) == allocator_outcome(*sample),
        final(log)@ == old(log)@ + allocator_updates(*sample),
{
    match sample {
        AllocatorSample::Glibc(memory) => {
            log_allocator_selected("glibc", log);
            match memory {
                Ok(memory) => {
                    log_gauge(log, "backend_allocator_telemetry_info", 1);
                    log_glibc_memory(memory, log);
                    assert(log@ =~= old(log)@ + allocator_updates(*sample));
                    Ok(())
                },
                Err(error) => {
                    log_gauge(log, "backend_allocator_telemetry_info", 0);
                    assert(log@ =~= old(log)@ + allocator_updates(*sample));
                    Err(SourceError::Allocator(*error))
                },
            }
        },
        AllocatorSample::System => {
            log_allocator_selected("system", log);
            log_gauge(log, "backend_allocator_telemetry_info", 0);
            assert(log@ =~= old(log)@ + allocator_updates(*sample));
            Ok(())
        },
        AllocatorSample::Jemalloc(state) => {
            log_allocator_selected("jemalloc", log);
            match state {
                Ok((memory, configuration)) => {
                    log_gauge(log, "backend_allocator_telemetry_info", 1);
                    log_jemalloc_memory(memory, log);
                    log_jemalloc_configuration(configuration, log);
                    assert(log@ =~= old(log)@ + allocator_updates(*sample));
                    Ok(())
                },
                Err(error) => {
                    log_gauge(log, "backend_allocator_telemetry_info", 0);
                    assert(log@ =~= old(log)@ + allocator_updates(*sample));
                    Err(SourceError::Allocator(*error))
                },
            }
        },
    }
}

/// The updates that say of each component that it is not available.
pub open spec fn components_unavailable() -> Seq<UpdateView> {
    let family = "backend_cgroup_memory_component_available_info"@;
    seq![
        component_gauge(family, "anon"@, 0),
        component_gauge(family, "file"@, 0),
        component_gauge(family, "kernel"@, 0),
        component_gauge(family, "shmem"@, 0),
        component_gauge(family, "sock"@, 0),
    ]
}

pub open spec fn event_gauge(family: Seq<char>, event: Seq<char>, value: int) -> UpdateView {
    gauge(family, value, seq![("event"@, event)])
}

/// The updates that say of each event that it is not available.
pub open spec fn events_unavailable() -> Seq<UpdateView> {
    let family = "backend_cgroup_memory_event_available_info"@;
    seq![
        event_gauge(family, "low"@, 0),
        event_gauge(family, "high"@, 0),
        event_gauge(family, "max"@, 0),
        event_gauge(family, "oom"@, 0),
        event_gauge(family, "oom_kill"@, 0),
        event_gauge(family, "oom_group_kill"@, 0),
    ]
}

/// Says of each component that it is not available.
pub fn set_cgroup_component_unavailable(log: &mut MetricLog)
    ensures
        final(log)@ == old(log)@ + components_unavailable(),
{
    let family = "backend_cgroup_memory_component_available_info";
    log_component(family, "anon", 0, log);
    log_component(family, "file", 0, log);
    log_component(family, "kernel", 0, log);
    log_component(family, "shmem", 0, log);
    log_component(family, "sock", 0, log);
    assert(log@ =~= old(log)@ + components_unavailable());
}

fn log_event(family: &'static str, event: &'static str, value: u64, log: &mut MetricLog)
    ensures
        final(log)@ == old(log)@.push(event_gauge(family@, event@, value as int)),
{
    log_gauge_with_labels(log, family, value, one_label("event", event));
}

/// Says of each event that it is not available.
pub fn set_cgroup_event_unavailable(log: &mut MetricLog)
    ensures
        final(log)@ == old(log)@ + events_unavailable(),
{
    let family = "backend_cgroup_memory_event_available_info";
    log_event(family, "low", 0, log);
    log_event(family, "high", 0, log);
    log_event(family, "max", 0, log);
    log_event(family, "oom", 0, log);
    log_event(family, "oom_kill", 0, log);
    log_event(family, "oom_group_kill", 0, log);
    assert(log@ =~= old(log)@ + events_unavailable());
}

/// Says of each component and each event that it is not available.
pub fn set_cgroup_field_unavailable(log: &mut MetricLog)
    ensures
        final(log)@ == old(log)@ + components_unavailable() + events_unavailable(),
{
    set_cgroup_component_unavailable(log);
    set_cgroup_event_unavailable(log);
}

/// The updates that show a key: whether it is there, and its number.
pub open spec fn key_updates(
    available: Seq<char>,
    family: Seq<char>,
    label: Seq<char>,
    key: Seq<char>,
    values: Map<Seq<char>, u64>,
) -> Seq<UpdateView> {
    if values.dom().contains(key) {
        seq![
            gauge(available, 1, seq![(label, key)]),
            gauge(family, values[key] as int, seq![(label, key)]),
        ]
    } else {
        seq![gauge(available, 0, seq![(label, key)])]
    }
}

fn log_key(
    available: &'static str,
    family: &'static str,
    label: &'static str,
    key: &'static str,
    values: &StringMap<u64>,
    log: &mut MetricLog,
)
    ensures
        final(log)@ == old(log)@ + key_updates(available@, family@, label@, key@, values@),
{
    match values.get(key) {
        Some(value) => {
            log_gauge_with_labels(log, available, 1, one_label(label, key));
            log_gauge_with_labels(log, family, *value, one_label(label, key));
        },
        None => {
            log_gauge_with_labels(log, available, 0, one_label(label, key));
        },
    }
    assert(log@ =~= old(log)@ + key_updates(available@, family@, label@, key@, values@));
}

/// The keys and numbers of a file, or why there are none.
pub open spec fn keyed_outcome(file: Option<Seq<char>>) -> Result<Map<Seq<char>, u64>, SourceFault> {
    match file {
        None => Err(SourceFault::Unreadable),
        Some(file) => match keyed_u64(file) {
            Ok(values) => Ok(values),
            Err(fault) => Err(SourceFault::KeyedValues(fault)),
        },
    }
}

fn read_keyed(file: Option<&str>) -> (values: Result<StringMap<u64>, SourceError>)
    ensures
        match values {
            Ok(values) => keyed_outcome(file_text(file)) == Ok::<Map<Seq<char>, u64>, SourceFault>(
                values@,
            ),
            Err(error) => keyed_outcome(file_text(file)) == Err::<
                Map<Seq<char>, u64>,
                SourceFault,
            >(error@),
        },
{
    match file {
        None => Err(SourceError::Unreadable),
        Some(file) => match parse_keyed_u64(file) {
            Ok(values) => Ok(values),
            Err(error) => Err(SourceError::KeyedValues(error)),
        },
    }
}

/// The updates that show the components of `memory.stat`.
pub open spec fn stat_updates(values: Map<Seq<char>, u64>) -> Seq<UpdateView> {
    let available = "backend_cgroup_memory_component_available_info"@;
    let family = "backend_cgroup_memory_bytes"@;
    key_updates(available, family, "component"@, "anon"@, values) + key_updates(
        available,
        family,
        "component"@,
        "file"@,
        values,
    ) + key_updates(available, family, "component"@, "kernel"@, values) + key_updates(
        available,
        family,
        "component"@,
        "shmem"@,
        values,
    ) + key_updates(available, family, "component"@, "sock"@, values)
}

/// What `memory.stat` gives: anonymous and file memory must be accounted.
pub open spec fn stat_outcome(file: Option<Seq<char>>) -> Result<(), SourceFault> {
    match keyed_outcome(file) {
        Err(fault) => Err(fault),
        Ok(values) => if values.dom().contains("anon"@) && values.dom().contains("file"@) {
            Ok(())
        } else {
            Err(SourceFault::MissingStatAccounting)
        },
    }
}

/// Shows the components of `memory.stat`. The gauges of values keep their last sample; those of
/// availability tell of this attempt.
pub fn report_cgroup_stat(stat: Option<&str>, log: &mut MetricLog) -> (outcome: Result<
    (),
    SourceError,
>)
    ensures
        outcome_view(outcome) == stat_outcome(file_text(stat)),
        final(log)@ == old(log)@ + components_unavailable() + (match keyed_outcome(
            file_text(stat),
        ) {
            Ok(values) => stat_updates(values),
            Err(_) => Seq::empty(),
        }),
{
    set_cgroup_component_unavailable(log);
    assert(log@ =~= log@ + Seq::<UpdateView>::empty());
    let values: StringMap<u64> = match read_keyed(stat) {
        Ok(values) => values,
        Err(error) => {
            return Err(error);
        },
    };
    let available = "backend_cgroup_memory_component_available_info";
    let family = "backend_cgroup_memory_bytes";
    let ghost before = log@;
    log_key(available, family, "component", "anon", &values, log);
    log_key(available, family, "component", "file", &values, log);
    log_key(available, family, "component", "kernel", &values, log);
    log_key(available, family, "component", "shmem", &values, log);
    log_key(available, family, "component", "sock", &values, log);
    assert(log@ =~= before + stat_updates(values@));
    if values.contains_key("anon") && values.contains_key("file") {
        Ok(())
    } else {
        Err(SourceError::MissingStatAccounting)
    }
}

/// The updates that show one event of `memory.events`.
pub open spec fn one_event_updates(event: Seq<char>, values: Map<Seq<char>, u64>) -> Seq<
    UpdateView,
> {
    key_updates(
        "backend_cgroup_memory_event_available_info"@,
        "backend_cgroup_memory_events_info"@,
        "event"@,
        event,
        values,
    )
}

/// The updates that show the events that every kernel reports.
pub open spec fn event_updates(values: Map<Seq<char>, u64>) -> Seq<UpdateView> {
    one_event_updates("low"@, values) + one_event_updates("high"@, values) + one_event_updates(
        "max"@,
        values,
    ) + one_event_updates("oom"@, values) + one_event_updates("oom_kill"@, values)
}

/// Whether all events that every kernel reports are there.
pub open spec fn has_required_events(values: Map<Seq<char>, u64>) -> bool {
    &&& values.dom().contains("low"@)
    &&& values.dom().contains("high"@)
    &&& values.dom().contains("max"@)
    &&& values.dom().contains("oom"@)
    &&& values.dom().contains("oom_kill"@)
}

/// What `memory.events` gives.
pub open spec fn events_outcome(file: Option<Seq<char>>) -> Result<(), SourceFault> {
    match keyed_outcome(file) {
        Err(fault) => Err(fault),
        Ok(values) => if has_required_events(values) {
            Ok(())
        } else {
            Err(SourceFault::MissingEvent)
        },
    }
}

/// The updates that `memory.events` makes.
pub open spec fn events_shown(file: Option<Seq<char>>) -> Seq<UpdateView> {
    match keyed_outcome(file) {
        Err(_) => Seq::empty(),
        Ok(values) => if has_required_events(values) {
            event_updates(values) + one_event_updates("oom_group_kill"@, values)
        } else {
            event_updates(values)
        },
    }
}

/// Shows the events of `memory.events`. The gauges of values keep their last sample; those of
/// availability tell of this attempt.
pub fn report_cgroup_events(events: Option<&str>, log: &mut MetricLog) -> (outcome: Result<
    (),
    SourceError,
>)
    ensures
        outcome_view(outcome) == events_outcome(file_text(events)),
        final(log)@ == old(log)@ + events_unavailable() + events_shown(file_text(events)),
{
    set_cgroup_event_unavailable(log);
    assert(log@ =~= log@ + Seq::<UpdateView>::empty());
    let values: StringMap<u64> = match read_keyed(events) {
        Ok(values) => values,
        Err(error) => {
            return Err(error);
        },
    };
    let available = "backend_cgroup_memory_event_available_info";
    let family = "backend_cgroup_memory_events_info";
    let ghost before = log@;
    log_key(available, family, "event", "low", &values, log);
    log_key(available, family, "event", "high", &values, log);
    log_key(available, family, "event", "max", &values, log);
    log_key(available, family, "event", "oom", &values, log);
    log_key(available, family, "event", "oom_kill", &values, log);
    assert(log@ =~= before + event_updates(values@));
    if !(values.contains_key("low") && values.contains_key("high") && values.contains_key("max")
        && values.contains_key("oom") && values.contains_key("oom_kill")) {
        return Err(SourceError::MissingEvent);
    }
    log_key(available, family, "event", "oom_group_kill", &values, log);
    assert(log@ =~= before + (event_updates(values@) + one_event_updates(
        "oom_group_kill"@,
        values@,
    )));
    Ok(())
}

/// What a look at the controller gives to the report.
pub open spec fn controller_outcome(cgroup: Result<Option<CgroupMemory>, CgroupReadError>) -> Result<
    (),
    SourceFault,
> {
    match cgroup {
        Ok(_) => Ok(()),
        Err(error) => Err(SourceFault::Cgroup(error)),
    }
}

/// The updates that show whether the control group is there, and its memory.
pub open spec fn controller_updates(cgroup: Result<Option<CgroupMemory>, CgroupReadError>) -> Seq<
    UpdateView,
> {
    let info = "backend_cgroup_memory_controller_info"@;
    let limited = "backend_cgroup_memory_limited_info"@;
    let bytes = "backend_cgroup_memory_bytes"@;
    let none = no_labels_view();
    let found = match cgroup {
        Ok(_) => seq![source_up("cgroup_controller"@, true)],
        Err(_) => seq![gauge(info, 0, none), source_up("cgroup_controller"@, false)],
    };
    found + (match cgroup {
        Ok(Some(memory)) => seq![
            gauge(info, 1, none),
            component_gauge(bytes, "current"@, memory.current_bytes as int),
        ] + (match memory.max_bytes {
            Some(max) => seq![
                gauge(limited, 1, none),
                component_gauge(bytes, "max"@, max as int),
            ],
            None => seq![gauge(limited, 0, none)],
        }),
        _ => seq![
            gauge(info, 0, none),
            gauge(limited, 0, none),
            source_up("cgroup_stat"@, false),
            source_up("cgroup_events"@, false),
        ] + components_unavailable() + events_unavailable(),
    })
}

/// The updates that the report of a control group makes.
pub open spec fn cgroup_report_updates(
    cgroup: Result<Option<CgroupMemory>, CgroupReadError>,
    stat: Option<Seq<char>>,
    events: Option<Seq<char>>,
) -> Seq<UpdateView> {
    controller_updates(cgroup) + (match cgroup {
        Ok(Some(_)) => components_unavailable() + (match keyed_outcome(stat) {
            Ok(values) => stat_updates(values),
            Err(_) => Seq::empty(),
        }) + seq![source_up("cgroup_stat"@, stat_outcome(stat) is Ok)] + events_unavailable()
            + events_shown(events) + seq![
            source_up("cgroup_events"@, events_outcome(events) is Ok),
        ],
        _ => Seq::empty(),
    })
}

/// The failures after the report of a control group.
pub open spec fn cgroup_report_failures(
    failures: Seq<(Seq<char>, SourceFault)>,
    cgroup: Result<Option<CgroupMemory>, CgroupReadError>,
    stat: Option<Seq<char>>,
    events: Option<Seq<char>>,
) -> Seq<(Seq<char>, SourceFault)> {
    let first = failures_after(failures, "cgroup_controller"@, controller_outcome(cgroup));
    match cgroup {
        Ok(Some(_)) => failures_after(
            failures_after(first, "cgroup_stat"@, stat_outcome(stat)),
            "cgroup_events"@,
            events_outcome(events),
        ),
        _ => first,
    }
}

/// Shows the memory of the control group: none where there is no controller. The files are looked
/// at only where there is one.
pub fn report_cgroup_memory(
    cgroup: &Result<Option<CgroupMemory>, CgroupReadError>,
    stat: Option<&str>,
    events: Option<&str>,
    failures: &mut Vec<SourceFailure>,
    log: &mut MetricLog,
)
    ensures
        failure_views(final(failures)@) == cgroup_report_failures(
            failure_views(old(failures)@),
            *cgroup,
            file_text(stat),
            file_text(events),
        ),
        final(log)@ == old(log)@ + cgroup_report_updates(
            *cgroup,
            file_text(stat),
            file_text(events),
        ),
{
    let found: Option<CgroupMemory> = match cgroup {
        Ok(found) => {
            log_source_up("cgroup_controller", true, log);
            *found
        },
        Err(error) => {
            log_gauge(log, "backend_cgroup_memory_controller_info", 0);
            sample_source("cgroup_controller", Err(SourceError::Cgroup(*error)), failures, log);
            None
        },
    };
    let memory: CgroupMemory = match found {
        Some(memory) => memory,
        None => {
            log_gauge(log, "backend_cgroup_memory_controller_info", 0);
            log_gauge(log, "backend_cgroup_memory_limited_info", 0);
            log_source_up("cgroup_stat", false, log);
            log_source_up("cgroup_events", false, log);
            set_cgroup_field_unavailable(log);
            assert(log@ =~= old(log)@ + cgroup_report_updates(
                *cgroup,
                file_text(stat),
                file_text(events),
            ));
            return;
        },
    };
    log_gauge(log, "backend_cgroup_memory_controller_info", 1);
    log_component("backend_cgroup_memory_bytes", "current", memory.current_bytes, log);
    match memory.max_bytes {
        Some(max_bytes) => {
            log_gauge(log, "backend_cgroup_memory_limited_info", 1);
            log_component("backend_cgroup_memory_bytes", "max", max_bytes, log);
        },
        None => log_gauge(log, "backend_cgroup_memory_limited_info", 0),
    }
    assert(log@ =~= old(log)@ + controller_updates(*cgroup));
    let stat_result = report_cgroup_stat(stat, log);
    sample_source("cgroup_stat", stat_result, failures, log);
    let events_result = report_cgroup_events(events, log);
    sample_source("cgroup_events", events_result, failures, log);
    assert(log@ =~= old(log)@ + cgroup_report_updates(
        *cgroup,
        file_text(stat),
        file_text(events),
    ));
}

/// What a process status gives to the report.
pub open spec fn process_report_outcome(status: Option<Seq<char>>) -> Result<(), SourceFault> {
    match process_outcome(status) {
        Ok(_) => Ok(()),
        Err(fault) => Err(fault),
    }
}

/// The updates that a report of all sources makes.
pub open spec fn report_updates(
    status: Option<Seq<char>>,
    allocator: AllocatorSample,
    cgroup: Result<Option<CgroupMemory>, CgroupReadError>,
    stat: Option<Seq<char>>,
    events: Option<Seq<char>>,
) -> Seq<UpdateView> {
    (match process_outcome(status) {
        Ok(memory) => process_updates(memory),
        Err(_) => Seq::empty(),
    }) + seq![source_up("process"@, process_outcome(status) is Ok)] + allocator_updates(allocator)
        + seq![source_up("allocator"@, allocator_outcome(allocator) is Ok)] + cgroup_report_updates(
        cgroup,
        stat,
        events,
    )
}

/// The failures of a report of all sources.
pub open spec fn report_failures(
    status: Option<Seq<char>>,
    allocator: AllocatorSample,
    cgroup: Result<Option<CgroupMemory>, CgroupReadError>,
    stat: Option<Seq<char>>,
    events: Option<Seq<char>>,
) -> Seq<(Seq<char>, SourceFault)> {
    cgroup_report_failures(
        failures_after(
            failures_after(Seq::empty(), "process"@, process_report_outcome(status)),
            "allocator"@,
            allocator_outcome(allocator),
        ),
        cgroup,
        stat,
        events,
    )
}

/// Shows the memory of the process, the allocator and the control group, and gives the sources
/// that failed. A file that could not be read is none.
pub fn report_with_cgroup(
    status: Option<&str>,
    allocator: &AllocatorSample,
    cgroup: &Result<Option<CgroupMemory>, CgroupReadError>,
    stat: Option<&str>,
    events: Option<&str>,
    log: &mut MetricLog,
) -> (failures: Vec<SourceFailure>)
    ensures
        failure_views(failures@) == report_failures(
            file_text(status),
            *allocator,
            *cgroup,
            file_text(stat),
            file_text(events),
        ),
        final(log)@ == old(log)@ + report_updates(
            file_text(status),
            *allocator,
            *cgroup,
            file_text(stat),
            file_text(events),
        ),
{
    let mut failures: Vec<SourceFailure> = Vec::new();
    assert(failure_views(failures@) =~= Seq::empty());
    let process = report_process_memory(status, log);
    sample_source("process", process, &mut failures, log);
    let memory = report_allocator_memory(allocator, log);
    sample_source("allocator", memory, &mut failures, log);
    report_cgroup_memory(cgroup, stat, events, &mut failures, log);
    assert(log@ =~= old(log)@ + report_updates(
        file_text(status),
        *allocator,
        *cgroup,
        file_text(stat),
        file_text(events),
    ));
    failures
}

/// The updates that are made when the task that takes the sample did not finish.
pub open spec fn lost_report_updates() -> Seq<UpdateView> {
    seq![
        allocator_telemetry(false),
        gauge("backend_cgroup_memory_controller_info"@, 0, no_labels_view()),
        gauge("backend_cgroup_memory_limited_info"@, 0, no_labels_view()),
    ] + components_unavailable() + events_unavailable() + seq![
        source_up("process"@, false),
        source_up("allocator"@, false),
        source_up("cgroup_controller"@, false),
        source_up("cgroup_stat"@, false),
        source_up("cgroup_events"@, false),
    ]
}

/// Shows that the task that takes the sample did not finish.
pub fn report_lost(log: &mut MetricLog) -> (failures: Vec<SourceFailure>)
    ensures
        failure_views(failures@) == seq![("blocking_task"@, SourceFault::BlockingTask)],
        final(log)@ == old(log)@ + lost_report_updates(),
{
    log_gauge(log, "backend_allocator_telemetry_info", 0);
    log_gauge(log, "backend_cgroup_memory_controller_info", 0);
    log_gauge(log, "backend_cgroup_memory_limited_info", 0);
    set_cgroup_field_unavailable(log);
    log_source_up("process", false, log);
    log_source_up("allocator", false, log);
    log_source_up("cgroup_controller", false, log);
    log_source_up("cgroup_stat", false, log);
    log_source_up("cgroup_events", false, log);
    assert(log@ =~= old(log)@ + lost_report_updates());
    let mut failures: Vec<SourceFailure> = Vec::new();
    failures.push(SourceFailure { source: "blocking_task", error: SourceError::BlockingTask });
    assert(failure_views(failures@) =~= seq![("blocking_task"@, SourceFault::BlockingTask)]);
    failures
}

/// Shows how often memory could not be reported before the first report is made: not at all.
pub fn announce_memory_telemetry(log: &mut MetricLog)
    ensures
        final(log)@ == old(log)@.push(
            counter("backend_memory_telemetry_failures_total"@, 0, no_labels_view()),
        ),
{
    log_counter(log, "backend_memory_telemetry_failures_total", 0);
}

/// The updates that close a report.
pub open spec fn closing_updates(failures: nat) -> Seq<UpdateView> {
    let up = gauge("backend_memory_telemetry_up_info"@, flag(failures == 0), no_labels_view());
    if failures == 0 {
        seq![up]
    } else {
        seq![up, counter("backend_memory_telemetry_failures_total"@, 1, no_labels_view())]
    }
}

/// Shows whether a report had failures.
pub fn close_report(failures: &Vec<SourceFailure>, log: &mut MetricLog)
    ensures
        final(log)@ == old(log)@ + closing_updates(failures@.len()),
{
    log_gauge(log, "backend_memory_telemetry_up_info", flag_value(failures.len() == 0));
    if failures.len() != 0 {
        log_counter(log, "backend_memory_telemetry_failures_total", 1);
    }
    assert(log@ =~= old(log)@ + closing_updates(failures@.len()));
}

/// Shows that the arenas of the allocator could not be counted.
pub fn report_arena_failure(log: &mut MetricLog)
    ensures
        final(log)@ == old(log)@ + seq![
            gauge("backend_allocator_arena_telemetry_info"@, 0, no_labels_view()),
            counter("backend_memory_telemetry_failures_total"@, 1, no_labels_view()),
        ],
{
    log_gauge(log, "backend_allocator_arena_telemetry_info", 0);
    log_counter(log, "backend_memory_telemetry_failures_total", 1);
    assert(log@ =~= old(log)@ + seq![
        gauge("backend_allocator_arena_telemetry_info"@, 0, no_labels_view()),
        counter("backend_memory_telemetry_failures_total"@, 1, no_labels_view()),
    ]);
}

/// How many reports were made since the last one with arenas, once one more is made.
pub open spec fn reports_with_one_more(reports: nat) -> nat {
    (reports + 1) % (MEMORY_REPORTS_PER_ALLOCATOR_ARENA_REPORT as nat)
}

/// When the arenas of the allocator are counted: at the first memory report and then at each one
/// after a full round of reports.
#[derive(Clone, Copy, Debug, PartialEq, Eq, Structural)]
pub struct ReportCadence {
    memory_reports_since_arena_report: usize,
}

impl ReportCadence {
    /// How many reports were made since the last one with arenas.
    pub closed spec fn reports(self) -> nat {
        self.memory_reports_since_arena_report as nat
    }

    #[verifier::type_invariant]
    spec fn within_round(self) -> bool {
        self.memory_reports_since_arena_report < MEMORY_REPORTS_PER_ALLOCATOR_ARENA_REPORT
    }

    pub fn new() -> (cadence: ReportCadence)
        ensures
            cadence.reports() == 0,
    {
        ReportCadence { memory_reports_since_arena_report: 0 }
    }

    /// Whether the arenas are counted with the memory report that is due.
    pub fn arena_report_is_due(&self) -> (due: bool)
        ensures
            due == (self.reports() == 0),
    {
        self.memory_reports_since_arena_report == 0
    }

    /// Counts a memory report.
    pub fn advance(&mut self)
        ensures
            final(self).reports() == reports_with_one_more(old(self).reports()),
            final(self).reports() == (old(self).reports() + 1)
                % MEMORY_REPORTS_PER_ALLOCATOR_ARENA_REPORT as nat,
    {
        proof {
            use_type_invariant(&*self);
        }
        let next: usize = (self.memory_reports_since_arena_report + 1)
            % MEMORY_REPORTS_PER_ALLOCATOR_ARENA_REPORT;
        self.memory_reports_since_arena_report = next;
    }
}

/// What glibc reports is accepted if and only if used and free bytes make up the arena and the top
/// chunk is free; it is then shown as it was reported, each number in its place.
pub proof fn used_and_free_bytes_make_up_the_arena(info: MallInfo)
    ensures
        glibc_memory(info) is Ok <==> info.arena == info.uordblks + info.fordblks && info.keepcost
            <= info.fordblks,
        glibc_memory(info) matches Ok(memory) ==> {
            &&& memory.in_use_bytes + memory.free_bytes == memory.arena_bytes
            &&& memory.main_arena_top_chunk_bytes <= memory.free_bytes
            &&& memory.in_use_bytes == info.uordblks
            &&& memory.main_arena_top_chunk_bytes == info.keepcost
            &&& memory.mmap_bytes == info.hblkhd
            &&& memory.mmap_regions == info.hblks
        },
{
}

/// What jemalloc reports is accepted if and only if what is allocated is active, and what is active
/// and the metadata are resident.
pub proof fn allocated_bytes_are_active_and_resident(memory: JemallocMemory)
    ensures
        jemalloc_memory_fault(memory) is None <==> memory.allocated_bytes <= memory.active_bytes
            <= memory.resident_bytes && memory.metadata_bytes <= memory.resident_bytes,
{
}

/// A report of the arenas can be read if and only if every call succeeded and it fits with a byte to
/// spare.
pub proof fn complete_streams_are_read(stream: MallocInfoStream, capacity: usize)
    ensures
        stream_fault(stream, capacity) is None <==> stream.info_result == 0 && stream.flush_result
            == 0 && stream.stream_error == 0 && stream.close_result == 0 && 0 <= stream.length
            < capacity,
{
}

/// The arenas that are counted are those that are initialized.
pub proof fn initialized_arenas_are_counted(flags: Seq<bool>)
    ensures
        count_set(flags) == flags.filter(|set: bool| set).len(),
        count_set(flags) == 0 <==> !flags.contains(true),
    decreases flags.len(),
{
    reveal(Seq::filter);
    let set = |set: bool| set;
    if flags.len() > 0 {
        initialized_arenas_are_counted(flags.drop_last());
        let before = flags.drop_last();
        assert(flags.filter(set) == if flags.last() {
            before.filter(set).push(true)
        } else {
            before.filter(set)
        });
        if flags.last() {
            assert(flags[flags.len() - 1]);
        } else if before.contains(true) {
            let i = choose|i: int| 0 <= i < before.len() && before[i];
            assert(flags[i]);
        } else if flags.contains(true) {
            let i = choose|i: int| 0 <= i < flags.len() && flags[i];
            assert(before[i]);
        }
    }
}

/// How many reports were made since the last one with arenas, after so many reports.
pub open spec fn reports_after(n: nat) -> nat
    decreases n,
{
    if n == 0 {
        0
    } else {
        reports_with_one_more(reports_after((n - 1) as nat))
    }
}

/// The arenas are counted with the first report, and then with every twentieth.
pub proof fn arenas_are_counted_with_every_twentieth_report(n: nat)
    ensures
        reports_after(n) == n % 20,
    decreases n,
{
    if n > 0 {
        arenas_are_counted_with_every_twentieth_report((n - 1) as nat);
        let m = (n - 1) as nat;
        assert((m % 20 + 1) % 20 == (m + 1) % 20) by (nonlinear_arith);
    }
}

/// The statistics of a control group are complete if and only if they can be read and account for
/// anonymous memory and files; its events if and only if they can be read and hold each of the five
/// that every kernel reports.
pub proof fn complete_files_are_accepted(file: Option<Seq<char>>)
    ensures
        stat_outcome(file) is Ok <==> (keyed_outcome(file) matches Ok(values)
            && values.dom().contains("anon"@) && values.dom().contains("file"@)),
        events_outcome(file) is Ok <==> (keyed_outcome(file) matches Ok(values)
            && values.dom().contains("low"@) && values.dom().contains("high"@)
            && values.dom().contains("max"@) && values.dom().contains("oom"@)
            && values.dom().contains("oom_kill"@)),
        keyed_outcome(file) is Ok <==> (file matches Some(text) && keyed_u64(text) is Ok),
{
}

/// A number of a file is shown if and only if it is there, and then as it is.
pub proof fn numbers_are_shown_where_they_are(
    available: Seq<char>,
    family: Seq<char>,
    label: Seq<char>,
    key: Seq<char>,
    values: Map<Seq<char>, u64>,
)
    ensures
        ({
            let updates = key_updates(available, family, label, key, values);
            &&& updates[0].family == available && updates[0].value == MetricValue::Integer(
                if values.dom().contains(key) {
                    1
                } else {
                    0
                },
            )
            &&& updates.len() == 2 <==> values.dom().contains(key)
            &&& updates.len() == 2 ==> updates[1].family == family && updates[1].value
                == MetricValue::Integer(values[key] as i128)
            &&& 1 <= updates.len() <= 2
        }),
{
}

/// A report has failures if and only if a source failed; without a memory controller its files are
/// not looked at, and cannot fail. Each failure is kept once, under the name of its source.
pub proof fn failures_are_those_of_the_sources(
    status: Option<Seq<char>>,
    allocator: AllocatorSample,
    cgroup: Result<Option<CgroupMemory>, CgroupReadError>,
    stat: Option<Seq<char>>,
    events: Option<Seq<char>>,
)
    ensures
        ({
            let failures = report_failures(status, allocator, cgroup, stat, events);
            let found = cgroup matches Ok(Some(_));
            let one = |failed: bool|
                if failed {
                    1int
                } else {
                    0
                };
            &&& failures.len() == one(process_outcome(status) is Err) + one(
                allocator_outcome(allocator) is Err,
            ) + one(cgroup is Err) + one(found && stat_outcome(stat) is Err) + one(
                found && events_outcome(events) is Err,
            )
            &&& process_outcome(status) matches Err(fault) ==> failures[0] == ("process"@, fault)
            &&& cgroup matches Err(error) ==> failures.last() == (
                "cgroup_controller"@,
                SourceFault::Cgroup(error),
            )
            &&& found && events_outcome(events) is Err ==> failures.last() == (
                "cgroup_events"@,
                events_outcome(events)->Err_0,
            )
        }),
{
}

/// A report is shown as up if and only if nothing failed, and counts as one failure otherwise,
/// however many sources failed.
pub proof fn failed_reports_count_once(failures: nat)
    ensures
        closing_updates(failures)[0].value == MetricValue::Integer(
            if failures == 0 {
                1
            } else {
                0
            },
        ),
        closing_updates(failures).len() == 2 <==> failures > 0,
        failures > 0 ==> closing_updates(failures)[1] == counter(
            "backend_memory_telemetry_failures_total"@,
            1,
            no_labels_view(),
        ),
{
}

} // verus!

//! Explicit trims of the allocator: when one is run, and what it changed.
use vstd::prelude::*;
use vstd::string::*;

use crate::memory_pressure::{AllocatorBuild, CgroupReadError};
use crate::memory_report::{
    component_gauge, keyed_outcome, process_outcome, AllocatorMemoryError, GlibcAllocatorMemory,
    SourceError, SourceFault,
};
use crate::memory_text::{
    file_text, parse_keyed_u64, parse_process_status, CgroupMemory, ProcessMemory,
};
use crate::metric_log::{
    counter, flag, flag_value, gauge, log_counter_with_labels, log_gauge, no_labels,
    one_label, MetricLog, MetricOperation,
    MetricUpdate, MetricValue, UpdateView,
};
use crate::string_map::StringMap;
use crate::time::Duration;

verus! {

/// The page faults of the process so far.
#[derive(Clone, Copy, Debug, PartialEq, Eq, Structural)]
pub struct PageFaults {
    pub minor: u64,
    pub major: u64,
}

/// The memory around a trim.
#[derive(Clone, Copy, Debug, PartialEq, Eq, Structural)]
pub struct AllocatorTrimSnapshot {
    pub process: ProcessMemory,
    pub allocator: Option<GlibcAllocatorMemory>,
    pub cgroup_current_bytes: u64,
    pub cgroup_anon_bytes: u64,
    pub page_faults: PageFaults,
}

/// Why a trim or its measurement failed.
#[derive(Debug)]
pub enum AllocatorTrimError {
    Source(SourceError),
    NoController,
    NoAnonymousAccounting,
    PageFaultsUnavailable,
    MinorFaultsDecreased,
    MajorFaultsDecreased,
    WorkerStopped,
}

/// What an `AllocatorTrimError` says.
pub enum TrimFault {
    Source(SourceFault),
    NoController,
    NoAnonymousAccounting,
    PageFaultsUnavailable,
    MinorFaultsDecreased,
    MajorFaultsDecreased,
    WorkerStopped,
}

impl View for AllocatorTrimError {
    type V = TrimFault;

    open spec fn view(&self) -> TrimFault {
        match self {
            AllocatorTrimError::Source(error) => TrimFault::Source(error@),
            AllocatorTrimError::NoController => TrimFault::NoController,
            AllocatorTrimError::NoAnonymousAccounting => TrimFault::NoAnonymousAccounting,
            AllocatorTrimError::PageFaultsUnavailable => TrimFault::PageFaultsUnavailable,
            AllocatorTrimError::MinorFaultsDecreased => TrimFault::MinorFaultsDecreased,
            AllocatorTrimError::MajorFaultsDecreased => TrimFault::MajorFaultsDecreased,
            AllocatorTrimError::WorkerStopped => TrimFault::WorkerStopped,
        }
    }
}

impl AllocatorTrimError {
    pub open spec fn text(self) -> Seq<char> {
        match self {
            AllocatorTrimError::Source(error) => error.text(),
            AllocatorTrimError::NoController =>
                "allocator trim requires the cgroup v2 memory controller"@,
            AllocatorTrimError::NoAnonymousAccounting =>
                "allocator trim requires cgroup anonymous-memory accounting"@,
            AllocatorTrimError::PageFaultsUnavailable =>
                "getrusage failed for allocator trim telemetry"@,
            AllocatorTrimError::MinorFaultsDecreased =>
                "process minor page-fault counter decreased during allocator trim"@,
            AllocatorTrimError::MajorFaultsDecreased =>
                "process major page-fault counter decreased during allocator trim"@,
            AllocatorTrimError::WorkerStopped =>
                "allocator trim worker stopped without a result"@,
        }
    }

    pub fn message(&self) -> (message: String)
        ensures
            message@ == self.text(),
    {
        match self {
            AllocatorTrimError::Source(error) => error.message(),
            AllocatorTrimError::NoController =>
                "allocator trim requires the cgroup v2 memory controller".to_owned(),
            AllocatorTrimError::NoAnonymousAccounting =>
                "allocator trim requires cgroup anonymous-memory accounting".to_owned(),
            AllocatorTrimError::PageFaultsUnavailable =>
                "getrusage failed for allocator trim telemetry".to_owned(),
            AllocatorTrimError::MinorFaultsDecreased =>
                "process minor page-fault counter decreased during allocator trim".to_owned(),
            AllocatorTrimError::MajorFaultsDecreased =>
                "process major page-fault counter decreased during allocator trim".to_owned(),
            AllocatorTrimError::WorkerStopped =>
                "allocator trim worker stopped without a result".to_owned(),
        }
    }
}

/// What was read for a snapshot; a file that could not be read is none.
pub struct SnapshotSources<'a> {
    pub status: Option<&'a str>,
    pub allocator: Result<Option<GlibcAllocatorMemory>, AllocatorMemoryError>,
    pub cgroup: Result<Option<CgroupMemory>, CgroupReadError>,
    pub stat: Option<&'a str>,
    pub page_faults: Option<PageFaults>,
}

/// The snapshot that the sources make up, or the first one that fails.
pub open spec fn snapshot_of(sources: SnapshotSources<'_>) -> Result<
    AllocatorTrimSnapshot,
    TrimFault,
> {
    match process_outcome(file_text(sources.status)) {
        Err(fault) => Err(TrimFault::Source(fault)),
        Ok(process) => match sources.allocator {
            Err(error) => Err(TrimFault::Source(SourceFault::Allocator(error))),
            Ok(allocator) => match sources.cgroup {
                Err(error) => Err(TrimFault::Source(SourceFault::Cgroup(error))),
                Ok(None) => Err(TrimFault::NoController),
                Ok(Some(memory)) => match keyed_outcome(file_text(sources.stat)) {
                    Err(fault) => Err(TrimFault::Source(fault)),
                    Ok(stat) => if !stat.dom().contains("anon"@) {
                        Err(TrimFault::NoAnonymousAccounting)
                    } else {
                        match sources.page_faults {
                            None => Err(TrimFault::PageFaultsUnavailable),
                            Some(page_faults) => Ok(
                                AllocatorTrimSnapshot {
                                    process,
                                    allocator,
                                    cgroup_current_bytes: memory.current_bytes,
                                    cgroup_anon_bytes: stat["anon"@],
                                    page_faults,
                                },
                            ),
                        }
                    },
                },
            },
        },
    }
}

/// Takes a snapshot of the memory from what was read.
pub fn allocator_trim_snapshot(sources: &SnapshotSources<'_>) -> (snapshot: Result<
    AllocatorTrimSnapshot,
    AllocatorTrimError,
>)
    ensures
        match snapshot {
            Ok(snapshot) => snapshot_of(*sources) == Ok::<AllocatorTrimSnapshot, TrimFault>(
                snapshot,
            ),
            Err(error) => snapshot_of(*sources) == Err::<AllocatorTrimSnapshot, TrimFault>(error@),
        },
{
    let status = match sources.status {
        Some(status) => status,
        None => {
            return Err(AllocatorTrimError::Source(SourceError::Unreadable));
        },
    };
    let process: ProcessMemory = match parse_process_status(status) {
        Ok(process) => process,
        Err(error) => {
            return Err(AllocatorTrimError::Source(SourceError::ProcessStatus(error)));
        },
    };
    let allocator: Option<GlibcAllocatorMemory> = match sources.allocator {
        Ok(allocator) => allocator,
        Err(error) => {
            return Err(AllocatorTrimError::Source(SourceError::Allocator(error)));
        },
    };
    let memory: CgroupMemory = match sources.cgroup {
        Ok(Some(memory)) => memory,
        Ok(None) => {
            return Err(AllocatorTrimError::NoController);
        },
        Err(error) => {
            return Err(AllocatorTrimError::Source(SourceError::Cgroup(error)));
        },
    };
    let stat_text = match sources.stat {
        Some(stat) => stat,
        None => {
            return Err(AllocatorTrimError::Source(SourceError::Unreadable));
        },
    };
    let stat: StringMap<u64> = match parse_keyed_u64(stat_text) {
        Ok(stat) => stat,
        Err(error) => {
            return Err(AllocatorTrimError::Source(SourceError::KeyedValues(error)));
        },
    };
    let cgroup_anon_bytes: u64 = match stat.get("anon") {
        Some(bytes) => *bytes,
        None => {
            return Err(AllocatorTrimError::NoAnonymousAccounting);
        },
    };
    let page_faults: PageFaults = match sources.page_faults {
        Some(page_faults) => page_faults,
        None => {
            return Err(AllocatorTrimError::PageFaultsUnavailable);
        },
    };
    Ok(
        AllocatorTrimSnapshot {
            process,
            allocator,
            cgroup_current_bytes: memory.current_bytes,
            cgroup_anon_bytes,
            page_faults,
        },
    )
}

/// What comes next in a trim.
#[derive(Clone, Copy, Debug, PartialEq, Eq, Structural)]
pub enum AllocatorTrimStep {
    /// This build cannot trim: nothing is sampled.
    Unsupported,
    /// The memory before the trim is to be sampled.
    TakeSnapshot,
    /// Too little memory is free for a trim.
    BelowFreeThreshold,
    /// The allocator is to be trimmed.
    Trim,
}

/// What comes next in a trim.
pub open spec fn trim_step(
    build: AllocatorBuild,
    before: Option<&AllocatorTrimSnapshot>,
    min_free_bytes: u64,
) -> AllocatorTrimStep {
    match (build, before) {
        (AllocatorBuild::Glibc, None) => AllocatorTrimStep::TakeSnapshot,
        (AllocatorBuild::Glibc, Some(before)) => match before.allocator {
            Some(allocator) => if allocator.free_bytes >= min_free_bytes {
                AllocatorTrimStep::Trim
            } else {
                AllocatorTrimStep::BelowFreeThreshold
            },
            None => AllocatorTrimStep::Unsupported,
        },
        _ => AllocatorTrimStep::Unsupported,
    }
}

/// Decides what comes next in a trim: without a snapshot, or with the one taken before it.
pub fn measure_allocator_trim(
    build: &AllocatorBuild,
    before: Option<&AllocatorTrimSnapshot>,
    min_free_bytes: u64,
) -> (step: AllocatorTrimStep)
    ensures
        step == trim_step(*build, before, min_free_bytes),
        step == (if *build != AllocatorBuild::Glibc {
            AllocatorTrimStep::Unsupported
        } else {
            match before {
                None => AllocatorTrimStep::TakeSnapshot,
                Some(before) => match before.allocator {
                    None => AllocatorTrimStep::Unsupported,
                    Some(allocator) => if allocator.free_bytes < min_free_bytes {
                        AllocatorTrimStep::BelowFreeThreshold
                    } else {
                        AllocatorTrimStep::Trim
                    },
                },
            }
        }),
{
    if *build != AllocatorBuild::Glibc {
        return AllocatorTrimStep::Unsupported;
    }
    match before {
        None => AllocatorTrimStep::TakeSnapshot,
        Some(before) => match before.allocator {
            None => AllocatorTrimStep::Unsupported,
            Some(allocator) => {
                if allocator.free_bytes < min_free_bytes {
                    AllocatorTrimStep::BelowFreeThreshold
                } else {
                    AllocatorTrimStep::Trim
                }
            },
        },
    }
}

/// How much a number of bytes changed: negative where memory was released.
pub fn signed_memory_change(before: u64, after: u64) -> (change: i128)
    ensures
        change == after - before,
{
    after as i128 - before as i128
}

/// The update that counts an attempt to trim.
pub open spec fn attempt(outcome: Seq<char>) -> UpdateView {
    counter("backend_allocator_trim_attempts_total"@, 1, seq![("outcome"@, outcome)])
}

/// Counts an attempt to trim.
pub fn log_allocator_trim_attempt(outcome: &'static str, log: &mut MetricLog)
    ensures
        final(log)@ == old(log)@.push(attempt(outcome@)),
{
    log_counter_with_labels(
        log,
        "backend_allocator_trim_attempts_total",
        1,
        one_label("outcome", outcome),
    );
}

/// The update that shows how a component changed.
pub open spec fn change_update(component: Seq<char>, before: u64, after: u64) -> UpdateView {
    component_gauge("backend_allocator_trim_memory_change_bytes"@, component, after - before)
}

fn log_trim_memory_change(component: &'static str, before: u64, after: u64, log: &mut MetricLog)
    ensures
        final(log)@ == old(log)@.push(change_update(component@, before, after)),
{
    log.record(
        MetricUpdate {
            operation: MetricOperation::SetGauge,
            family: "backend_allocator_trim_memory_change_bytes",
            value: MetricValue::Integer(signed_memory_change(before, after)),
            labels: one_label("component", component),
        },
    );
}

/// The updates that show what a trim changed.
pub open spec fn change_updates(
    before: AllocatorTrimSnapshot,
    after: AllocatorTrimSnapshot,
) -> Seq<UpdateView> {
    seq![
        change_update(
            "process_resident"@,
            before.process.resident_bytes,
            after.process.resident_bytes,
        ),
        change_update(
            "process_resident_anon"@,
            before.process.resident_anon_bytes,
            after.process.resident_anon_bytes,
        ),
        change_update("cgroup_current"@, before.cgroup_current_bytes, after.cgroup_current_bytes),
        change_update("cgroup_anon"@, before.cgroup_anon_bytes, after.cgroup_anon_bytes),
    ] + (if before.allocator is Some && after.allocator is Some {
        seq![
            change_update(
                "allocator_free"@,
                before.allocator->0.free_bytes,
                after.allocator->0.free_bytes,
            ),
        ]
    } else {
        Seq::empty()
    }) + seq![
        counter(
            "backend_allocator_trim_page_faults_total"@,
            after.page_faults.minor - before.page_faults.minor,
            seq![("kind"@, "minor"@)],
        ),
        counter(
            "backend_allocator_trim_page_faults_total"@,
            after.page_faults.major - before.page_faults.major,
            seq![("kind"@, "major"@)],
        ),
    ]
}

/// The update that records how long a trim took.
pub open spec fn trim_seconds(elapsed: Duration) -> UpdateView {
    UpdateView {
        operation: MetricOperation::RecordDistribution,
        family: "backend_allocator_trim_seconds"@,
        value: MetricValue::Seconds(elapsed),
        labels: Seq::empty(),
    }
}

pub open spec fn returned_name(returned: bool) -> Seq<char> {
    if returned {
        "returned_true"@
    } else {
        "returned_false"@
    }
}

/// Why a finished trim counts as a failed sample.
pub open spec fn trim_fault(
    before: AllocatorTrimSnapshot,
    after: Result<AllocatorTrimSnapshot, TrimFault>,
) -> Option<TrimFault> {
    match after {
        Err(fault) => Some(fault),
        Ok(after) => if after.page_faults.minor < before.page_faults.minor {
            Some(TrimFault::MinorFaultsDecreased)
        } else if after.page_faults.major < before.page_faults.major {
            Some(TrimFault::MajorFaultsDecreased)
        } else {
            None
        },
    }
}

/// What the outcome of a snapshot says.
pub open spec fn snapshot_view(snapshot: Result<AllocatorTrimSnapshot, AllocatorTrimError>) -> Result<
    AllocatorTrimSnapshot,
    TrimFault,
> {
    match snapshot {
        Ok(snapshot) => Ok(snapshot),
        Err(error) => Err(error@),
    }
}

/// Shows whether the allocator is being trimmed.
pub fn log_allocator_trim_active(active: bool, log: &mut MetricLog)
    ensures
        final(log)@ == old(log)@.push(
            gauge("backend_allocator_trim_active_info"@, flag(active), Seq::empty()),
        ),
{
    log_gauge(log, "backend_allocator_trim_active_info", flag_value(active));
}

/// Shows a finished trim: how long it took, what it changed, and what it returned.
pub fn finish_allocator_trim(
    before: &AllocatorTrimSnapshot,
    after: Result<AllocatorTrimSnapshot, AllocatorTrimError>,
    returned: bool,
    elapsed: Duration,
    log: &mut MetricLog,
) -> (outcome: Result<(), AllocatorTrimError>)
    ensures
        match outcome {
            Ok(_) => {
                &&& trim_fault(*before, snapshot_view(after)) is None
                &&& after matches Ok(after) && final(log)@ == old(log)@.push(trim_seconds(elapsed))
                    + change_updates(*before, after) + seq![attempt(returned_name(returned))]
            },
            Err(error) => {
                &&& trim_fault(*before, snapshot_view(after)) == Some(error@)
                &&& final(log)@ == old(log)@.push(trim_seconds(elapsed)).push(
                    attempt("sample_failure"@),
                )
            },
        },
{
    log.record(
        MetricUpdate {
            operation: MetricOperation::RecordDistribution,
            family: "backend_allocator_trim_seconds",
            value: MetricValue::Seconds(elapsed),
            labels: no_labels(),
        },
    );
    let ghost timed = log@;
    let after: AllocatorTrimSnapshot = match after {
        Ok(after) => after,
        Err(error) => {
            log_allocator_trim_attempt("sample_failure", log);
            return Err(error);
        },
    };
    let minor: u64 = match after.page_faults.minor.checked_sub(before.page_faults.minor) {
        Some(minor) => minor,
        None => {
            log_allocator_trim_attempt("sample_failure", log);
            return Err(AllocatorTrimError::MinorFaultsDecreased);
        },
    };
    let major: u64 = match after.page_faults.major.checked_sub(before.page_faults.major) {
        Some(major) => major,
        None => {
            log_allocator_trim_attempt("sample_failure", log);
            return Err(AllocatorTrimError::MajorFaultsDecreased);
        },
    };
    log_trim_memory_change(
        "process_resident",
        before.process.resident_bytes,
        after.process.resident_bytes,
        log,
    );
    log_trim_memory_change(
        "process_resident_anon",
        before.process.resident_anon_bytes,
        after.process.resident_anon_bytes,
        log,
    );
    log_trim_memory_change(
        "cgroup_current",
        before.cgroup_current_bytes,
        after.cgroup_current_bytes,
        log,
    );
    log_trim_memory_change("cgroup_anon", before.cgroup_anon_bytes, after.cgroup_anon_bytes, log);
    match (before.allocator, after.allocator) {
        (Some(before_allocator), Some(after_allocator)) => {
            log_trim_memory_change(
                "allocator_free",
                before_allocator.free_bytes,
                after_allocator.free_bytes,
                log,
            );
        },
        _ => {},
    }
    log_counter_with_labels(
        log,
        "backend_allocator_trim_page_faults_total",
        minor,
        one_label("kind", "minor"),
    );
    log_counter_with_labels(
        log,
        "backend_allocator_trim_page_faults_total",
        major,
        one_label("kind", "major"),
    );
    assert(log@ =~= timed + change_updates(*before, after));
    log_allocator_trim_attempt(
        if returned {
            "returned_true"
        } else {
            "returned_false"
        },
        log,
    );
    assert(log@ =~= timed + change_updates(*before, after) + seq![
        attempt(returned_name(returned)),
    ]);
    Ok(())
}

/// How a trim run ended, before its result is shown.
pub enum AllocatorTrimRun {
    Unsupported,
    BelowFreeThreshold,
    Failed(AllocatorTrimError),
    Completed {
        before: AllocatorTrimSnapshot,
        after: Result<AllocatorTrimSnapshot, AllocatorTrimError>,
        returned: bool,
        elapsed: Duration,
    },
}

/// Shows how a trim run ended.
pub fn run_allocator_trim(run: AllocatorTrimRun, log: &mut MetricLog) -> (outcome: Result<
    (),
    AllocatorTrimError,
>)
    ensures
        match run {
            AllocatorTrimRun::Unsupported => outcome is Ok && final(log)@ == old(log)@.push(
                attempt("unsupported"@),
            ),
            AllocatorTrimRun::BelowFreeThreshold => outcome is Ok && final(log)@ == old(log)@,
            AllocatorTrimRun::Failed(error) => outcome == Err::<(), AllocatorTrimError>(error)
                && final(log)@ == old(log)@.push(attempt("sample_failure"@)),
            AllocatorTrimRun::Completed { before, after, returned, elapsed } => match trim_fault(
                before,
                snapshot_view(after),
            ) {
                None => outcome is Ok && final(log)@ == old(log)@.push(trim_seconds(elapsed))
                    + change_updates(before, after->Ok_0) + seq![attempt(returned_name(returned))],
                Some(fault) => outcome matches Err(error) && error@ == fault && final(log)@ == old(
                    log,
                )@.push(trim_seconds(elapsed)).push(attempt("sample_failure"@)),
            },
        },
{
    match run {
        AllocatorTrimRun::Unsupported => {
            log_allocator_trim_attempt("unsupported", log);
            Ok(())
        },
        AllocatorTrimRun::BelowFreeThreshold => Ok(()),
        AllocatorTrimRun::Failed(error) => {
            log_allocator_trim_attempt("sample_failure", log);
            Err(error)
        },
        AllocatorTrimRun::Completed { before, after, returned, elapsed } => {
            finish_allocator_trim(&before, after, returned, elapsed, log)
        },
    }
}

/// What was heard from the worker that trims.
pub enum TrimWorkerReply {
    /// It is still at work.
    Empty,
    /// It finished.
    Finished(Result<(), AllocatorTrimError>),
    /// It is gone without a result.
    Disconnected,
}

/// The result of the worker that trims, if there is one.
pub fn try_result(reply: TrimWorkerReply, log: &mut MetricLog) -> (result: Option<
    Result<(), AllocatorTrimError>,
>)
    ensures
        match reply {
            TrimWorkerReply::Empty => result is None && final(log)@ == old(log)@,
            TrimWorkerReply::Finished(outcome) => result == Some(outcome) && final(log)@ == old(
                log,
            )@,
            TrimWorkerReply::Disconnected => {
                &&& result matches Some(Err(error)) && error@ == TrimFault::WorkerStopped
                &&& final(log)@ == old(log)@.push(attempt("sample_failure"@))
            },
        },
{
    match reply {
        TrimWorkerReply::Empty => None,
        TrimWorkerReply::Finished(outcome) => Some(outcome),
        TrimWorkerReply::Disconnected => {
            log_allocator_trim_attempt("sample_failure", log);
            Some(Err(AllocatorTrimError::WorkerStopped))
        },
    }
}

/// The allocator is trimmed if and only if it is that of GNU libc, its memory was looked at, and as
/// much of it is free as asked for; a build that cannot trim is not even looked at.
pub proof fn trims_need_enough_free_memory(
    build: AllocatorBuild,
    before: Option<&AllocatorTrimSnapshot>,
    min_free_bytes: u64,
)
    ensures
        ({
            let step = trim_step(build, before, min_free_bytes);
            &&& step is Trim <==> build is Glibc && (before matches Some(before) && (
            before.allocator matches Some(allocator) && min_free_bytes <= allocator.free_bytes))
            &&& step is TakeSnapshot <==> build is Glibc && before is None
            &&& step is BelowFreeThreshold <==> build is Glibc && (before matches Some(before) && (
            before.allocator matches Some(allocator) && allocator.free_bytes < min_free_bytes))
            &&& !(build is Glibc) ==> step is Unsupported
        }),
{
}

/// A trim counts as well measured if and only if the memory could be looked at afterwards and
/// neither number of page faults went down.
pub proof fn page_faults_only_grow(
    before: AllocatorTrimSnapshot,
    after: Result<AllocatorTrimSnapshot, TrimFault>,
)
    ensures
        trim_fault(before, after) is None <==> (after matches Ok(after) && before.page_faults.minor
            <= after.page_faults.minor && before.page_faults.major <= after.page_faults.major),
        after matches Err(fault) ==> trim_fault(before, after) == Some(fault),
        trim_fault(before, after) == Some(TrimFault::MinorFaultsDecreased) && after is Ok
            ==> after->Ok_0.page_faults.minor < before.page_faults.minor,
        trim_fault(before, after) == Some(TrimFault::MajorFaultsDecreased) && after is Ok
            ==> after->Ok_0.page_faults.major < before.page_faults.major,
{
}

/// A snapshot holds what the sources say, each in its place, and there is one if and only if all of
/// them can be read, the control group is found, and its anonymous memory is accounted for.
pub proof fn snapshots_hold_what_was_read(sources: SnapshotSources<'_>)
    ensures
        snapshot_of(sources) is Ok <==> process_outcome(file_text(sources.status)) is Ok
            && sources.allocator is Ok && (sources.cgroup matches Ok(Some(_))) && (keyed_outcome(
            file_text(sources.stat),
        ) matches Ok(stat) && stat.dom().contains("anon"@)) && sources.page_faults is Some,
        snapshot_of(sources) matches Ok(snapshot) ==> {
            &&& process_outcome(file_text(sources.status)) == Ok::<ProcessMemory, SourceFault>(
                snapshot.process,
            )
            &&& sources.allocator == Ok::<Option<GlibcAllocatorMemory>, AllocatorMemoryError>(
                snapshot.allocator,
            )
            &&& sources.cgroup matches Ok(Some(memory)) && memory.current_bytes
                == snapshot.cgroup_current_bytes
            &&& keyed_outcome(file_text(sources.stat)) matches Ok(stat) && stat["anon"@]
                == snapshot.cgroup_anon_bytes
            &&& sources.page_faults == Some(snapshot.page_faults)
        },
{
}

/// What the metrics tell of a trim are the differences: with what was there before they make up
/// what is there afterwards, for each kind of memory and of page faults.
pub proof fn changes_lead_from_before_to_after(
    before: AllocatorTrimSnapshot,
    after: AllocatorTrimSnapshot,
)
    requires
        trim_fault(before, Ok(after)) is None,
    ensures
        ({
            let updates = change_updates(before, after);
            let both = before.allocator is Some && after.allocator is Some;
            let faults: int = if both {
                5
            } else {
                4
            };
            &&& updates.len() == faults + 2
            &&& updates[0].value matches MetricValue::Integer(change)
                && before.process.resident_bytes + change == after.process.resident_bytes
            &&& updates[1].value matches MetricValue::Integer(change)
                && before.process.resident_anon_bytes + change == after.process.resident_anon_bytes
            &&& updates[2].value matches MetricValue::Integer(change)
                && before.cgroup_current_bytes + change == after.cgroup_current_bytes
            &&& updates[3].value matches MetricValue::Integer(change) && before.cgroup_anon_bytes
                + change == after.cgroup_anon_bytes
            &&& both ==> (updates[4].value matches MetricValue::Integer(change)
                && before.allocator->0.free_bytes + change == after.allocator->0.free_bytes)
            &&& updates[faults].value matches MetricValue::Integer(more)
                && before.page_faults.minor + more == after.page_faults.minor
            &&& updates[faults + 1].value matches MetricValue::Integer(more)
                && before.page_faults.major + more == after.page_faults.major
        }),
{
}

} // verus!

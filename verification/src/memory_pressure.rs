//! Control of memory pressure: when new external work is shed and when optional memory is
//! reclaimed, from the headroom below the memory limit of the control group.
use vstd::prelude::*;
use vstd::string::*;

use crate::cgroup::CgroupRootError;
use crate::memory_text::{CgroupMemory, CgroupMemoryError};
use crate::metric_log::{
    counter, flag, flag_value, gauge, log_counter, log_counter_with_labels, log_gauge,
    log_gauge_with_labels, one_label, MetricLog, MetricOperation, MetricUpdate, MetricValue, UpdateView,
};
use crate::time::{elapsed_since, Duration, Moment};

verus! {

/// How the allocator of this build is configured.
#[derive(Clone, Copy, Debug, PartialEq, Eq, Structural)]
pub struct JemallocConfiguration {
    pub narenas: u32,
    pub dirty_decay_ms: isize,
    pub abort_on_invalid_configuration: bool,
    pub background_thread_configured: bool,
    pub background_thread_active: bool,
    pub statistics_supported: bool,
    pub profiling_supported: bool,
    pub profiling_enabled: bool,
    pub profiling_active: bool,
}

/// The allocator of this build.
#[derive(Clone, Copy, Debug, PartialEq, Eq, Structural)]
pub enum AllocatorBuild {
    /// The allocator of GNU libc on Linux.
    Glibc,
    /// The allocator of another system.
    System,
    /// The bundled jemalloc, on a target with or without background threads.
    Jemalloc { configuration: JemallocConfiguration, background_thread_supported: bool },
}

/// Why the allocator's configuration is refused.
#[derive(Clone, Copy, Debug, PartialEq, Eq, Structural)]
pub enum AllocatorConfigurationError {
    JemallocTrim,
    ArenaLimit,
    InvalidConfigurationNotFatal,
    BackgroundThreadsInactive,
    BackgroundThreadsUnsupported,
    DirtyPagePurgingDisabled,
    StatisticsUnsupported,
    ProfilingUnsupported,
    ProfilingEnabled,
    SystemTrim,
}

impl AllocatorConfigurationError {
    pub open spec fn text(self) -> Seq<char> {
        match self {
            AllocatorConfigurationError::JemallocTrim =>
                "LOCAL_BACKEND_MALLOC_TRIM_ENABLED is incompatible with the jemalloc backend build"@,
            AllocatorConfigurationError::ArenaLimit =>
                "jemalloc automatic arena limit must be between 1 and 128"@,
            AllocatorConfigurationError::InvalidConfigurationNotFatal =>
                "jemalloc invalid-configuration handling must remain fatal for this backend build"@,
            AllocatorConfigurationError::BackgroundThreadsInactive =>
                "jemalloc background threads must remain configured and active for this backend build"@,
            AllocatorConfigurationError::BackgroundThreadsUnsupported =>
                "jemalloc background threads must remain disabled when this target does not support them"@,
            AllocatorConfigurationError::DirtyPagePurgingDisabled =>
                "jemalloc dirty-page purging must remain enabled for this backend build"@,
            AllocatorConfigurationError::StatisticsUnsupported =>
                "jemalloc statistics support is required for this backend build"@,
            AllocatorConfigurationError::ProfilingUnsupported =>
                "jemalloc profiling support is required for this backend build"@,
            AllocatorConfigurationError::ProfilingEnabled =>
                "jemalloc profiling must remain disabled and inactive for this backend build"@,
            AllocatorConfigurationError::SystemTrim =>
                "LOCAL_BACKEND_MALLOC_TRIM_ENABLED requires a GNU libc Linux backend build"@,
        }
    }

    pub fn message(self) -> (message: &'static str)
        ensures
            message@ == self.text(),
    {
        match self {
            AllocatorConfigurationError::JemallocTrim =>
                "LOCAL_BACKEND_MALLOC_TRIM_ENABLED is incompatible with the jemalloc backend build",
            AllocatorConfigurationError::ArenaLimit =>
                "jemalloc automatic arena limit must be between 1 and 128",
            AllocatorConfigurationError::InvalidConfigurationNotFatal =>
                "jemalloc invalid-configuration handling must remain fatal for this backend build",
            AllocatorConfigurationError::BackgroundThreadsInactive =>
                "jemalloc background threads must remain configured and active for this backend build",
            AllocatorConfigurationError::BackgroundThreadsUnsupported =>
                "jemalloc background threads must remain disabled when this target does not support them",
            AllocatorConfigurationError::DirtyPagePurgingDisabled =>
                "jemalloc dirty-page purging must remain enabled for this backend build",
            AllocatorConfigurationError::StatisticsUnsupported =>
                "jemalloc statistics support is required for this backend build",
            AllocatorConfigurationError::ProfilingUnsupported =>
                "jemalloc profiling support is required for this backend build",
            AllocatorConfigurationError::ProfilingEnabled =>
                "jemalloc profiling must remain disabled and inactive for this backend build",
            AllocatorConfigurationError::SystemTrim =>
                "LOCAL_BACKEND_MALLOC_TRIM_ENABLED requires a GNU libc Linux backend build",
        }
    }
}

/// The first rule that a jemalloc configuration breaks.
pub open spec fn jemalloc_fault(
    configuration: JemallocConfiguration,
    background_thread_supported: bool,
    trim_enabled: bool,
) -> Option<AllocatorConfigurationError> {
    if trim_enabled {
        Some(AllocatorConfigurationError::JemallocTrim)
    } else if !(1 <= configuration.narenas <= 128) {
        Some(AllocatorConfigurationError::ArenaLimit)
    } else if !configuration.abort_on_invalid_configuration {
        Some(AllocatorConfigurationError::InvalidConfigurationNotFatal)
    } else if background_thread_supported && !(configuration.background_thread_configured
        && configuration.background_thread_active) {
        Some(AllocatorConfigurationError::BackgroundThreadsInactive)
    } else if !background_thread_supported && (configuration.background_thread_configured
        || configuration.background_thread_active) {
        Some(AllocatorConfigurationError::BackgroundThreadsUnsupported)
    } else if configuration.dirty_decay_ms < 0 {
        Some(AllocatorConfigurationError::DirtyPagePurgingDisabled)
    } else if !configuration.statistics_supported {
        Some(AllocatorConfigurationError::StatisticsUnsupported)
    } else if !configuration.profiling_supported {
        Some(AllocatorConfigurationError::ProfilingUnsupported)
    } else if configuration.profiling_enabled || configuration.profiling_active {
        Some(AllocatorConfigurationError::ProfilingEnabled)
    } else {
        None
    }
}

/// Checks the configuration of jemalloc.
pub fn validate_jemalloc_configuration(
    configuration: &JemallocConfiguration,
    background_thread_supported: bool,
    allocator_trim_enabled: bool,
) -> (checked: Result<(), AllocatorConfigurationError>)
    ensures
        match checked {
            Ok(_) => jemalloc_fault(
                *configuration,
                background_thread_supported,
                allocator_trim_enabled,
            ) is None,
            Err(error) => jemalloc_fault(
                *configuration,
                background_thread_supported,
                allocator_trim_enabled,
            ) == Some(error),
        },
{
    if allocator_trim_enabled {
        return Err(AllocatorConfigurationError::JemallocTrim);
    }
    if configuration.narenas < 1 || configuration.narenas > 128 {
        return Err(AllocatorConfigurationError::ArenaLimit);
    }
    if !configuration.abort_on_invalid_configuration {
        return Err(AllocatorConfigurationError::InvalidConfigurationNotFatal);
    }
    if background_thread_supported {
        if !(configuration.background_thread_configured && configuration.background_thread_active) {
            return Err(AllocatorConfigurationError::BackgroundThreadsInactive);
        }
    } else {
        if configuration.background_thread_configured || configuration.background_thread_active {
            return Err(AllocatorConfigurationError::BackgroundThreadsUnsupported);
        }
    }
    if configuration.dirty_decay_ms < 0 {
        return Err(AllocatorConfigurationError::DirtyPagePurgingDisabled);
    }
    if !configuration.statistics_supported {
        return Err(AllocatorConfigurationError::StatisticsUnsupported);
    }
    if !configuration.profiling_supported {
        return Err(AllocatorConfigurationError::ProfilingUnsupported);
    }
    if configuration.profiling_enabled || configuration.profiling_active {
        return Err(AllocatorConfigurationError::ProfilingEnabled);
    }
    Ok(())
}

/// The rule that an allocator build breaks with trimming enabled or not.
pub open spec fn allocator_fault(build: AllocatorBuild, trim_enabled: bool) -> Option<
    AllocatorConfigurationError,
> {
    match build {
        AllocatorBuild::Glibc => None,
        AllocatorBuild::System => if trim_enabled {
            Some(AllocatorConfigurationError::SystemTrim)
        } else {
            None
        },
        AllocatorBuild::Jemalloc { configuration, background_thread_supported } => jemalloc_fault(
            configuration,
            background_thread_supported,
            trim_enabled,
        ),
    }
}

/// Checks that the allocator of this build is configured as it must be.
pub fn validate_allocator_configuration(
    build: &AllocatorBuild,
    allocator_trim_enabled: bool,
) -> (checked: Result<(), AllocatorConfigurationError>)
    ensures
        match checked {
            Ok(_) => allocator_fault(*build, allocator_trim_enabled) is None,
            Err(error) => allocator_fault(*build, allocator_trim_enabled) == Some(error),
        },
{
    match build {
        AllocatorBuild::Glibc => Ok(()),
        AllocatorBuild::System => {
            if allocator_trim_enabled {
                Err(AllocatorConfigurationError::SystemTrim)
            } else {
                Ok(())
            }
        },
        AllocatorBuild::Jemalloc { configuration, background_thread_supported } => {
            validate_jemalloc_configuration(
                configuration,
                *background_thread_supported,
                allocator_trim_enabled,
            )
        },
    }
}

/// The settings of memory-pressure control.
#[derive(Clone, Copy, Debug, PartialEq, Eq, Structural)]
pub struct MemoryPressureSettings {
    pub shedding_enabled: bool,
    pub shedding_enter_headroom_bytes: u64,
    pub shedding_exit_headroom_bytes: u64,
    pub reclamation_enabled: bool,
    pub reclamation_enter_headroom_bytes: u64,
    pub reclamation_exit_headroom_bytes: u64,
    pub allocator_trim_enabled: bool,
    pub allocator_trim_min_free_bytes: u64,
    pub allocator_trim_cooldown: Duration,
}

/// Why the memory controller of this process's control group could not be read.
#[derive(Clone, Copy, Debug, PartialEq, Eq, Structural)]
pub enum CgroupReadError {
    /// A file could not be read.
    Unreadable,
    Root(CgroupRootError),
    Memory(CgroupMemoryError),
}

impl CgroupReadError {
    pub open spec fn text(self) -> Seq<char> {
        match self {
            CgroupReadError::Unreadable => "cgroup files could not be read"@,
            CgroupReadError::Root(error) => error.text(),
            CgroupReadError::Memory(error) => error.text(),
        }
    }

    pub fn message(self) -> (message: String)
        ensures
            message@ == self.text(),
    {
        match self {
            CgroupReadError::Unreadable => "cgroup files could not be read".to_owned(),
            CgroupReadError::Root(error) => error.message().to_owned(),
            CgroupReadError::Memory(error) => error.message(),
        }
    }
}

/// Why memory-pressure control cannot start or go on.
#[derive(Clone, Copy, Debug, PartialEq, Eq, Structural)]
pub enum MemoryPressureError {
    Allocator(AllocatorConfigurationError),
    TrimWithoutReclamation,
    TrimMinFreeBytesZero,
    TrimCooldownZero,
    SheddingThresholds,
    ReclamationThresholds,
    ReclamationBelowShedding,
    NoHierarchy,
    NoController,
    NoFiniteLimit,
    SheddingExitAboveLimit,
    ReclamationExitAboveLimit,
    LostHierarchy,
    LostController,
    Read(CgroupReadError),
}

impl MemoryPressureError {
    pub open spec fn text(self) -> Seq<char> {
        match self {
            MemoryPressureError::Allocator(error) => error.text(),
            MemoryPressureError::TrimWithoutReclamation =>
                "Allocator trim requires internal memory reclamation"@,
            MemoryPressureError::TrimMinFreeBytesZero =>
                "Allocator trim minimum free bytes must be greater than zero"@,
            MemoryPressureError::TrimCooldownZero =>
                "Allocator trim cooldown must be greater than zero"@,
            MemoryPressureError::SheddingThresholds =>
                "Memory pressure shedding exit headroom must exceed enter headroom"@,
            MemoryPressureError::ReclamationThresholds =>
                "Memory reclamation exit headroom must exceed enter headroom"@,
            MemoryPressureError::ReclamationBelowShedding =>
                "Internal memory reclamation must start and recover with more headroom than external shedding"@,
            MemoryPressureError::NoHierarchy =>
                "Memory pressure control requires a mounted cgroup v2 hierarchy"@,
            MemoryPressureError::NoController =>
                "Memory pressure control requires the cgroup v2 memory controller"@,
            MemoryPressureError::NoFiniteLimit =>
                "Memory pressure control requires a finite cgroup v2 memory limit"@,
            MemoryPressureError::SheddingExitAboveLimit =>
                "Memory pressure shedding exit headroom must be smaller than the finite cgroup memory limit"@,
            MemoryPressureError::ReclamationExitAboveLimit =>
                "Memory reclamation exit headroom must be smaller than the finite cgroup memory limit"@,
            MemoryPressureError::LostHierarchy =>
                "Enabled memory pressure controller lost its mounted cgroup v2 hierarchy"@,
            MemoryPressureError::LostController =>
                "Enabled memory pressure controller lost the cgroup v2 memory controller"@,
            MemoryPressureError::Read(error) => error.text(),
        }
    }

    pub fn message(self) -> (message: String)
        ensures
            message@ == self.text(),
    {
        match self {
            MemoryPressureError::Allocator(error) => error.message().to_owned(),
            MemoryPressureError::TrimWithoutReclamation =>
                "Allocator trim requires internal memory reclamation".to_owned(),
            MemoryPressureError::TrimMinFreeBytesZero =>
                "Allocator trim minimum free bytes must be greater than zero".to_owned(),
            MemoryPressureError::TrimCooldownZero =>
                "Allocator trim cooldown must be greater than zero".to_owned(),
            MemoryPressureError::SheddingThresholds =>
                "Memory pressure shedding exit headroom must exceed enter headroom".to_owned(),
            MemoryPressureError::ReclamationThresholds =>
                "Memory reclamation exit headroom must exceed enter headroom".to_owned(),
            MemoryPressureError::ReclamationBelowShedding =>
                "Internal memory reclamation must start and recover with more headroom than external shedding".to_owned(),
            MemoryPressureError::NoHierarchy =>
                "Memory pressure control requires a mounted cgroup v2 hierarchy".to_owned(),
            MemoryPressureError::NoController =>
                "Memory pressure control requires the cgroup v2 memory controller".to_owned(),
            MemoryPressureError::NoFiniteLimit =>
                "Memory pressure control requires a finite cgroup v2 memory limit".to_owned(),
            MemoryPressureError::SheddingExitAboveLimit =>
                "Memory pressure shedding exit headroom must be smaller than the finite cgroup memory limit".to_owned(),
            MemoryPressureError::ReclamationExitAboveLimit =>
                "Memory reclamation exit headroom must be smaller than the finite cgroup memory limit".to_owned(),
            MemoryPressureError::LostHierarchy =>
                "Enabled memory pressure controller lost its mounted cgroup v2 hierarchy".to_owned(),
            MemoryPressureError::LostController =>
                "Enabled memory pressure controller lost the cgroup v2 memory controller".to_owned(),
            MemoryPressureError::Read(error) => error.message(),
        }
    }
}

/// Whether pressure is on after a sample: it goes on at or below the enter boundary, and off at or
/// above the exit boundary.
pub open spec fn pressure_after(active: bool, headroom: int, enter: int, exit: int) -> bool {
    if active {
        headroom < exit
    } else {
        headroom <= enter
    }
}

pub fn pressure_state(
    active: bool,
    headroom_bytes: u64,
    enter_headroom_bytes: u64,
    exit_headroom_bytes: u64,
) -> (on: bool)
    ensures
        on == pressure_after(
            active,
            headroom_bytes as int,
            enter_headroom_bytes as int,
            exit_headroom_bytes as int,
        ),
{
    if active {
        headroom_bytes < exit_headroom_bytes
    } else {
        headroom_bytes <= enter_headroom_bytes
    }
}

/// Between the two boundaries nothing changes.
pub proof fn pressure_keeps_its_state_between_the_boundaries(
    active: bool,
    headroom: int,
    enter: int,
    exit: int,
)
    requires
        enter < headroom < exit,
    ensures
        pressure_after(active, headroom, enter, exit) == active,
{
}

/// A second look at the same headroom changes nothing.
pub proof fn pressure_is_stable(active: bool, headroom: int, enter: int, exit: int)
    requires
        enter < exit,
    ensures
        pressure_after(
            pressure_after(active, headroom, enter, exit),
            headroom,
            enter,
            exit,
        ) == pressure_after(active, headroom, enter, exit),
{
}

/// What was found where the memory controller of this process's control group should be.
#[derive(Clone, Copy, Debug, PartialEq, Eq, Structural)]
pub enum CgroupReading {
    NoHierarchy,
    NoController,
    Memory(CgroupMemory),
}

/// The state of memory-pressure control.
#[derive(Clone, Copy, Debug, PartialEq, Eq, Structural)]
pub struct CgroupMemoryPressureController {
    /// Whether external requests are shed; none where shedding is disabled.
    pub external_request_shedding: Option<bool>,
    pub shedding_enter_headroom_bytes: u64,
    pub shedding_exit_headroom_bytes: u64,
    pub latest_headroom_bytes: u64,
    /// Whether the owners of optional memory are told to reclaim it.
    pub memory_reclamation: bool,
    pub reclamation_active: bool,
    pub reclamation_enabled: bool,
    pub reclamation_enter_headroom_bytes: u64,
    pub reclamation_exit_headroom_bytes: u64,
    pub allocator_trim_enabled: bool,
    pub allocator_trim_min_free_bytes: u64,
    pub allocator_trim_cooldown: Duration,
    pub last_allocator_trim_evaluated: Option<Moment>,
}

pub open spec fn no_labels_view() -> Seq<(Seq<char>, Seq<char>)> {
    Seq::empty()
}

pub open spec fn state_name(active: bool) -> Seq<char> {
    if active {
        "active"@
    } else {
        "inactive"@
    }
}

fn state_label(active: bool) -> (label: &'static str)
    ensures
        label@ == state_name(active),
{
    if active {
        "active"
    } else {
        "inactive"
    }
}

/// The first rule that the settings break, before the control group is looked at.
pub open spec fn settings_fault(settings: MemoryPressureSettings, build: AllocatorBuild) -> Option<
    MemoryPressureError,
> {
    if allocator_fault(build, settings.allocator_trim_enabled) is Some {
        Some(
            MemoryPressureError::Allocator(
                allocator_fault(build, settings.allocator_trim_enabled)->0,
            ),
        )
    } else if settings.allocator_trim_enabled && !settings.reclamation_enabled {
        Some(MemoryPressureError::TrimWithoutReclamation)
    } else if settings.allocator_trim_min_free_bytes == 0 {
        Some(MemoryPressureError::TrimMinFreeBytesZero)
    } else if settings.allocator_trim_cooldown@ == 0 {
        Some(MemoryPressureError::TrimCooldownZero)
    } else if settings.shedding_enabled && settings.shedding_enter_headroom_bytes
        >= settings.shedding_exit_headroom_bytes {
        Some(MemoryPressureError::SheddingThresholds)
    } else if settings.reclamation_enabled && settings.reclamation_enter_headroom_bytes
        >= settings.reclamation_exit_headroom_bytes {
        Some(MemoryPressureError::ReclamationThresholds)
    } else if settings.shedding_enabled && settings.reclamation_enabled && !(
    settings.reclamation_enter_headroom_bytes > settings.shedding_enter_headroom_bytes
        && settings.reclamation_exit_headroom_bytes > settings.shedding_exit_headroom_bytes) {
        Some(MemoryPressureError::ReclamationBelowShedding)
    } else {
        None
    }
}

/// The updates that announce what is enabled.
pub open spec fn enabled_updates(settings: MemoryPressureSettings) -> Seq<UpdateView> {
    let none = no_labels_view();
    seq![
        gauge("backend_memory_pressure_shedding_enabled_info"@, flag(settings.shedding_enabled), none),
        gauge("backend_memory_pressure_shedding_active_info"@, 0, none),
        gauge("backend_memory_reclamation_enabled_info"@, flag(settings.reclamation_enabled), none),
        gauge("backend_memory_reclamation_active_info"@, 0, none),
        gauge("backend_allocator_trim_enabled_info"@, flag(settings.allocator_trim_enabled), none),
        gauge("backend_allocator_trim_active_info"@, 0, none),
        counter("backend_memory_pressure_failures_total"@, 0, none),
        counter("backend_memory_pressure_transitions_total"@, 0, seq![("state"@, "active"@)]),
        counter("backend_memory_reclamation_transitions_total"@, 0, seq![("state"@, "active"@)]),
        counter("backend_memory_pressure_transitions_total"@, 0, seq![("state"@, "inactive"@)]),
        counter("backend_memory_reclamation_transitions_total"@, 0, seq![("state"@, "inactive"@)]),
        counter("backend_allocator_trim_attempts_total"@, 0, seq![("outcome"@, "returned_true"@)]),
        counter("backend_allocator_trim_attempts_total"@, 0, seq![("outcome"@, "returned_false"@)]),
        counter("backend_allocator_trim_attempts_total"@, 0, seq![("outcome"@, "unsupported"@)]),
        counter("backend_allocator_trim_attempts_total"@, 0, seq![("outcome"@, "sample_failure"@)]),
    ]
}

/// The updates that show the trim settings.
pub open spec fn trim_setting_updates(settings: MemoryPressureSettings) -> Seq<UpdateView> {
    seq![
        gauge(
            "backend_allocator_trim_configuration_info"@,
            settings.allocator_trim_min_free_bytes as int,
            seq![("component"@, "min_free_bytes"@)],
        ),
        UpdateView {
            operation: MetricOperation::SetGauge,
            family: "backend_allocator_trim_configuration_info"@,
            value: MetricValue::Seconds(settings.allocator_trim_cooldown),
            labels: seq![("component"@, "cooldown_seconds"@)],
        },
    ]
}

/// The updates that show the two boundaries of a control.
pub open spec fn boundary_updates(family: Seq<char>, enter: int, exit: int) -> Seq<UpdateView> {
    seq![
        gauge(family, enter, seq![("boundary"@, "enter"@)]),
        gauge(family, exit, seq![("boundary"@, "exit"@)]),
    ]
}

/// The updates up to the look at the control group.
pub open spec fn settings_updates(settings: MemoryPressureSettings, build: AllocatorBuild) -> Seq<
    UpdateView,
> {
    if allocator_fault(build, settings.allocator_trim_enabled) is Some {
        Seq::empty()
    } else if (settings.allocator_trim_enabled && !settings.reclamation_enabled)
        || settings.allocator_trim_min_free_bytes == 0 || settings.allocator_trim_cooldown@ == 0 {
        enabled_updates(settings)
    } else {
        enabled_updates(settings) + trim_setting_updates(settings) + shown_shedding_boundaries(
            settings,
        ) + shown_reclamation_boundaries(settings)
    }
}

pub open spec fn shown_shedding_boundaries(settings: MemoryPressureSettings) -> Seq<UpdateView> {
    if settings.shedding_enabled && settings.shedding_enter_headroom_bytes
        < settings.shedding_exit_headroom_bytes {
        boundary_updates(
            "backend_memory_pressure_headroom_threshold_bytes"@,
            settings.shedding_enter_headroom_bytes as int,
            settings.shedding_exit_headroom_bytes as int,
        )
    } else {
        Seq::empty()
    }
}

pub open spec fn shown_reclamation_boundaries(settings: MemoryPressureSettings) -> Seq<UpdateView> {
    if settings.reclamation_enabled && settings.reclamation_enter_headroom_bytes
        < settings.reclamation_exit_headroom_bytes && !(settings.shedding_enabled
        && settings.shedding_enter_headroom_bytes >= settings.shedding_exit_headroom_bytes) {
        boundary_updates(
            "backend_memory_reclamation_headroom_threshold_bytes"@,
            settings.reclamation_enter_headroom_bytes as int,
            settings.reclamation_exit_headroom_bytes as int,
        )
    } else {
        Seq::empty()
    }
}

fn log_boundaries(log: &mut MetricLog, family: &'static str, enter: u64, exit: u64)
    ensures
        final(log)@ == old(log)@ + boundary_updates(family@, enter as int, exit as int),
{
    log_gauge_with_labels(log, family, enter, one_label("boundary", "enter"));
    log_gauge_with_labels(log, family, exit, one_label("boundary", "exit"));
    assert(log@ =~= old(log)@ + boundary_updates(family@, enter as int, exit as int));
}

fn log_enabled(settings: &MemoryPressureSettings, log: &mut MetricLog)
    ensures
        final(log)@ == old(log)@ + enabled_updates(*settings),
{
    log_gauge(
        log,
        "backend_memory_pressure_shedding_enabled_info",
        flag_value(settings.shedding_enabled),
    );
    log_gauge(log, "backend_memory_pressure_shedding_active_info", 0);
    log_gauge(
        log,
        "backend_memory_reclamation_enabled_info",
        flag_value(settings.reclamation_enabled),
    );
    log_gauge(log, "backend_memory_reclamation_active_info", 0);
    log_gauge(
        log,
        "backend_allocator_trim_enabled_info",
        flag_value(settings.allocator_trim_enabled),
    );
    log_gauge(log, "backend_allocator_trim_active_info", 0);
    log_counter(log, "backend_memory_pressure_failures_total", 0);
    log_counter_with_labels(
        log,
        "backend_memory_pressure_transitions_total",
        0,
        one_label("state", "active"),
    );
    log_counter_with_labels(
        log,
        "backend_memory_reclamation_transitions_total",
        0,
        one_label("state", "active"),
    );
    log_counter_with_labels(
        log,
        "backend_memory_pressure_transitions_total",
        0,
        one_label("state", "inactive"),
    );
    log_counter_with_labels(
        log,
        "backend_memory_reclamation_transitions_total",
        0,
        one_label("state", "inactive"),
    );
    log_counter_with_labels(
        log,
        "backend_allocator_trim_attempts_total",
        0,
        one_label("outcome", "returned_true"),
    );
    log_counter_with_labels(
        log,
        "backend_allocator_trim_attempts_total",
        0,
        one_label("outcome", "returned_false"),
    );
    log_counter_with_labels(
        log,
        "backend_allocator_trim_attempts_total",
        0,
        one_label("outcome", "unsupported"),
    );
    log_counter_with_labels(
        log,
        "backend_allocator_trim_attempts_total",
        0,
        one_label("outcome", "sample_failure"),
    );
    assert(log@ =~= old(log)@ + enabled_updates(*settings));
}

fn log_trim_settings(settings: &MemoryPressureSettings, log: &mut MetricLog)
    ensures
        final(log)@ == old(log)@ + trim_setting_updates(*settings),
{
    log_gauge_with_labels(
        log,
        "backend_allocator_trim_configuration_info",
        settings.allocator_trim_min_free_bytes,
        one_label("component", "min_free_bytes"),
    );
    log.record(
        MetricUpdate {
            operation: MetricOperation::SetGauge,
            family: "backend_allocator_trim_configuration_info",
            value: MetricValue::Seconds(settings.allocator_trim_cooldown),
            labels: one_label("component", "cooldown_seconds"),
        },
    );
    assert(log@ =~= old(log)@ + trim_setting_updates(*settings));
}

/// Checks the settings of memory-pressure control and announces them. The answer is whether
/// anything is to be controlled, which then needs the control group.
pub fn check_memory_pressure_settings(
    settings: &MemoryPressureSettings,
    build: &AllocatorBuild,
    log: &mut MetricLog,
) -> (checked: Result<bool, MemoryPressureError>)
    ensures
        match checked {
            Ok(enabled) => {
                &&& settings_fault(*settings, *build) is None
                &&& enabled == (settings.shedding_enabled || settings.reclamation_enabled)
            },
            Err(error) => settings_fault(*settings, *build) == Some(error),
        },
        final(log)@ == old(log)@ + settings_updates(*settings, *build),
{
    if let Err(error) = validate_allocator_configuration(build, settings.allocator_trim_enabled) {
        assert(log@ =~= old(log)@ + settings_updates(*settings, *build));
        return Err(MemoryPressureError::Allocator(error));
    }
    log_enabled(settings, log);
    if settings.allocator_trim_enabled && !settings.reclamation_enabled {
        return Err(MemoryPressureError::TrimWithoutReclamation);
    }
    if settings.allocator_trim_min_free_bytes == 0 {
        return Err(MemoryPressureError::TrimMinFreeBytesZero);
    }
    if settings.allocator_trim_cooldown.as_nanos() == 0 {
        return Err(MemoryPressureError::TrimCooldownZero);
    }
    log_trim_settings(settings, log);
    let ghost after_trim = log@;
    if settings.shedding_enabled {
        if settings.shedding_enter_headroom_bytes >= settings.shedding_exit_headroom_bytes {
            assert(log@ =~= old(log)@ + settings_updates(*settings, *build));
            return Err(MemoryPressureError::SheddingThresholds);
        }
        log_boundaries(
            log,
            "backend_memory_pressure_headroom_threshold_bytes",
            settings.shedding_enter_headroom_bytes,
            settings.shedding_exit_headroom_bytes,
        );
    }
    assert(log@ =~= after_trim + shown_shedding_boundaries(*settings));
    if settings.reclamation_enabled {
        if settings.reclamation_enter_headroom_bytes >= settings.reclamation_exit_headroom_bytes {
            assert(log@ =~= old(log)@ + settings_updates(*settings, *build));
            return Err(MemoryPressureError::ReclamationThresholds);
        }
        log_boundaries(
            log,
            "backend_memory_reclamation_headroom_threshold_bytes",
            settings.reclamation_enter_headroom_bytes,
            settings.reclamation_exit_headroom_bytes,
        );
    }
    assert(log@ =~= old(log)@ + settings_updates(*settings, *build));
    if settings.shedding_enabled && settings.reclamation_enabled {
        if !(settings.reclamation_enter_headroom_bytes > settings.shedding_enter_headroom_bytes
            && settings.reclamation_exit_headroom_bytes > settings.shedding_exit_headroom_bytes) {
            return Err(MemoryPressureError::ReclamationBelowShedding);
        }
    }
    Ok(settings.shedding_enabled || settings.reclamation_enabled)
}

/// The bytes between what a control group uses and its limit.
pub open spec fn headroom(current: u64, max: u64) -> u64 {
    if max >= current {
        (max - current) as u64
    } else {
        0
    }
}

/// The first rule that the control group breaks for these settings.
pub open spec fn reading_fault(settings: MemoryPressureSettings, reading: CgroupReading) -> Option<
    MemoryPressureError,
> {
    match reading {
        CgroupReading::NoHierarchy => Some(MemoryPressureError::NoHierarchy),
        CgroupReading::NoController => Some(MemoryPressureError::NoController),
        CgroupReading::Memory(memory) => match memory.max_bytes {
            None => Some(MemoryPressureError::NoFiniteLimit),
            Some(max) => if settings.shedding_enabled && settings.shedding_exit_headroom_bytes
                >= max {
                Some(MemoryPressureError::SheddingExitAboveLimit)
            } else if settings.reclamation_enabled && settings.reclamation_exit_headroom_bytes
                >= max {
                Some(MemoryPressureError::ReclamationExitAboveLimit)
            } else {
                None
            },
        },
    }
}

/// The controller at its start. The owners of optional memory are not told of pressure before the
/// controller has tried to trim the allocator.
pub open spec fn started(
    settings: MemoryPressureSettings,
    headroom: u64,
) -> CgroupMemoryPressureController {
    CgroupMemoryPressureController {
        external_request_shedding: if settings.shedding_enabled {
            Some(headroom <= settings.shedding_enter_headroom_bytes)
        } else {
            None
        },
        shedding_enter_headroom_bytes: settings.shedding_enter_headroom_bytes,
        shedding_exit_headroom_bytes: settings.shedding_exit_headroom_bytes,
        latest_headroom_bytes: headroom,
        memory_reclamation: false,
        reclamation_active: settings.reclamation_enabled && headroom
            <= settings.reclamation_enter_headroom_bytes,
        reclamation_enabled: settings.reclamation_enabled,
        reclamation_enter_headroom_bytes: settings.reclamation_enter_headroom_bytes,
        reclamation_exit_headroom_bytes: settings.reclamation_exit_headroom_bytes,
        allocator_trim_enabled: settings.allocator_trim_enabled,
        allocator_trim_min_free_bytes: settings.allocator_trim_min_free_bytes,
        allocator_trim_cooldown: settings.allocator_trim_cooldown,
        last_allocator_trim_evaluated: None,
    }
}

/// The updates that show the controller at its start.
pub open spec fn started_updates(controller: CgroupMemoryPressureController) -> Seq<UpdateView> {
    seq![
        gauge(
            "backend_memory_pressure_headroom_bytes"@,
            controller.latest_headroom_bytes as int,
            no_labels_view(),
        ),
        gauge(
            "backend_memory_pressure_shedding_active_info"@,
            flag(controller.external_request_shedding == Some(true)),
            no_labels_view(),
        ),
        gauge(
            "backend_memory_reclamation_active_info"@,
            flag(controller.reclamation_active),
            no_labels_view(),
        ),
    ]
}

/// Starts the controller from checked settings and the first look at the control group.
pub fn start_memory_pressure_controller(
    settings: &MemoryPressureSettings,
    reading: &CgroupReading,
    log: &mut MetricLog,
) -> (controller: Result<CgroupMemoryPressureController, MemoryPressureError>)
    ensures
        match controller {
            Ok(controller) => {
                &&& reading_fault(*settings, *reading) is None
                &&& reading matches CgroupReading::Memory(memory) && controller == started(
                    *settings,
                    headroom(memory.current_bytes, memory.max_bytes->0),
                )
                &&& final(log)@ == old(log)@ + started_updates(controller)
            },
            Err(error) => reading_fault(*settings, *reading) == Some(error) && final(log)@ == old(
                log,
            )@,
        },
{
    let memory: CgroupMemory = match reading {
        CgroupReading::NoHierarchy => {
            return Err(MemoryPressureError::NoHierarchy);
        },
        CgroupReading::NoController => {
            return Err(MemoryPressureError::NoController);
        },
        CgroupReading::Memory(memory) => *memory,
    };
    let max_bytes: u64 = match memory.max_bytes {
        Some(max_bytes) => max_bytes,
        None => {
            return Err(MemoryPressureError::NoFiniteLimit);
        },
    };
    if settings.shedding_enabled && settings.shedding_exit_headroom_bytes >= max_bytes {
        return Err(MemoryPressureError::SheddingExitAboveLimit);
    }
    if settings.reclamation_enabled && settings.reclamation_exit_headroom_bytes >= max_bytes {
        return Err(MemoryPressureError::ReclamationExitAboveLimit);
    }
    let headroom_bytes: u64 = max_bytes.saturating_sub(memory.current_bytes);
    log_gauge(log, "backend_memory_pressure_headroom_bytes", headroom_bytes);
    let shedding_active = settings.shedding_enabled && pressure_state(
        false,
        headroom_bytes,
        settings.shedding_enter_headroom_bytes,
        settings.shedding_exit_headroom_bytes,
    );
    let reclamation_active = settings.reclamation_enabled && pressure_state(
        false,
        headroom_bytes,
        settings.reclamation_enter_headroom_bytes,
        settings.reclamation_exit_headroom_bytes,
    );
    log_gauge(
        log,
        "backend_memory_pressure_shedding_active_info",
        flag_value(shedding_active),
    );
    log_gauge(log, "backend_memory_reclamation_active_info", flag_value(reclamation_active));
    let controller = CgroupMemoryPressureController {
        external_request_shedding: if settings.shedding_enabled {
            Some(shedding_active)
        } else {
            None
        },
        shedding_enter_headroom_bytes: settings.shedding_enter_headroom_bytes,
        shedding_exit_headroom_bytes: settings.shedding_exit_headroom_bytes,
        latest_headroom_bytes: headroom_bytes,
        memory_reclamation: false,
        reclamation_active,
        reclamation_enabled: settings.reclamation_enabled,
        reclamation_enter_headroom_bytes: settings.reclamation_enter_headroom_bytes,
        reclamation_exit_headroom_bytes: settings.reclamation_exit_headroom_bytes,
        allocator_trim_enabled: settings.allocator_trim_enabled,
        allocator_trim_min_free_bytes: settings.allocator_trim_min_free_bytes,
        allocator_trim_cooldown: settings.allocator_trim_cooldown,
        last_allocator_trim_evaluated: None,
    };
    assert(log@ =~= old(log)@ + started_updates(controller));
    Ok(controller)
}

/// The updates that show that a control went on or off.
pub open spec fn transition_updates(
    info: Seq<char>,
    transitions: Seq<char>,
    was_active: bool,
    is_active: bool,
) -> Seq<UpdateView> {
    if was_active == is_active {
        Seq::empty()
    } else {
        seq![
            gauge(info, flag(is_active), no_labels_view()),
            counter(transitions, 1, seq![("state"@, state_name(is_active))]),
        ]
    }
}

fn log_transition(
    log: &mut MetricLog,
    info: &'static str,
    transitions: &'static str,
    is_active: bool,
)
    ensures
        final(log)@ == old(log)@ + transition_updates(info@, transitions@, !is_active, is_active),
{
    log_gauge(log, info, flag_value(is_active));
    log_counter_with_labels(log, transitions, 1, one_label("state", state_label(is_active)));
    assert(log@ =~= old(log)@ + transition_updates(info@, transitions@, !is_active, is_active));
}

impl CgroupMemoryPressureController {
    /// The controller after it has seen the headroom.
    pub open spec fn seen(self, headroom: u64) -> CgroupMemoryPressureController {
        CgroupMemoryPressureController { latest_headroom_bytes: headroom, ..self }
    }

    /// Whether reclamation is on after the headroom.
    pub open spec fn reclaims_at(self, headroom: u64) -> bool {
        if self.reclamation_enabled {
            pressure_after(
                self.reclamation_active,
                headroom as int,
                self.reclamation_enter_headroom_bytes as int,
                self.reclamation_exit_headroom_bytes as int,
            )
        } else {
            self.reclamation_active
        }
    }

    /// Whether external requests are shed after the headroom; none where shedding is disabled.
    pub open spec fn sheds_at(self, headroom: u64) -> Option<bool> {
        match self.external_request_shedding {
            Some(active) => Some(
                pressure_after(
                    active,
                    headroom as int,
                    self.shedding_enter_headroom_bytes as int,
                    self.shedding_exit_headroom_bytes as int,
                ),
            ),
            None => None,
        }
    }

    /// The rule that a sample breaks.
    pub open spec fn sample_fault(self, cgroup: CgroupMemory) -> Option<MemoryPressureError> {
        match cgroup.max_bytes {
            None => Some(MemoryPressureError::NoFiniteLimit),
            Some(max) => if self.reclamation_enabled && self.reclamation_exit_headroom_bytes
                >= max {
                Some(MemoryPressureError::ReclamationExitAboveLimit)
            } else if self.external_request_shedding is Some && self.shedding_exit_headroom_bytes
                >= max {
                Some(MemoryPressureError::SheddingExitAboveLimit)
            } else {
                None
            },
        }
    }

    /// The controller after a sample. A sample that breaks a rule leaves what comes after that
    /// rule as it was.
    pub open spec fn updated(self, cgroup: CgroupMemory) -> CgroupMemoryPressureController {
        match cgroup.max_bytes {
            None => self,
            Some(max) => {
                let room = headroom(cgroup.current_bytes, max);
                match self.sample_fault(cgroup) {
                    Some(MemoryPressureError::ReclamationExitAboveLimit) => self.seen(room),
                    Some(_) => CgroupMemoryPressureController {
                        reclamation_active: self.reclaims_at(room),
                        ..self.seen(room)
                    },
                    None => CgroupMemoryPressureController {
                        reclamation_active: self.reclaims_at(room),
                        external_request_shedding: self.sheds_at(room),
                        ..self.seen(room)
                    },
                }
            },
        }
    }

    /// The updates that a sample makes.
    pub open spec fn sample_updates(self, cgroup: CgroupMemory) -> Seq<UpdateView> {
        match cgroup.max_bytes {
            None => Seq::empty(),
            Some(max) => {
                let room = headroom(cgroup.current_bytes, max);
                let after = self.updated(cgroup);
                seq![
                    gauge("backend_memory_pressure_headroom_bytes"@, room as int, no_labels_view()),
                ] + transition_updates(
                    "backend_memory_reclamation_active_info"@,
                    "backend_memory_reclamation_transitions_total"@,
                    self.reclamation_active,
                    after.reclamation_active,
                ) + transition_updates(
                    "backend_memory_pressure_shedding_active_info"@,
                    "backend_memory_pressure_transitions_total"@,
                    self.external_request_shedding == Some(true),
                    after.external_request_shedding == Some(true),
                )
            },
        }
    }

    /// Whether external requests are shed; none where shedding is disabled.
    pub fn external_request_shedding(&self) -> (shedding: Option<bool>)
        ensures
            shedding == self.external_request_shedding,
    {
        self.external_request_shedding
    }

    /// Whether the owners of optional memory are told to reclaim it.
    pub fn memory_reclamation(&self) -> (active: bool)
        ensures
            active == self.memory_reclamation,
    {
        self.memory_reclamation
    }

    /// Takes a sample of the control group's memory into account.
    pub fn update(&mut self, cgroup: &CgroupMemory, log: &mut MetricLog) -> (sampled: Result<
        (),
        MemoryPressureError,
    >)
        ensures
            match sampled {
                Ok(_) => old(self).sample_fault(*cgroup) is None,
                Err(error) => old(self).sample_fault(*cgroup) == Some(error),
            },
            *final(self) == old(self).updated(*cgroup),
            final(log)@ == old(log)@ + old(self).sample_updates(*cgroup),
    {
        let max_bytes: u64 = match cgroup.max_bytes {
            Some(max_bytes) => max_bytes,
            None => {
                assert(log@ =~= old(log)@ + old(self).sample_updates(*cgroup));
                return Err(MemoryPressureError::NoFiniteLimit);
            },
        };
        let headroom_bytes: u64 = max_bytes.saturating_sub(cgroup.current_bytes);
        self.latest_headroom_bytes = headroom_bytes;
        log_gauge(log, "backend_memory_pressure_headroom_bytes", headroom_bytes);
        if self.reclamation_enabled {
            if self.reclamation_exit_headroom_bytes >= max_bytes {
                assert(log@ =~= old(log)@ + old(self).sample_updates(*cgroup));
                return Err(MemoryPressureError::ReclamationExitAboveLimit);
            }
            let is_active = pressure_state(
                self.reclamation_active,
                headroom_bytes,
                self.reclamation_enter_headroom_bytes,
                self.reclamation_exit_headroom_bytes,
            );
            if is_active != self.reclamation_active {
                self.reclamation_active = is_active;
                log_transition(
                    log,
                    "backend_memory_reclamation_active_info",
                    "backend_memory_reclamation_transitions_total",
                    is_active,
                );
            }
        }
        assert(log@ =~= old(log)@ + (seq![
            gauge(
                "backend_memory_pressure_headroom_bytes"@,
                headroom_bytes as int,
                no_labels_view(),
            ),
        ] + transition_updates(
            "backend_memory_reclamation_active_info"@,
            "backend_memory_reclamation_transitions_total"@,
            old(self).reclamation_active,
            self.reclamation_active,
        )));
        if let Some(was_active) = self.external_request_shedding {
            if self.shedding_exit_headroom_bytes >= max_bytes {
                assert(log@ =~= old(log)@ + old(self).sample_updates(*cgroup));
                return Err(MemoryPressureError::SheddingExitAboveLimit);
            }
            let is_active = pressure_state(
                was_active,
                headroom_bytes,
                self.shedding_enter_headroom_bytes,
                self.shedding_exit_headroom_bytes,
            );
            if is_active != was_active {
                self.external_request_shedding = Some(is_active);
                log_transition(
                    log,
                    "backend_memory_pressure_shedding_active_info",
                    "backend_memory_pressure_transitions_total",
                    is_active,
                );
            }
        }
        assert(log@ =~= old(log)@ + old(self).sample_updates(*cgroup));
        Ok(())
    }

    /// Whether an allocator trim may be evaluated at a time: it is enabled, reclamation is on, and
    /// the cooldown since the last evaluation is over.
    pub open spec fn may_trim(self, now: nat) -> bool {
        &&& self.allocator_trim_enabled
        &&& self.reclamation_active
        &&& match self.last_allocator_trim_evaluated {
            Some(last) => elapsed_since(now, last@) >= self.allocator_trim_cooldown@,
            None => true,
        }
    }

    /// Claims the evaluation of an allocator trim. The claim starts the cooldown, so that pressure
    /// cannot scan the arenas at every sample.
    pub fn claim_allocator_trim(&mut self, now: Moment) -> (claimed: bool)
        ensures
            claimed == old(self).may_trim(now@),
            *final(self) == (if claimed {
                CgroupMemoryPressureController {
                    last_allocator_trim_evaluated: Some(now),
                    ..*old(self)
                }
            } else {
                *old(self)
            }),
    {
        if !self.allocator_trim_enabled || !self.reclamation_active {
            return false;
        }
        if let Some(last) = self.last_allocator_trim_evaluated {
            if now.saturating_duration_since(last).as_nanos()
                < self.allocator_trim_cooldown.as_nanos() {
                return false;
            }
        }
        self.last_allocator_trim_evaluated = Some(now);
        true
    }

    /// Whether a new reclamation waits for a running trim: only above the shedding boundary.
    pub open spec fn defers_reclamation(self, trim_in_flight: bool) -> bool {
        &&& trim_in_flight
        &&& self.reclamation_active
        &&& !self.memory_reclamation
        &&& self.external_request_shedding != Some(true)
        &&& self.latest_headroom_bytes > self.shedding_enter_headroom_bytes
    }

    /// Tells the owners of optional memory whether reclamation is on.
    pub fn publish_reclamation_state(&mut self, allocator_trim_in_flight: bool)
        ensures
            *final(self) == (CgroupMemoryPressureController {
                memory_reclamation: if old(self).defers_reclamation(allocator_trim_in_flight) {
                    false
                } else {
                    old(self).reclamation_active
                },
                ..*old(self)
            }),
    {
        let shedding_active = match self.external_request_shedding {
            Some(active) => active,
            None => false,
        };
        let reached_shedding_boundary = self.latest_headroom_bytes
            <= self.shedding_enter_headroom_bytes;
        if allocator_trim_in_flight && self.reclamation_active && !self.memory_reclamation
            && !shedding_active && !reached_shedding_boundary {
            return;
        }
        self.memory_reclamation = self.reclamation_active;
    }

    /// The boundaries of reclamation lie above those of shedding, and external work is shed only
    /// while memory is reclaimed.
    pub open spec fn reclaims_before_it_sheds(self) -> bool {
        self.reclamation_enabled && self.external_request_shedding is Some ==> {
            &&& self.reclamation_enter_headroom_bytes > self.shedding_enter_headroom_bytes
            &&& self.reclamation_exit_headroom_bytes > self.shedding_exit_headroom_bytes
            &&& self.reclamation_enter_headroom_bytes < self.reclamation_exit_headroom_bytes
            &&& self.external_request_shedding == Some(true) ==> self.reclamation_active
        }
    }
}

/// The rule that a look at the control group breaks for a running controller.
pub open spec fn look_fault(
    controller: CgroupMemoryPressureController,
    reading: Result<CgroupReading, CgroupReadError>,
) -> Option<MemoryPressureError> {
    match reading {
        Err(error) => Some(MemoryPressureError::Read(error)),
        Ok(CgroupReading::NoHierarchy) => Some(MemoryPressureError::LostHierarchy),
        Ok(CgroupReading::NoController) => Some(MemoryPressureError::LostController),
        Ok(CgroupReading::Memory(memory)) => controller.sample_fault(memory),
    }
}

/// The controller after a look at the control group.
pub open spec fn looked(
    controller: CgroupMemoryPressureController,
    reading: Result<CgroupReading, CgroupReadError>,
) -> CgroupMemoryPressureController {
    match reading {
        Ok(CgroupReading::Memory(memory)) => controller.updated(memory),
        _ => controller,
    }
}

/// The updates that a look at the control group makes.
pub open spec fn look_updates(
    controller: CgroupMemoryPressureController,
    reading: Result<CgroupReading, CgroupReadError>,
) -> Seq<UpdateView> {
    match reading {
        Ok(CgroupReading::Memory(memory)) => controller.sample_updates(memory),
        _ => Seq::empty(),
    }
}

/// Takes a look at the control group into account: a controller that is enabled must find it.
pub fn update_memory_pressure_controller(
    controller: &mut CgroupMemoryPressureController,
    reading: &Result<CgroupReading, CgroupReadError>,
    log: &mut MetricLog,
) -> (sampled: Result<(), MemoryPressureError>)
    ensures
        match sampled {
            Ok(_) => look_fault(*old(controller), *reading) is None,
            Err(error) => look_fault(*old(controller), *reading) == Some(error),
        },
        *final(controller) == looked(*old(controller), *reading),
        final(log)@ == old(log)@ + look_updates(*old(controller), *reading),
{
    assert(log@ =~= old(log)@ + Seq::<UpdateView>::empty());
    match reading {
        Err(error) => Err(MemoryPressureError::Read(*error)),
        Ok(CgroupReading::NoHierarchy) => Err(MemoryPressureError::LostHierarchy),
        Ok(CgroupReading::NoController) => Err(MemoryPressureError::LostController),
        Ok(CgroupReading::Memory(memory)) => controller.update(memory, log),
    }
}

/// A controller started from accepted settings sheds external work only while it reclaims memory.
pub proof fn started_controller_reclaims_before_it_sheds(
    settings: MemoryPressureSettings,
    build: AllocatorBuild,
    headroom: u64,
)
    requires
        settings_fault(settings, build) is None,
    ensures
        started(settings, headroom).reclaims_before_it_sheds(),
{
}

/// No sample that the controller accepts makes it shed external work without reclaiming memory.
pub proof fn samples_keep_reclaiming_before_shedding(
    controller: CgroupMemoryPressureController,
    cgroup: CgroupMemory,
)
    requires
        controller.reclaims_before_it_sheds(),
        controller.sample_fault(cgroup) is None,
    ensures
        controller.updated(cgroup).reclaims_before_it_sheds(),
{
}

/// After a claim no further trim may be evaluated before the cooldown is over.
pub proof fn claim_starts_the_cooldown(
    controller: CgroupMemoryPressureController,
    claimed_at: Moment,
    now: nat,
)
    requires
        elapsed_since(now, claimed_at@) < controller.allocator_trim_cooldown@,
    ensures
        !(CgroupMemoryPressureController {
            last_allocator_trim_evaluated: Some(claimed_at),
            ..controller
        }).may_trim(now),
{
}

/// A controller starts as one sample leaves one that is off: each enabled control is on if and only
/// if the first headroom is at or below its own enter boundary, and a control that is not enabled
/// is not. It keeps the settings, the owners of optional memory are told nothing yet, and no trim was
/// evaluated.
pub proof fn controls_start_by_their_enter_boundary(settings: MemoryPressureSettings, headroom: u64)
    ensures
        ({
            let controller = started(settings, headroom);
            &&& settings.shedding_enabled && headroom <= settings.shedding_enter_headroom_bytes
                <==> controller.external_request_shedding == Some(true)
            &&& settings.shedding_enabled && headroom > settings.shedding_enter_headroom_bytes
                <==> controller.external_request_shedding == Some(false)
            &&& settings.reclamation_enabled && headroom
                <= settings.reclamation_enter_headroom_bytes <==> controller.reclamation_active
            &&& controller.latest_headroom_bytes == headroom
            &&& !controller.memory_reclamation
            &&& controller.last_allocator_trim_evaluated is None
            &&& controller.shedding_enter_headroom_bytes == settings.shedding_enter_headroom_bytes
            &&& controller.shedding_exit_headroom_bytes == settings.shedding_exit_headroom_bytes
            &&& controller.reclamation_enabled == settings.reclamation_enabled
            &&& controller.reclamation_enter_headroom_bytes
                == settings.reclamation_enter_headroom_bytes
            &&& controller.reclamation_exit_headroom_bytes
                == settings.reclamation_exit_headroom_bytes
            &&& controller.allocator_trim_enabled == settings.allocator_trim_enabled
            &&& controller.allocator_trim_min_free_bytes == settings.allocator_trim_min_free_bytes
            &&& controller.allocator_trim_cooldown == settings.allocator_trim_cooldown
        }),
{
}

/// Starting with a reading is the same as being off and taking the reading as a sample.
pub proof fn starting_is_taking_the_first_sample(
    settings: MemoryPressureSettings,
    memory: CgroupMemory,
)
    requires
        reading_fault(settings, CgroupReading::Memory(memory)) is None,
    ensures
        ({
            let off = CgroupMemoryPressureController {
                external_request_shedding: if settings.shedding_enabled {
                    Some(false)
                } else {
                    None
                },
                shedding_enter_headroom_bytes: settings.shedding_enter_headroom_bytes,
                shedding_exit_headroom_bytes: settings.shedding_exit_headroom_bytes,
                latest_headroom_bytes: 0,
                memory_reclamation: false,
                reclamation_active: false,
                reclamation_enabled: settings.reclamation_enabled,
                reclamation_enter_headroom_bytes: settings.reclamation_enter_headroom_bytes,
                reclamation_exit_headroom_bytes: settings.reclamation_exit_headroom_bytes,
                allocator_trim_enabled: settings.allocator_trim_enabled,
                allocator_trim_min_free_bytes: settings.allocator_trim_min_free_bytes,
                allocator_trim_cooldown: settings.allocator_trim_cooldown,
                last_allocator_trim_evaluated: None,
            };
            off.updated(memory) == started(
                settings,
                headroom(memory.current_bytes, memory.max_bytes->0),
            )
        }),
{
}

/// A control goes on when the headroom falls to its enter boundary or below, goes off when it rises
/// to its exit boundary or above, and stays as it is in between.
pub proof fn controls_go_on_and_off_at_their_boundaries(
    active: bool,
    headroom: int,
    enter: int,
    exit: int,
)
    requires
        enter < exit,
    ensures
        headroom <= enter ==> pressure_after(active, headroom, enter, exit),
        headroom >= exit ==> !pressure_after(active, headroom, enter, exit),
        enter < headroom < exit ==> pressure_after(active, headroom, enter, exit) == active,
{
}

/// Less headroom never turns a control off that more headroom leaves on.
pub proof fn less_headroom_is_never_calmer(active: bool, less: int, more: int, enter: int, exit: int)
    requires
        less <= more,
        pressure_after(active, more, enter, exit),
    ensures
        pressure_after(active, less, enter, exit),
{
}

/// A sample that is accepted moves each control by its own boundaries and what is left between the
/// use and the limit, and changes nothing else.
pub proof fn samples_move_each_control_by_its_own_boundaries(
    controller: CgroupMemoryPressureController,
    memory: CgroupMemory,
    max: u64,
)
    requires
        memory.max_bytes == Some(max),
        controller.sample_fault(memory) is None,
        controller.reclamation_enter_headroom_bytes < controller.reclamation_exit_headroom_bytes,
        controller.shedding_enter_headroom_bytes < controller.shedding_exit_headroom_bytes,
    ensures
        ({
            let after = controller.updated(memory);
            let room: int = if max >= memory.current_bytes {
                max - memory.current_bytes
            } else {
                0
            };
            &&& after.latest_headroom_bytes == room
            &&& controller.reclamation_enabled && room
                <= controller.reclamation_enter_headroom_bytes ==> after.reclamation_active
            &&& controller.reclamation_enabled && room >= controller.reclamation_exit_headroom_bytes
                ==> !after.reclamation_active
            &&& controller.reclamation_enter_headroom_bytes < room
                < controller.reclamation_exit_headroom_bytes ==> after.reclamation_active
                == controller.reclamation_active
            &&& !controller.reclamation_enabled ==> after.reclamation_active
                == controller.reclamation_active
            &&& after.external_request_shedding is Some
                == controller.external_request_shedding is Some
            &&& controller.external_request_shedding is Some && room
                <= controller.shedding_enter_headroom_bytes ==> after.external_request_shedding
                == Some(true)
            &&& controller.external_request_shedding is Some && room
                >= controller.shedding_exit_headroom_bytes ==> after.external_request_shedding
                == Some(false)
            &&& controller.shedding_enter_headroom_bytes < room
                < controller.shedding_exit_headroom_bytes ==> after.external_request_shedding
                == controller.external_request_shedding
            &&& after.memory_reclamation == controller.memory_reclamation
            &&& after.last_allocator_trim_evaluated == controller.last_allocator_trim_evaluated
        }),
{
}

/// A sample is refused if and only if there is no limit, or an enabled control could never go off
/// below it.
pub proof fn samples_are_refused_without_room_to_recover(
    controller: CgroupMemoryPressureController,
    memory: CgroupMemory,
)
    ensures
        controller.sample_fault(memory) is None <==> (memory.max_bytes matches Some(max) && (
        controller.reclamation_enabled ==> controller.reclamation_exit_headroom_bytes < max) && (
        controller.external_request_shedding is Some ==> controller.shedding_exit_headroom_bytes
            < max)),
        memory.max_bytes is None <==> controller.sample_fault(memory) == Some(
            MemoryPressureError::NoFiniteLimit,
        ),
{
}

/// Settings are accepted if and only if the allocator is as it has to be, trimming comes with
/// reclaiming and has a threshold and a cooldown, and the boundaries are in order: enter below exit,
/// and those of reclaiming above those of shedding.
pub proof fn settings_are_accepted_if_in_order(
    settings: MemoryPressureSettings,
    build: AllocatorBuild,
)
    ensures
        settings_fault(settings, build) is None <==> {
            &&& allocator_fault(build, settings.allocator_trim_enabled) is None
            &&& settings.allocator_trim_enabled ==> settings.reclamation_enabled
            &&& settings.allocator_trim_min_free_bytes > 0
            &&& settings.allocator_trim_cooldown@ > 0
            &&& settings.shedding_enabled ==> settings.shedding_enter_headroom_bytes
                < settings.shedding_exit_headroom_bytes
            &&& settings.reclamation_enabled ==> settings.reclamation_enter_headroom_bytes
                < settings.reclamation_exit_headroom_bytes
            &&& settings.shedding_enabled && settings.reclamation_enabled
                ==> settings.shedding_enter_headroom_bytes
                < settings.reclamation_enter_headroom_bytes
                && settings.shedding_exit_headroom_bytes < settings.reclamation_exit_headroom_bytes
        },
{
}

/// A trim is evaluated if and only if it is enabled, memory is being reclaimed, and as much time as
/// the cooldown has passed since the last evaluation, if there was one.
pub proof fn trims_wait_for_pressure_and_cooldown(
    controller: CgroupMemoryPressureController,
    now: nat,
)
    ensures
        controller.may_trim(now) <==> {
            &&& controller.allocator_trim_enabled
            &&& controller.reclamation_active
            &&& controller.last_allocator_trim_evaluated matches Some(last) ==> now >= last@
                + controller.allocator_trim_cooldown@ || controller.allocator_trim_cooldown@ == 0
        },
{
}

/// The owners of optional memory are told of pressure unless they were not told before, a trim is
/// running, nothing is shed and the headroom is above the boundary at which shedding begins; that
/// pressure is over they are told at once, and what they were told stays while it lasts.
pub proof fn pressure_is_told_unless_a_trim_may_end_it(
    controller: CgroupMemoryPressureController,
    trim_in_flight: bool,
)
    ensures
        controller.defers_reclamation(trim_in_flight) ==> controller.reclamation_active
            && !controller.memory_reclamation && trim_in_flight,
        controller.external_request_shedding == Some(true) ==> !controller.defers_reclamation(
            trim_in_flight,
        ),
        controller.latest_headroom_bytes <= controller.shedding_enter_headroom_bytes
            ==> !controller.defers_reclamation(trim_in_flight),
        trim_in_flight && controller.reclamation_active && !controller.memory_reclamation
            && controller.external_request_shedding != Some(true)
            && controller.latest_headroom_bytes > controller.shedding_enter_headroom_bytes
            ==> controller.defers_reclamation(trim_in_flight),
{
}

/// A running controller goes on if and only if its control group is found, can be read, and still
/// leaves room to recover; otherwise it keeps its controls as they are where the control group is
/// not found.
pub proof fn lost_control_groups_are_faults(
    controller: CgroupMemoryPressureController,
    reading: Result<CgroupReading, CgroupReadError>,
)
    ensures
        look_fault(controller, reading) is None <==> (reading matches Ok(CgroupReading::Memory(memory))
            && controller.sample_fault(memory) is None),
        reading is Err ==> look_fault(controller, reading) == Some(
            MemoryPressureError::Read(reading->Err_0),
        ),
        !(reading matches Ok(CgroupReading::Memory(_))) ==> looked(controller, reading) == controller
            && look_updates(controller, reading).len() == 0,
        reading matches Ok(CgroupReading::NoHierarchy) ==> look_fault(controller, reading) == Some(
            MemoryPressureError::LostHierarchy,
        ),
        reading matches Ok(CgroupReading::NoController) ==> look_fault(controller, reading) == Some(
            MemoryPressureError::LostController,
        ),
{
}

/// A controller starts if and only if the control group is found, has a limit, and the limit leaves
/// each enabled control room to go off.
pub proof fn controllers_start_with_room_to_recover(
    settings: MemoryPressureSettings,
    reading: CgroupReading,
)
    ensures
        reading_fault(settings, reading) is None <==> (reading matches CgroupReading::Memory(memory)
            && (memory.max_bytes matches Some(max) && (settings.shedding_enabled
            ==> settings.shedding_exit_headroom_bytes < max) && (settings.reclamation_enabled
            ==> settings.reclamation_exit_headroom_bytes < max))),
        reading matches CgroupReading::NoHierarchy ==> reading_fault(settings, reading) == Some(
            MemoryPressureError::NoHierarchy,
        ),
        reading matches CgroupReading::NoController ==> reading_fault(settings, reading) == Some(
            MemoryPressureError::NoController,
        ),
        reading matches CgroupReading::Memory(memory) ==> (memory.max_bytes is None ==> reading_fault(
            settings,
            reading,
        ) == Some(MemoryPressureError::NoFiniteLimit)),
{
}

/// The headroom and what is used make up the limit, unless more is used than that, which leaves
/// none.
pub proof fn use_and_headroom_make_up_the_limit(current: u64, max: u64)
    ensures
        current <= max ==> current + headroom(current, max) == max,
        current >= max ==> headroom(current, max) == 0,
{
}

/// An allocator is accepted if and only if it can do what is asked of it: with jemalloc that is no
/// trim, between one and 128 arenas, configuration errors that are fatal, background threads that
/// run exactly where they are supported, purging of dirty pages, statistics, and support of
/// profiling that is switched off; without jemalloc only GNU libc trims.
pub proof fn allocators_are_accepted_as_they_have_to_be(build: AllocatorBuild, trim_enabled: bool)
    ensures
        build is Glibc ==> allocator_fault(build, trim_enabled) is None,
        build is System ==> (allocator_fault(build, trim_enabled) is None <==> !trim_enabled),
        build matches AllocatorBuild::Jemalloc { configuration, background_thread_supported } ==> (
        allocator_fault(build, trim_enabled) is None <==> {
            &&& !trim_enabled
            &&& 1 <= configuration.narenas <= 128
            &&& configuration.abort_on_invalid_configuration
            &&& configuration.background_thread_configured == background_thread_supported
            &&& configuration.background_thread_active == background_thread_supported
            &&& configuration.dirty_decay_ms >= 0
            &&& configuration.statistics_supported
            &&& configuration.profiling_supported
            &&& !configuration.profiling_enabled
            &&& !configuration.profiling_active
        }),
{
}

/// The metrics tell that a control went on or off exactly when a sample changed it, each with its
/// new state.
pub proof fn changes_of_controls_are_shown(
    controller: CgroupMemoryPressureController,
    memory: CgroupMemory,
    max: u64,
)
    requires
        memory.max_bytes == Some(max),
    ensures
        ({
            let after = controller.updated(memory);
            let shown = controller.sample_updates(memory);
            let reclaims = controller.reclamation_active != after.reclamation_active;
            let sheds = (controller.external_request_shedding == Some(true)) != (
            after.external_request_shedding == Some(true));
            &&& shown.len() == 1 + (if reclaims {
                2int
            } else {
                0
            }) + (if sheds {
                2int
            } else {
                0
            })
            &&& shown[0] == gauge(
                "backend_memory_pressure_headroom_bytes"@,
                after.latest_headroom_bytes as int,
                no_labels_view(),
            )
            &&& reclaims ==> shown.contains(
                counter(
                    "backend_memory_reclamation_transitions_total"@,
                    1,
                    seq![
                        (
                            "state"@,
                            if after.reclamation_active {
                                "active"@
                            } else {
                                "inactive"@
                            },
                        ),
                    ],
                ),
            )
            &&& sheds ==> shown.contains(
                counter(
                    "backend_memory_pressure_transitions_total"@,
                    1,
                    seq![
                        (
                            "state"@,
                            if after.external_request_shedding == Some(true) {
                                "active"@
                            } else {
                                "inactive"@
                            },
                        ),
                    ],
                ),
            )
        }),
{
    let after = controller.updated(memory);
    let shown = controller.sample_updates(memory);
    let reclaims = controller.reclamation_active != after.reclamation_active;
    let sheds = (controller.external_request_shedding == Some(true)) != (
    after.external_request_shedding == Some(true));
    let reclamation = transition_updates(
        "backend_memory_reclamation_active_info"@,
        "backend_memory_reclamation_transitions_total"@,
        controller.reclamation_active,
        after.reclamation_active,
    );
    let shedding = transition_updates(
        "backend_memory_pressure_shedding_active_info"@,
        "backend_memory_pressure_transitions_total"@,
        controller.external_request_shedding == Some(true),
        after.external_request_shedding == Some(true),
    );
    let first = seq![
        gauge(
            "backend_memory_pressure_headroom_bytes"@,
            headroom(memory.current_bytes, max) as int,
            no_labels_view(),
        ),
    ];
    assert(shown =~= first + reclamation + shedding);
    assert(after.latest_headroom_bytes == headroom(memory.current_bytes, max));
    assert(shown[0] == first[0]);
    if reclaims {
        assert(shown[2] == reclamation[1]);
    }
    if sheds {
        assert(shown[shown.len() - 1] == shedding[1]);
    }
}

} // verus!

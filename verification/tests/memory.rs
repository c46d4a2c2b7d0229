use backend_runtime::allocator_trim::{
    allocator_trim_snapshot, finish_allocator_trim, measure_allocator_trim, run_allocator_trim,
    signed_memory_change, try_result, AllocatorTrimError, AllocatorTrimRun, AllocatorTrimSnapshot,
    AllocatorTrimStep, PageFaults, SnapshotSources, TrimWorkerReply,
};
use backend_runtime::cgroup::{
    decode_mountinfo_path, effective_cgroup_root_from, CgroupRootError,
};
use backend_runtime::malloc_info::{parse_malloc_info_arena_count, MallocInfoError};
use backend_runtime::memory_pressure::{
    check_memory_pressure_settings, pressure_state, start_memory_pressure_controller,
    validate_allocator_configuration, validate_jemalloc_configuration, AllocatorBuild,
    AllocatorConfigurationError, CgroupMemoryPressureController, CgroupReadError, CgroupReading,
    JemallocConfiguration, MemoryPressureError, MemoryPressureSettings,
};
use backend_runtime::memory_report::{
    announce_memory_telemetry, close_report, glibc_allocator_memory, initialized_arena_count,
    jemalloc_memory,
    malloc_info_length, report_allocator_arena_count, report_cgroup_events, report_cgroup_stat,
    report_with_cgroup, AllocatorMemoryError, AllocatorSample, GlibcAllocatorMemory,
    JemallocMemory, MallInfo, MallocInfoStream, ReportCadence, SourceError,
    MAX_MALLOC_INFO_BYTES, MEMORY_REPORTS_PER_ALLOCATOR_ARENA_REPORT,
};
use backend_runtime::memory_text::{
    parse_keyed_u64, parse_kib, parse_process_status, parse_single_u64, read_cgroup_memory,
    CgroupMemory, CgroupMemoryError, KeyedValuesError, KibError, ProcessMemory,
    ProcessStatusError, SingleIntegerError, StatusField,
};
use backend_runtime::metric_log::{MetricLog, MetricOperation, MetricUpdate, MetricValue};
use backend_runtime::pressure_loop::{
    PressureAction, PressureEvent, PressureLoop, PressureStage,
};
use backend_runtime::startup_budget::{
    configured_startup_budget, startup_budget_headroom, validate_startup_budget,
    MemoryBudgetComponent, StartupBudgetError, StartupBudgetSettings, StartupMemoryBudget,
};
use backend_runtime::time::{Duration, Moment};

fn start() -> Moment {
    Moment::after_origin(Duration::from_secs(1_000))
}

fn value_of(updates: &[MetricUpdate], family: &str) -> Option<MetricValue> {
    updates.iter().rev().find(|update| update.family == family).map(|update| update.value)
}

#[test]
fn memory_pressure_state_uses_inclusive_enter_and_exit_hysteresis() {
    let enter = 3;
    let exit = 5;

    assert!(!pressure_state(false, 4, enter, exit));
    assert!(pressure_state(false, 3, enter, exit));
    assert!(pressure_state(true, 4, enter, exit));
    assert!(!pressure_state(true, 5, enter, exit));
}

fn controller(shedding: Option<bool>) -> CgroupMemoryPressureController {
    CgroupMemoryPressureController {
        external_request_shedding: shedding,
        shedding_enter_headroom_bytes: 3,
        shedding_exit_headroom_bytes: 5,
        latest_headroom_bytes: 100,
        memory_reclamation: false,
        reclamation_active: false,
        reclamation_enabled: true,
        reclamation_enter_headroom_bytes: 6,
        reclamation_exit_headroom_bytes: 8,
        allocator_trim_enabled: false,
        allocator_trim_min_free_bytes: 1,
        allocator_trim_cooldown: Duration::from_secs(1),
        last_allocator_trim_evaluated: None,
    }
}

fn memory(current_bytes: u64) -> CgroupMemory {
    CgroupMemory { current_bytes, max_bytes: Some(100) }
}

#[test]
fn reclamation_entry_waits_for_trim_only_above_the_shedding_boundary() {
    let mut log = MetricLog::new();
    let mut controller = controller(Some(false));

    controller.update(&memory(95), &mut log).unwrap();
    assert!(controller.reclamation_active);
    assert_eq!(controller.external_request_shedding(), Some(false));
    assert!(!controller.memory_reclamation());
    controller.publish_reclamation_state(true);
    assert!(!controller.memory_reclamation());

    controller.update(&memory(97), &mut log).unwrap();
    assert_eq!(controller.external_request_shedding(), Some(true));
    controller.publish_reclamation_state(true);
    assert!(controller.memory_reclamation());
    controller.publish_reclamation_state(false);
    assert!(controller.memory_reclamation());

    controller.update(&memory(92), &mut log).unwrap();
    assert!(!controller.reclamation_active);
    assert_eq!(controller.external_request_shedding(), Some(false));
    assert!(controller.memory_reclamation());
    controller.publish_reclamation_state(true);
    assert!(!controller.memory_reclamation());
}

#[test]
fn reclamation_entry_does_not_wait_below_shedding_boundary_when_shedding_is_disabled() {
    let mut log = MetricLog::new();
    let mut controller = controller(None);

    controller.update(&memory(95), &mut log).unwrap();
    controller.publish_reclamation_state(true);
    assert!(!controller.memory_reclamation());

    controller.update(&memory(97), &mut log).unwrap();
    controller.publish_reclamation_state(true);
    assert!(controller.memory_reclamation());
}

#[test]
fn allocator_trim_eligibility_scan_obeys_the_trim_cooldown() {
    let cooldown = Duration::from_secs(300);
    let mut controller = CgroupMemoryPressureController {
        latest_headroom_bytes: 3,
        reclamation_active: true,
        allocator_trim_enabled: true,
        allocator_trim_cooldown: cooldown,
        ..controller(None)
    };

    assert!(controller.claim_allocator_trim(start()));
    assert!(!controller.claim_allocator_trim(start()));
    assert!(controller.claim_allocator_trim(start().plus(cooldown)));
}

#[test]
fn trim_memory_change_preserves_release_direction() {
    assert_eq!(signed_memory_change(100, 40), -60);
    assert_eq!(signed_memory_change(40, 100), 60);
    assert_eq!(signed_memory_change(40, 40), 0);
}

#[test]
fn malloc_info_parser_counts_only_structural_heap_elements() {
    let xml = r#"
<malloc version="1" note="&lt;heap nr=&quot;9&quot;&gt;">
  <heap nr="0"><sizes><size from="1" to='2'/></sizes></heap>
  <heap nr="1"></heap>
  <total type="rest" count="0" size="0"/>
</malloc>
"#;
    assert_eq!(parse_malloc_info_arena_count(xml).unwrap(), 2);
}

#[test]
fn malloc_info_parser_rejects_malformed_or_incomplete_output() {
    for (xml, error) in [
        ("", MallocInfoError::NoRoot),
        ("<malloc></malloc>", MallocInfoError::NoArenas),
        ("<malloc><heap nr=\"0\"></malloc>", MallocInfoError::MismatchedTags),
        ("<malloc><heap nr=\"0\"></heap>", MallocInfoError::Truncated),
        ("<malloc><heap nr=0/></malloc>", MallocInfoError::UnquotedValue),
        ("<malloc><heap nr=\"0\" nr=\"1\"/></malloc>", MallocInfoError::DuplicateAttribute),
        (
            "<malloc><heap nr=\"0\"/></malloc><malloc><heap nr=\"1\"/></malloc>",
            MallocInfoError::ContentAfterRoot,
        ),
        ("<malloc><heap nr=\"0\0\"/></malloc>", MallocInfoError::ContainsNul),
    ] {
        assert_eq!(parse_malloc_info_arena_count(xml), Err(error), "{xml:?}");
    }
}

#[test]
fn each_fault_of_a_malloc_report_is_told_apart() {
    let deep = format!("{}{}", "<malloc>", "<a>".repeat(16));
    let wide: String = (0..17).map(|i| format!(" a{i}=\"1\"")).collect();
    for (xml, error) in [
        ("text<malloc/>".to_owned(), MallocInfoError::TextOutsideTag),
        ("<malloc".to_owned(), MallocInfoError::IncompleteOpeningTag),
        ("<heap/>".to_owned(), MallocInfoError::RootIsNotMalloc),
        ("</malloc>".to_owned(), MallocInfoError::UnmatchedClosingTag),
        ("<malloc><heap nr=\"a<b\"/></malloc>".to_owned(), MallocInfoError::LessThanInValue),
        ("<malloc><heap nr=\"0".to_owned(), MallocInfoError::UnterminatedValue),
        ("<malloc><heap nr></malloc>".to_owned(), MallocInfoError::MissingEquals),
        ("<malloc><heap a=\"1\"b=\"2\"/></malloc>".to_owned(), MallocInfoError::AttributesNotSeparated),
        (format!("<malloc><heap{wide}/></malloc>"), MallocInfoError::TooManyAttributes),
        (deep, MallocInfoError::NestingLimit),
        ("<1/>".to_owned(), MallocInfoError::InvalidName),
    ] {
        assert_eq!(parse_malloc_info_arena_count(&xml), Err(error), "{xml:?}");
    }
}

#[test]
fn unsupported_allocator_trim_does_not_sample_proc_or_cgroup_files() {
    assert!(matches!(
        measure_allocator_trim(&AllocatorBuild::System, None, 1),
        AllocatorTrimStep::Unsupported
    ));
}

fn jemalloc() -> JemallocConfiguration {
    JemallocConfiguration {
        narenas: 32,
        dirty_decay_ms: 10_000,
        abort_on_invalid_configuration: true,
        background_thread_configured: true,
        background_thread_active: true,
        statistics_supported: true,
        profiling_supported: true,
        profiling_enabled: false,
        profiling_active: false,
    }
}

fn jemalloc_build() -> AllocatorBuild {
    AllocatorBuild::Jemalloc { configuration: jemalloc(), background_thread_supported: true }
}

#[test]
fn jemalloc_build_rejects_glibc_trim() {
    let error = validate_allocator_configuration(&jemalloc_build(), true).unwrap_err();
    assert!(error.message().contains("LOCAL_BACKEND_MALLOC_TRIM_ENABLED is incompatible"));
}

#[test]
fn jemalloc_build_requires_profiling_support() {
    let mut configuration = jemalloc();
    configuration.profiling_supported = false;
    let error = validate_jemalloc_configuration(&configuration, true, false).unwrap_err();
    assert_eq!(
        error.message(),
        "jemalloc profiling support is required for this backend build"
    );
}

#[test]
fn jemalloc_settings_are_checked_one_by_one() {
    let check = |configuration: JemallocConfiguration, threads: bool| {
        validate_jemalloc_configuration(&configuration, threads, false).err()
    };
    assert_eq!(check(jemalloc(), true), None);
    assert_eq!(
        check(JemallocConfiguration { narenas: 0, ..jemalloc() }, true),
        Some(AllocatorConfigurationError::ArenaLimit)
    );
    assert_eq!(
        check(JemallocConfiguration { narenas: 129, ..jemalloc() }, true),
        Some(AllocatorConfigurationError::ArenaLimit)
    );
    assert_eq!(
        check(
            JemallocConfiguration { abort_on_invalid_configuration: false, ..jemalloc() },
            true
        ),
        Some(AllocatorConfigurationError::InvalidConfigurationNotFatal)
    );
    assert_eq!(
        check(JemallocConfiguration { background_thread_active: false, ..jemalloc() }, true),
        Some(AllocatorConfigurationError::BackgroundThreadsInactive)
    );
    assert_eq!(
        check(jemalloc(), false),
        Some(AllocatorConfigurationError::BackgroundThreadsUnsupported)
    );
    assert_eq!(
        check(JemallocConfiguration { dirty_decay_ms: -1, ..jemalloc() }, true),
        Some(AllocatorConfigurationError::DirtyPagePurgingDisabled)
    );
    assert_eq!(
        check(JemallocConfiguration { statistics_supported: false, ..jemalloc() }, true),
        Some(AllocatorConfigurationError::StatisticsUnsupported)
    );
    assert_eq!(
        check(JemallocConfiguration { profiling_enabled: true, ..jemalloc() }, true),
        Some(AllocatorConfigurationError::ProfilingEnabled)
    );
}

#[test]
fn system_allocator_build_rejects_glibc_trim() {
    let error = validate_allocator_configuration(&AllocatorBuild::System, true).unwrap_err();
    assert_eq!(
        error.message(),
        "LOCAL_BACKEND_MALLOC_TRIM_ENABLED requires a GNU libc Linux backend build"
    );
    assert!(validate_allocator_configuration(&AllocatorBuild::System, false).is_ok());
    assert!(validate_allocator_configuration(&AllocatorBuild::Glibc, true).is_ok());
}

const STATUS: &str = "\
VmSize:\t1000 kB
VmRSS:\t600 kB
RssAnon:\t300 kB
RssFile:\t200 kB
RssShmem:\t100 kB
VmSwap:\t50 kB
";

#[test]
fn live_process_memory_accounting_reconciles() {
    let mut log = MetricLog::new();
    let failures = report_with_cgroup(
        Some(STATUS),
        &AllocatorSample::System,
        &Ok(None),
        None,
        None,
        &mut log,
    );
    assert!(failures.is_empty());
}

#[test]
fn process_status_requires_reconciled_rss_components() {
    assert_eq!(
        parse_process_status(STATUS).unwrap(),
        ProcessMemory {
            virtual_bytes: 1_024_000,
            resident_bytes: 614_400,
            resident_anon_bytes: 307_200,
            resident_file_bytes: 204_800,
            resident_shmem_bytes: 102_400,
            swap_bytes: 51_200,
        }
    );

    let inconsistent = STATUS.replace("VmRSS:\t600", "VmRSS:\t601");
    assert!(parse_process_status(&inconsistent)
        .unwrap_err()
        .message()
        .contains("does not reconcile"));
}

#[test]
fn each_fault_of_a_process_status_is_told_apart() {
    assert_eq!(
        parse_process_status(""),
        Err(ProcessStatusError::MissingField(StatusField::VmSize))
    );
    assert_eq!(
        parse_process_status("VmSize:\t1 kB\nVmSize:\t1 kB\n"),
        Err(ProcessStatusError::DuplicateField(StatusField::VmSize))
    );
    assert_eq!(
        parse_process_status("VmSize:\t1 MB\n"),
        Err(ProcessStatusError::InvalidField(StatusField::VmSize, KibError::NotKib))
    );
    assert_eq!(parse_kib("2 kB"), Ok(2048));
    assert_eq!(parse_kib(""), Err(KibError::Missing));
    assert!(matches!(parse_kib("x kB"), Err(KibError::Invalid(_))));
    assert_eq!(parse_kib("1 kB more"), Err(KibError::TrailingFields));
    assert_eq!(parse_kib("18446744073709551615 kB"), Err(KibError::Overflow));
}

#[test]
fn cgroup_memory_preserves_absolute_events_and_unlimited_state() {
    let mut log = MetricLog::new();
    let memory = read_cgroup_memory(Some("123\n"), Some("max\n")).unwrap().unwrap();
    assert_eq!(memory.current_bytes, 123);
    assert_eq!(memory.max_bytes, None);
    report_cgroup_stat(Some("anon 10\nfile 20\n"), &mut log).unwrap();
    report_cgroup_events(
        Some("low 1\nhigh 2\nmax 3\noom 4\noom_kill 5\noom_group_kill 6\n"),
        &mut log,
    )
    .unwrap();
}

#[test]
fn missing_cgroup_memory_controller_is_explicit() {
    assert_eq!(read_cgroup_memory(None, None).unwrap(), None);
    assert_eq!(
        read_cgroup_memory(Some("1"), None),
        Err(CgroupMemoryError::IncompleteController)
    );
}

fn root(cgroup: &str, mountinfo: &str) -> Option<String> {
    effective_cgroup_root_from(cgroup, mountinfo)
        .unwrap()
        .map(|path| String::from_utf8(path.to_bytes()).unwrap())
}

#[test]
fn effective_cgroup_root_handles_private_and_host_cgroup_namespaces() {
    let private = root("0::/\n", "29 23 0:26 / /sys/fs/cgroup rw - cgroup2 cgroup rw\n");
    assert_eq!(private.as_deref(), Some("/sys/fs/cgroup"));

    let host = root(
        "0::/system.slice/backend.service\n",
        "29 23 0:26 / /sys/fs/cgroup rw - cgroup2 cgroup rw\n",
    );
    assert_eq!(host.as_deref(), Some("/sys/fs/cgroup/system.slice/backend.service"));

    let subtree = root(
        "0::/system.slice/backend.service\n",
        "29 23 0:26 / /sys/fs/cgroup rw - cgroup2 cgroup rw\n30 23 0:26 /system.slice \
         /run/cgroup rw - cgroup2 cgroup rw\n",
    );
    assert_eq!(subtree.as_deref(), Some("/run/cgroup/backend.service"));
}

#[test]
fn effective_cgroup_root_decodes_mountinfo_paths() {
    let root = root(
        "0::/tenant/backend\n",
        "29 23 0:26 /tenant /sys/fs/cgroup\\040space rw - cgroup2 cgroup rw\n",
    );
    assert_eq!(root.as_deref(), Some("/sys/fs/cgroup space/backend"));
}

#[test]
fn effective_cgroup_root_distinguishes_absent_and_unmatched_v2() {
    assert_eq!(
        root(
            "2:memory:/backend\n",
            "29 23 0:26 / /sys/fs/cgroup/memory rw - cgroup cgroup rw,memory\n",
        ),
        None
    );

    let error = effective_cgroup_root_from(
        "0::/backend\n",
        "29 23 0:26 /other /sys/fs/cgroup rw - cgroup2 cgroup rw\n",
    )
    .unwrap_err();
    assert!(error.message().contains("not exposed"));
}

#[test]
fn effective_cgroup_root_rejects_malformed_unified_entries() {
    for cgroup in ["0::relative\n", "0::/one\n0::/two\n"] {
        assert!(effective_cgroup_root_from(
            cgroup,
            "29 23 0:26 / /sys/fs/cgroup rw - cgroup2 cgroup rw\n",
        )
        .is_err());
    }
}

#[test]
fn escapes_of_mount_paths_are_undone_or_refused() {
    assert_eq!(decode_mountinfo_path("a\\040b").unwrap(), b"a b".to_vec());
    assert_eq!(decode_mountinfo_path("\\04"), Err(CgroupRootError::IncompleteEscape));
    assert_eq!(decode_mountinfo_path("\\0a0"), Err(CgroupRootError::InvalidEscape));
    assert_eq!(decode_mountinfo_path("\\777"), Err(CgroupRootError::EscapeOverflow));
}

fn hundred_byte_budget() -> StartupMemoryBudget {
    StartupMemoryBudget::new(vec![MemoryBudgetComponent { name: "test", bytes: 100 }]).unwrap()
}

#[test]
fn finite_cgroup_limit_must_cover_configured_budget() {
    let budget = hundred_byte_budget();
    let cgroup = read_cgroup_memory(Some("80\n"), Some("150\n")).unwrap();
    assert_eq!(startup_budget_headroom(cgroup, &budget).unwrap(), Some(50));

    let cgroup = read_cgroup_memory(Some("80\n"), Some("99\n")).unwrap();
    let error = startup_budget_headroom(cgroup, &budget).unwrap_err();
    assert_eq!(error, StartupBudgetError::ExceedsLimit { budget_bytes: 100, limit_bytes: 99 });
    assert!(error.message().contains("exceeds the finite cgroup memory limit"));
}

#[test]
fn unlimited_or_absent_cgroup_skips_feasibility_failure() {
    let budget = hundred_byte_budget();
    let absent = read_cgroup_memory(None, None).unwrap();
    assert_eq!(startup_budget_headroom(absent, &budget).unwrap(), None);

    let unlimited = read_cgroup_memory(Some("80\n"), Some("max\n")).unwrap();
    assert_eq!(startup_budget_headroom(unlimited, &budget).unwrap(), None);
}

#[test]
fn malformed_present_cgroup_controller_fails_feasibility_check() {
    assert!(matches!(
        read_cgroup_memory(Some("80\n"), Some("not-a-limit\n")),
        Err(CgroupMemoryError::InvalidMax(_))
    ));
    assert!(matches!(
        read_cgroup_memory(Some("eighty\n"), Some("max\n")),
        Err(CgroupMemoryError::InvalidCurrent(_))
    ));
}

#[test]
fn incomplete_present_cgroup_controller_fails_feasibility_check() {
    assert_eq!(
        read_cgroup_memory(None, Some("100\n")),
        Err(CgroupMemoryError::IncompleteController)
    );
    let mut log = MetricLog::new();
    let reading = Err(CgroupReadError::Memory(CgroupMemoryError::IncompleteController));
    assert!(validate_startup_budget(&budget_settings(), &reading, &mut log).is_err());
}

fn budget_settings() -> StartupBudgetSettings {
    StartupBudgetSettings {
        max_isolate_workers: 2,
        isolate_max_user_heap_size: 10,
        isolate_max_heap_extra_size: 5,
        isolate_max_array_buffer_total_size: 3,
        udf_cache_max_size: 1,
        index_cache_size: 1,
        module_cache_max_size_bytes: 1,
        funrun_index_cache_size: 1,
        funrun_module_cache_size: 1,
        funrun_code_cache_size: 1,
        local_node_executor_max_rss_bytes: 1,
        native_kernel_memory_reserve_bytes: 1,
    }
}

#[test]
fn the_configured_budget_adds_up() {
    let budget = configured_startup_budget(&budget_settings()).unwrap();
    let sum: u64 = budget.components.iter().map(|component| component.bytes).sum();
    assert_eq!(budget.total_bytes, sum);
    assert!(budget.components.iter().any(|component| component.bytes == 30));
    assert!(budget.components.iter().any(|component| component.bytes == 6));
    let full = StartupMemoryBudget::new(vec![
        MemoryBudgetComponent { name: "a", bytes: u64::MAX },
        MemoryBudgetComponent { name: "b", bytes: 1 },
    ]);
    assert_eq!(full.err(), Some(StartupBudgetError::TotalOverflow));
}

#[test]
fn single_integers_and_keyed_values_are_read_strictly() {
    assert_eq!(parse_single_u64(" 7 \n"), Ok(7));
    assert_eq!(parse_single_u64(""), Err(SingleIntegerError::Missing));
    assert_eq!(parse_single_u64("7 8"), Err(SingleIntegerError::TrailingFields));
    assert!(matches!(parse_single_u64("x"), Err(SingleIntegerError::Invalid(_))));
    let values = parse_keyed_u64("a 1\nb 2\n").unwrap();
    assert_eq!(values.get("a"), Some(&1));
    assert_eq!(values.get("b"), Some(&2));
    assert!(matches!(parse_keyed_u64("a\n"), Err(KeyedValuesError::MissingValue)));
    assert!(matches!(parse_keyed_u64("a 1 2\n"), Err(KeyedValuesError::TrailingFields(_))));
    assert!(matches!(parse_keyed_u64("a 1\na 2\n"), Err(KeyedValuesError::DuplicateKey(_))));
    assert!(matches!(parse_keyed_u64("\n"), Err(KeyedValuesError::MissingKey)));
    assert!(matches!(parse_keyed_u64("a x\n"), Err(KeyedValuesError::InvalidValue(_))));
}

fn pressure_settings() -> MemoryPressureSettings {
    MemoryPressureSettings {
        shedding_enabled: true,
        shedding_enter_headroom_bytes: 3,
        shedding_exit_headroom_bytes: 5,
        reclamation_enabled: true,
        reclamation_enter_headroom_bytes: 6,
        reclamation_exit_headroom_bytes: 8,
        allocator_trim_enabled: true,
        allocator_trim_min_free_bytes: 1,
        allocator_trim_cooldown: Duration::from_secs(1),
    }
}

#[test]
fn pressure_settings_are_checked_before_control_starts() {
    let mut log = MetricLog::new();
    let mut check = |settings: MemoryPressureSettings| {
        check_memory_pressure_settings(&settings, &AllocatorBuild::Glibc, &mut log)
    };
    assert_eq!(check(pressure_settings()), Ok(true));
    assert_eq!(
        check(MemoryPressureSettings { reclamation_enabled: false, ..pressure_settings() }),
        Err(MemoryPressureError::TrimWithoutReclamation)
    );
    assert_eq!(
        check(MemoryPressureSettings { allocator_trim_min_free_bytes: 0, ..pressure_settings() }),
        Err(MemoryPressureError::TrimMinFreeBytesZero)
    );
    assert_eq!(
        check(MemoryPressureSettings {
            allocator_trim_cooldown: Duration::zero(),
            ..pressure_settings()
        }),
        Err(MemoryPressureError::TrimCooldownZero)
    );
    assert_eq!(
        check(MemoryPressureSettings { shedding_exit_headroom_bytes: 3, ..pressure_settings() }),
        Err(MemoryPressureError::SheddingThresholds)
    );
    assert_eq!(
        check(MemoryPressureSettings {
            reclamation_exit_headroom_bytes: 6,
            ..pressure_settings()
        }),
        Err(MemoryPressureError::ReclamationThresholds)
    );
    assert_eq!(
        check(MemoryPressureSettings {
            reclamation_enter_headroom_bytes: 3,
            ..pressure_settings()
        }),
        Err(MemoryPressureError::ReclamationBelowShedding)
    );
}

#[test]
fn control_starts_only_under_a_finite_limit() {
    let mut log = MetricLog::new();
    let settings = pressure_settings();
    let mut begin =
        |reading: CgroupReading| start_memory_pressure_controller(&settings, &reading, &mut log);
    let unlimited = CgroupMemory { current_bytes: 1, max_bytes: None };
    assert!(matches!(begin(CgroupReading::NoHierarchy), Err(MemoryPressureError::NoHierarchy)));
    assert!(matches!(begin(CgroupReading::NoController), Err(MemoryPressureError::NoController)));
    assert!(matches!(
        begin(CgroupReading::Memory(unlimited)),
        Err(MemoryPressureError::NoFiniteLimit)
    ));
    assert!(matches!(
        begin(CgroupReading::Memory(CgroupMemory { current_bytes: 0, max_bytes: Some(4) })),
        Err(MemoryPressureError::SheddingExitAboveLimit)
    ));
    assert!(matches!(
        begin(CgroupReading::Memory(CgroupMemory { current_bytes: 0, max_bytes: Some(7) })),
        Err(MemoryPressureError::ReclamationExitAboveLimit)
    ));
    let started = begin(CgroupReading::Memory(memory(98))).unwrap();
    assert_eq!(started.external_request_shedding(), Some(true));
    assert!(started.reclamation_active);
}

#[test]
fn a_round_of_the_pressure_loop_samples_trims_and_pauses() {
    let mut log = MetricLog::new();
    let trimming = CgroupMemoryPressureController {
        allocator_trim_enabled: true,
        ..controller(Some(false))
    };
    let mut pressure = PressureLoop::new(trimming);
    assert_eq!(pressure.stage, PressureStage::Sample);
    let sampled = PressureEvent::Sampled {
        reading: Ok(CgroupReading::Memory(memory(95))),
        now: start(),
    };
    let action = pressure.step(&sampled, &mut log);
    assert_eq!(action, PressureAction::StartTrim { min_free_bytes: 1 });
    assert_eq!(pressure.step(&PressureEvent::TrimStarted, &mut log), PressureAction::Pause);
    assert!(pressure.trim_in_flight);
    assert_eq!(pressure.step(&PressureEvent::Paused, &mut log), PressureAction::Sample);
    assert_eq!(pressure.step(&sampled, &mut log), PressureAction::PollTrim);
    assert_eq!(
        pressure.step(&PressureEvent::TrimEnded { failed: false }, &mut log),
        PressureAction::Sample
    );
    assert!(!pressure.trim_in_flight);
    let lost = PressureEvent::Sampled { reading: Ok(CgroupReading::NoHierarchy), now: start() };
    assert_eq!(
        pressure.step(&lost, &mut log),
        PressureAction::Shutdown(MemoryPressureError::LostHierarchy)
    );
    assert_eq!(pressure.stage, PressureStage::Stopped);
}

fn snapshot(resident: u64, free: u64) -> AllocatorTrimSnapshot {
    AllocatorTrimSnapshot {
        process: ProcessMemory {
            virtual_bytes: resident,
            resident_bytes: resident,
            resident_anon_bytes: resident,
            resident_file_bytes: 0,
            resident_shmem_bytes: 0,
            swap_bytes: 0,
        },
        allocator: Some(GlibcAllocatorMemory {
            arena_bytes: free,
            mmap_bytes: 0,
            in_use_bytes: 0,
            free_bytes: free,
            main_arena_top_chunk_bytes: 0,
            mmap_regions: 0,
        }),
        cgroup_current_bytes: resident,
        cgroup_anon_bytes: resident,
        page_faults: PageFaults { minor: 1, major: 1 },
    }
}

#[test]
fn a_trim_is_made_only_where_enough_is_free() {
    let build = AllocatorBuild::Glibc;
    assert!(matches!(measure_allocator_trim(&build, None, 10), AllocatorTrimStep::TakeSnapshot));
    assert!(matches!(
        measure_allocator_trim(&build, Some(&snapshot(100, 9)), 10),
        AllocatorTrimStep::BelowFreeThreshold
    ));
    assert!(matches!(
        measure_allocator_trim(&build, Some(&snapshot(100, 10)), 10),
        AllocatorTrimStep::Trim
    ));
}

#[test]
fn a_finished_trim_shows_what_it_released() {
    let mut log = MetricLog::new();
    let before = snapshot(100, 50);
    finish_allocator_trim(&before, Ok(snapshot(40, 0)), true, Duration::from_millis(5), &mut log)
        .unwrap();
    assert!(!log.take().is_empty());
    let mut fewer = snapshot(40, 0);
    fewer.page_faults = PageFaults { minor: 0, major: 1 };
    let failed =
        finish_allocator_trim(&before, Ok(fewer), true, Duration::from_millis(5), &mut log);
    assert!(matches!(failed, Err(AllocatorTrimError::MinorFaultsDecreased)));
    assert!(run_allocator_trim(AllocatorTrimRun::Unsupported, &mut log).is_ok());
    assert!(run_allocator_trim(AllocatorTrimRun::BelowFreeThreshold, &mut log).is_ok());
}

#[test]
fn a_trim_worker_that_goes_away_has_failed() {
    let mut log = MetricLog::new();
    assert!(try_result(TrimWorkerReply::Empty, &mut log).is_none());
    assert!(matches!(try_result(TrimWorkerReply::Finished(Ok(())), &mut log), Some(Ok(()))));
    assert!(matches!(
        try_result(TrimWorkerReply::Disconnected, &mut log),
        Some(Err(AllocatorTrimError::WorkerStopped))
    ));
}

#[test]
fn a_snapshot_needs_every_source() {
    let sources = SnapshotSources {
        status: Some(STATUS),
        allocator: Ok(None),
        cgroup: Ok(Some(memory(50))),
        stat: Some("anon 10\nfile 20\n"),
        page_faults: Some(PageFaults { minor: 1, major: 2 }),
    };
    let taken = allocator_trim_snapshot(&sources).unwrap();
    assert_eq!(taken.cgroup_current_bytes, 50);
    assert_eq!(taken.cgroup_anon_bytes, 10);
    let without = SnapshotSources { cgroup: Ok(None), ..sources };
    assert!(matches!(allocator_trim_snapshot(&without), Err(AllocatorTrimError::NoController)));
    let without =
        SnapshotSources { cgroup: Ok(Some(memory(50))), stat: Some("file 1\n"), ..without };
    assert!(matches!(
        allocator_trim_snapshot(&without),
        Err(AllocatorTrimError::NoAnonymousAccounting)
    ));
}

#[test]
fn allocator_figures_must_fit_together() {
    let info = MallInfo { arena: 10, hblks: 1, hblkhd: 5, uordblks: 6, fordblks: 4, keepcost: 2 };
    let memory = glibc_allocator_memory(&info).unwrap();
    assert_eq!(memory.arena_bytes, 10);
    assert_eq!(memory.free_bytes, 4);
    assert_eq!(
        glibc_allocator_memory(&MallInfo { fordblks: 5, ..info }).err(),
        Some(AllocatorMemoryError::ArenaNotReconciled)
    );
    assert_eq!(
        glibc_allocator_memory(&MallInfo { keepcost: 5, ..info }).err(),
        Some(AllocatorMemoryError::TopChunkExceedsFree)
    );
    let figures = JemallocMemory {
        allocated_bytes: 1,
        active_bytes: 2,
        metadata_bytes: 1,
        resident_bytes: 3,
        mapped_bytes: 4,
        retained_bytes: 5,
    };
    assert!(jemalloc_memory(figures).is_ok());
    assert_eq!(
        jemalloc_memory(JemallocMemory { allocated_bytes: 3, ..figures }).err(),
        Some(AllocatorMemoryError::AllocatedExceedsActive)
    );
    assert_eq!(
        jemalloc_memory(JemallocMemory { active_bytes: 4, ..figures }).err(),
        Some(AllocatorMemoryError::ActiveExceedsResident)
    );
    assert_eq!(
        jemalloc_memory(JemallocMemory { metadata_bytes: 4, ..figures }).err(),
        Some(AllocatorMemoryError::MetadataExceedsResident)
    );
    assert_eq!(initialized_arena_count(&vec![true, false, true]), Ok(2));
    assert_eq!(
        initialized_arena_count(&vec![false]),
        Err(AllocatorMemoryError::NoInitializedArenas)
    );
}

#[test]
fn a_malloc_report_that_does_not_fit_is_refused() {
    let stream = MallocInfoStream {
        info_result: 0,
        flush_result: 0,
        stream_error: 0,
        length: 12,
        close_result: 0,
    };
    assert_eq!(malloc_info_length(&stream, MAX_MALLOC_INFO_BYTES), Ok(12));
    let refuse = |stream: MallocInfoStream| malloc_info_length(&stream, 16).err();
    assert_eq!(
        refuse(MallocInfoStream { info_result: 1, ..stream }),
        Some(AllocatorMemoryError::MallocInfoFailed)
    );
    assert_eq!(
        refuse(MallocInfoStream { length: 17, ..stream }),
        Some(AllocatorMemoryError::OutputTooLong)
    );
}

#[test]
fn failures_of_memory_reports_are_counted_from_zero() {
    let mut log = MetricLog::new();
    announce_memory_telemetry(&mut log);
    let updates = log.take();
    assert_eq!(updates.len(), 1);
    assert_eq!(updates[0].operation, MetricOperation::IncrementCounter);
    assert_eq!(
        value_of(&updates, "backend_memory_telemetry_failures_total"),
        Some(MetricValue::Integer(0))
    );
    assert!(updates[0].labels.is_empty());
}

#[test]
fn a_source_that_fails_is_named() {
    let mut log = MetricLog::new();
    let failures = report_with_cgroup(
        None,
        &AllocatorSample::Glibc(Err(AllocatorMemoryError::Unreadable)),
        &Ok(None),
        None,
        None,
        &mut log,
    );
    assert_eq!(failures.len(), 2);
    assert!(matches!(failures[0].error, SourceError::Unreadable));
    close_report(&failures, &mut log);
    report_allocator_arena_count(Some(4), &mut log);
    let updates = log.take();
    assert!(updates.iter().any(|update| update.value == MetricValue::Integer(4)));
    assert!(value_of(&updates, "no_such_family").is_none());
}

#[test]
fn arenas_are_counted_with_every_twentieth_report() {
    let mut cadence = ReportCadence::new();
    let mut due = Vec::new();
    for round in 0..=MEMORY_REPORTS_PER_ALLOCATOR_ARENA_REPORT * 2 {
        if cadence.arena_report_is_due() {
            due.push(round);
        }
        cadence.advance();
    }
    assert_eq!(due, vec![0, 20, 40]);
}

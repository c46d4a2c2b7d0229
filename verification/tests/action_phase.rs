use backend_runtime::action_phase::{
    literal_checked, ActionLoading, ActionPhase, EnvBinding, LoadStep, ModuleLookup,
    ModuleMetadata, PerformanceClock, PhaseError, UdfConfig, VariableLookup, CONVEX_SITE,
};
use backend_runtime::component::ComponentId;
use backend_runtime::context_read_set::{
    CaptureStep, RangeHash, ReadSetCapture, ReadSetError, ReadSetStep, ReadSetValidation,
    TabletMetadata,
};
use backend_runtime::isolate_client::ModuleEnvironment;
use backend_runtime::string_map::StringMap;
use backend_runtime::time::Duration;
use rand_chacha::rand_core::{RngCore, SeedableRng};
use rand_chacha::ChaCha12Rng;

fn map(entries: &[(&str, &str)]) -> StringMap<String> {
    let mut map = StringMap::new();
    for (key, value) in entries {
        map.insert(key.to_string(), value.to_string());
    }
    map
}

fn config() -> UdfConfig {
    UdfConfig { import_phase_rng_seed: [7; 32], import_phase_unix_timestamp: Duration::from_secs(9) }
}

fn modules() -> Vec<ModuleMetadata> {
    vec![
        ModuleMetadata {
            path: "a.js".to_string(),
            is_system: false,
            environment: ModuleEnvironment::Isolate,
        },
        ModuleMetadata {
            path: "n.js".to_string(),
            is_system: false,
            environment: ModuleEnvironment::Node,
        },
    ]
}

type Loading = ActionLoading<u32, u32>;

fn load_shared(loading: &mut Loading) {
    assert_eq!(loading.next(), LoadStep::UdfConfig);
    loading.udf_config(Some(config()));
    assert_eq!(loading.next(), LoadStep::ModuleMetadata);
    loading.module_metadata(&modules());
    assert_eq!(loading.next(), LoadStep::SourcePackage);
    loading.source_package(true);
    assert_eq!(loading.next(), LoadStep::Resources);
    loading.resources();
    assert_eq!(loading.next(), LoadStep::CanonicalUrls);
    loading.canonical_urls(map(&[(CONVEX_SITE, "https://canonical.example")]));
}

fn root_phase() -> ActionPhase<&'static str, u32, u32> {
    let mut phase = ActionPhase::new(
        ComponentId::Root,
        map(&[(CONVEX_SITE, "https://default.example"), ("SYSTEM", "1")]),
    );
    let mut loading = phase.initialize().unwrap();
    load_shared(&mut loading);
    assert_eq!(loading.next(), LoadStep::UserEnvVars);
    loading.user_env_vars(map(&[("MINE", "yes"), ("SYSTEM", "2")]));
    assert_eq!(loading.next(), LoadStep::Finished);
    phase.finish_initialize(loading);
    phase
}

/// The value of a variable, where every bound text but the empty one can be a value.
fn value_of<S, A, C>(phase: &ActionPhase<S, A, C>, name: &str) -> Result<Option<String>, String> {
    match phase.get_environment_variable(name).map_err(|error| error.message())? {
        VariableLookup::Missing => Ok(None),
        VariableLookup::Found(value) => Ok(Some(value)),
        VariableLookup::Literal(text) => literal_checked(if text.is_empty() {
            Err("an empty text is no value".to_string())
        } else {
            Ok(text)
        }),
    }
}

#[test]
fn the_root_sees_the_variables_of_the_app_over_those_of_the_system() {
    let phase = root_phase();
    assert_eq!(value_of(&phase, "MINE").unwrap().as_deref(), Some("yes"));
    assert_eq!(value_of(&phase, "SYSTEM").unwrap().as_deref(), Some("2"));
    assert_eq!(
        value_of(&phase, CONVEX_SITE).unwrap().as_deref(),
        Some("https://canonical.example")
    );
    assert_eq!(value_of(&phase, "OTHER").unwrap(), None);
    assert!(matches!(phase.component_arguments(), Err(PhaseError::NoComponentArgs)));
}

#[test]
fn a_component_sees_only_what_it_binds() {
    let mut phase: ActionPhase<&'static str, u32, u32> = ActionPhase::new(
        ComponentId::Child("c".to_string()),
        map(&[(CONVEX_SITE, "https://default.example"), ("SYSTEM", "1")]),
    );
    let mut loading = phase.initialize().unwrap();
    load_shared(&mut loading);
    assert_eq!(loading.next(), LoadStep::ComponentMetadata);
    let site = loading.component_metadata(Some("/mount/")).expect("a prefixed site is checked");
    assert_eq!(site, "https://canonical.example/mount");
    assert_eq!(loading.next(), LoadStep::SiteUrl);
    loading.site_url(site);
    assert_eq!(loading.next(), LoadStep::ComponentEnv);
    loading.component_env(vec![
        ("FIXED".to_string(), EnvBinding::Value("v".to_string())),
        ("BOUND".to_string(), EnvBinding::EnvVar("PARENT".to_string())),
        ("EMPTY".to_string(), EnvBinding::Value(String::new())),
    ]);
    assert_eq!(loading.next(), LoadStep::ParentEnvVars);
    loading.parent_env_vars(map(&[("PARENT", "p"), ("SECRET", "s")]));
    assert_eq!(loading.next(), LoadStep::ComponentArguments);
    loading.component_arguments(42);
    assert_eq!(loading.next(), LoadStep::Finished);
    phase.finish_initialize(loading);
    phase.begin_execution([1; 32]).unwrap();

    assert_eq!(value_of(&phase, "FIXED").unwrap().as_deref(), Some("v"));
    assert_eq!(value_of(&phase, "BOUND").unwrap().as_deref(), Some("p"));
    assert_eq!(value_of(&phase, "SECRET").unwrap(), None);
    // A text that the component binds is handed out to be checked, and refused if it is no value.
    assert!(matches!(
        phase.get_environment_variable("FIXED"),
        Ok(VariableLookup::Literal(text)) if text == "v"
    ));
    assert!(matches!(
        phase.get_environment_variable("BOUND"),
        Ok(VariableLookup::Found(value)) if value == "p"
    ));
    assert_eq!(value_of(&phase, "EMPTY"), Err("an empty text is no value".to_string()));
    assert_eq!(
        value_of(&phase, CONVEX_SITE).unwrap().as_deref(),
        Some("https://canonical.example/mount")
    );
    assert_eq!(phase.component_arguments().unwrap(), &42);
}

#[test]
fn nothing_is_used_before_it_is_initialized_or_twice() {
    let mut phase: ActionPhase<&'static str, u32, u32> =
        ActionPhase::new(ComponentId::Root, StringMap::new());
    assert!(matches!(phase.get_environment_variable("X"), Err(PhaseError::NotInitialized)));
    assert!(matches!(phase.rng(), Err(PhaseError::NotInitialized)));
    assert!(phase.initialize().is_ok());
    assert!(matches!(phase.initialize(), Err(PhaseError::InitializedTwice)));
    assert_eq!(
        PhaseError::InitializedTwice.message(),
        "ActionPhase initialized twice"
    );
}

#[test]
fn modules_are_loaded_once_and_only_those_of_the_isolate() {
    let mut phase = root_phase();
    assert!(matches!(phase.get_module("missing.js", "missing.js"), Ok(ModuleLookup::Missing)));
    assert!(matches!(phase.get_module("a.js", "a.js"), Ok(ModuleLookup::Load)));
    phase.module_loaded("a.js".to_string(), "source");
    assert!(matches!(phase.get_module("a.js", "a.js"), Ok(ModuleLookup::Loaded(&"source"))));
    match phase.get_module("n.js", "shown.js") {
        Err(error) => assert_eq!(
            error.message(),
            "Trying to execute shown.js in isolate, but it is bundled for Node."
        ),
        Ok(_) => panic!("a module of another environment was found"),
    }
}

#[test]
fn random_numbers_come_from_the_seed_of_the_phase() {
    let mut phase = root_phase();
    let mut importing = ChaCha12Rng::from_seed([7; 32]);
    assert_eq!(phase.rng().unwrap().next_u64(), importing.next_u64());
    phase.begin_execution([1; 32]).unwrap();
    let mut executing = ChaCha12Rng::from_seed([1; 32]);
    assert_eq!(phase.rng().unwrap().next_u64(), executing.next_u64());
    assert_eq!(phase.rng().unwrap().next_u64(), executing.next_u64());
    assert!(matches!(phase.begin_execution([1; 32]), Err(PhaseError::AlreadyExecuting)));
}

#[test]
fn an_action_that_is_executed_is_not_prepared_again() {
    let mut phase = root_phase();
    phase.begin_execution([1; 32]).unwrap();
    let text = "Condition failed: `self.phase == Phase::Importing` (Executing vs Importing)";
    match phase.initialize() {
        Err(error) => assert_eq!(error.message(), text),
        Ok(_) => panic!("an action that is executed was prepared again"),
    }
    match phase.snoop_reads() {
        Err(error) => assert_eq!(error.message(), text),
        Ok(()) => panic!("the reads of an action that is executed were captured"),
    }
}

#[test]
fn time_stands_still_while_importing() {
    let mut phase = root_phase();
    let now = Duration::from_secs(100);
    assert_eq!(phase.unix_timestamp(now).unwrap(), Duration::from_secs(9));
    assert!(matches!(phase.performance_now(), Ok(PerformanceClock::Importing)));
    assert!(phase.require_executing("fetch", "Fetching").is_err());
    phase.begin_execution([1; 32]).unwrap();
    assert_eq!(phase.unix_timestamp(now).unwrap(), now);
    assert!(matches!(phase.performance_now(), Ok(PerformanceClock::Executing)));
    assert!(phase.require_executing("fetch", "Fetching").is_ok());
}

#[test]
fn reads_are_snooped_once() {
    let mut phase: ActionPhase<&'static str, u32, u32> =
        ActionPhase::new(ComponentId::Root, StringMap::new());
    phase.snoop_reads().unwrap();
    assert!(matches!(phase.snoop_reads(), Err(PhaseError::AlreadySnooping)));
    let mut loading = phase.initialize().unwrap();
    load_shared(&mut loading);
    loading.user_env_vars(StringMap::new());
    assert_eq!(loading.next(), LoadStep::ContextReadSet);
    loading.context_read_set(Some(5));
    phase.finish_initialize(loading);
    assert_eq!(phase.take_context_read_set().unwrap(), Some(5));
    assert_eq!(phase.take_context_read_set().unwrap(), None);
}

fn range(tablet: &str, hash: u8) -> RangeHash {
    RangeHash {
        namespace: "global".to_string(),
        tablet: tablet.to_string(),
        table_name: "_modules".to_string(),
        hash: vec![hash],
    }
}

fn tablet(namespace: &str, table_name: &str) -> TabletMetadata {
    TabletMetadata { namespace: namespace.to_string(), table_name: table_name.to_string() }
}

#[test]
fn a_context_is_used_again_only_if_its_reads_are_unchanged() {
    let (validation, step) = ReadSetValidation::start(vec![range("t", 1)]);
    assert!(matches!(step, ReadSetStep::LookUp(0)));
    assert!(matches!(
        validation.looked_up(0, Some(&tablet("global", "_modules"))),
        Ok(ReadSetStep::Hash(0))
    ));
    assert!(matches!(validation.hashed(0, Some(&vec![1])), ReadSetStep::Reusable));
    assert!(matches!(validation.hashed(0, Some(&vec![2])), ReadSetStep::Stale));
    assert!(matches!(validation.hashed(0, None), ReadSetStep::Stale));
    assert!(matches!(
        validation.looked_up(0, Some(&tablet("other", "_modules"))),
        Err(ReadSetError::ChangedNamespace(_))
    ));
    assert!(matches!(
        validation.looked_up(0, Some(&tablet("global", "other"))),
        Err(ReadSetError::ChangedName(_))
    ));
    let (_, step) = ReadSetValidation::start(Vec::new());
    assert!(matches!(step, ReadSetStep::Reusable));
}

#[test]
fn reads_of_system_tables_are_captured() {
    assert!(matches!(ReadSetCapture::start(1, 0), Err(ReadSetError::SearchDuringInit)));
    let (mut capture, step) = ReadSetCapture::start(0, 1).unwrap();
    assert!(matches!(step, CaptureStep::LookUp(0)));
    assert!(matches!(
        capture.looked_up("messages", false),
        Err(ReadSetError::NonSystemTable(_))
    ));
    assert!(matches!(capture.looked_up("_modules", true), Ok(CaptureStep::Hash(0))));
    assert!(matches!(
        capture.hashed(
            "global".to_string(),
            "t".to_string(),
            "_modules".to_string(),
            Some(vec![3])
        ),
        CaptureStep::Captured
    ));
    let ranges = capture.into_ranges();
    assert_eq!(ranges.len(), 1);
    assert_eq!(ranges[0].hash, vec![3]);
}

//! The phases of an action: what is loaded before it runs, and what it may use when.
//!
//! An action first imports its modules and is then executed. While it imports, randomness and time
//! are those of the deployment, so that imports can be repeated. Loading is done outside; each step
//! here says what to load next.
use rand_chacha::rand_core::SeedableRng;
use rand_chacha::ChaCha12Rng;
use vstd::prelude::*;
use vstd::string::*;

use crate::component::ComponentId;
use crate::isolate_client::ModuleEnvironment;
use crate::string_map::StringMap;
use crate::text::{trim_end_matches, trimmed_end};
use crate::time::Duration;

verus! {

/// A random number generator.
#[verifier::external_type_specification]
#[verifier::external_body]
pub struct ExChaCha12Rng(ChaCha12Rng);

/// What `ChaCha12Rng::from_seed` returns: the generator that a seed stands for.
pub uninterp spec fn seeded_chacha(seed: Seq<u8>) -> ChaCha12Rng;

/// Calls `ChaCha12Rng::from_seed` of `rand_chacha`, which makes a generator from a seed alone: the
/// same seed gives the same generator.
#[verifier::external_body]
fn seeded_rng(seed: [u8; 32]) -> (rng: ChaCha12Rng)
    ensures
        rng == seeded_chacha(seed@),
{
    ChaCha12Rng::from_seed(seed)
}

/// The phases of an action.
#[derive(Clone, Copy, Debug, PartialEq, Eq, Structural)]
pub enum Phase {
    Importing,
    Executing,
}

/// Why an action cannot do what it asked for.
#[derive(Debug)]
pub enum PhaseError {
    NotImporting,
    InitializedTwice,
    NotInitialized,
    AlreadySnooping,
    AlreadyExecuting,
    WrongEnvironment { path: String, environment: ModuleEnvironment },
    NoSourcePackage,
    NoComponentArgs,
    NoComponentArgsDuringImport,
    NoRandomDuringImport,
    NoDateDuringImport,
    PerformanceMismatch,
    NotDuringImport { name: String, description: String },
}

/// The name of an environment.
pub open spec fn environment_name(environment: ModuleEnvironment) -> Seq<char> {
    match environment {
        ModuleEnvironment::Isolate => "Isolate"@,
        ModuleEnvironment::Node => "Node"@,
        ModuleEnvironment::Invalid => "Invalid"@,
    }
}

fn environment_text(environment: ModuleEnvironment) -> (text: &'static str)
    ensures
        text@ == environment_name(environment),
{
    match environment {
        ModuleEnvironment::Isolate => "Isolate",
        ModuleEnvironment::Node => "Node",
        ModuleEnvironment::Invalid => "Invalid",
    }
}

impl PhaseError {
    /// The code of an error that the caller of the action is responsible for.
    pub open spec fn code_text(&self) -> Option<Seq<char>> {
        match self {
            PhaseError::NoComponentArgs => Some("NoComponentArgs"@),
            PhaseError::NoComponentArgsDuringImport => Some("NoComponentArgsDuringImport"@),
            PhaseError::NoRandomDuringImport => Some("NoRandomDuringImport"@),
            PhaseError::NoDateDuringImport => Some("NoDateDuringImport"@),
            PhaseError::NotDuringImport { name, .. } => Some("No"@ + name@ + "DuringImport"@),
            _ => None,
        }
    }

    pub fn code(&self) -> (code: Option<String>)
        ensures
            match code {
                Some(code) => self.code_text() == Some(code@),
                None => self.code_text() is None,
            },
    {
        match self {
            PhaseError::NoComponentArgs => Some("NoComponentArgs".to_owned()),
            PhaseError::NoComponentArgsDuringImport => Some(
                "NoComponentArgsDuringImport".to_owned(),
            ),
            PhaseError::NoRandomDuringImport => Some("NoRandomDuringImport".to_owned()),
            PhaseError::NoDateDuringImport => Some("NoDateDuringImport".to_owned()),
            PhaseError::NotDuringImport { name, .. } => {
                let mut code = String::new();
                code.append("No");
                code.append(name.as_str());
                code.append("DuringImport");
                assert(code@ =~= "No"@ + name@ + "DuringImport"@);
                Some(code)
            },
            _ => None,
        }
    }

    pub open spec fn text(&self) -> Seq<char> {
        match self {
            PhaseError::NotImporting =>
                "Condition failed: `self.phase == Phase::Importing` (Executing vs Importing)"@,
            PhaseError::InitializedTwice => "ActionPhase initialized twice"@,
            PhaseError::NotInitialized => "Phase not initialized"@,
            PhaseError::AlreadySnooping => "Called snoop_reads while already snooping"@,
            PhaseError::AlreadyExecuting => "Phase was already Executing"@,
            PhaseError::WrongEnvironment { path, environment } => "Trying to execute "@ + path@
                + " in isolate, but it is bundled for "@ + environment_name(*environment) + "."@,
            PhaseError::NoSourcePackage => "source package not found"@,
            PhaseError::NoComponentArgs => "Component arguments are not available within the app"@,
            PhaseError::NoComponentArgsDuringImport => "Can't use `componentArg` at import time"@,
            PhaseError::NoRandomDuringImport => "Math.random unsupported at import time"@,
            PhaseError::NoDateDuringImport => "Date unsupported at import time"@,
            PhaseError::PerformanceMismatch => "performance API state does not match phase"@,
            PhaseError::NotDuringImport { description, .. } => description@
                + " unsupported at import time"@,
        }
    }

    pub fn message(&self) -> (message: String)
        ensures
            message@ == self.text(),
    {
        match self {
            PhaseError::NotImporting =>
                "Condition failed: `self.phase == Phase::Importing` (Executing vs Importing)".to_owned(),
            PhaseError::InitializedTwice => "ActionPhase initialized twice".to_owned(),
            PhaseError::NotInitialized => "Phase not initialized".to_owned(),
            PhaseError::AlreadySnooping => "Called snoop_reads while already snooping".to_owned(),
            PhaseError::AlreadyExecuting => "Phase was already Executing".to_owned(),
            PhaseError::WrongEnvironment { path, environment } => {
                let mut message = String::new();
                message.append("Trying to execute ");
                message.append(path.as_str());
                message.append(" in isolate, but it is bundled for ");
                message.append(environment_text(*environment));
                message.append(".");
                assert(message@ =~= self.text());
                message
            },
            PhaseError::NoSourcePackage => "source package not found".to_owned(),
            PhaseError::NoComponentArgs =>
                "Component arguments are not available within the app".to_owned(),
            PhaseError::NoComponentArgsDuringImport =>
                "Can't use `componentArg` at import time".to_owned(),
            PhaseError::NoRandomDuringImport => "Math.random unsupported at import time".to_owned(),
            PhaseError::NoDateDuringImport => "Date unsupported at import time".to_owned(),
            PhaseError::PerformanceMismatch =>
                "performance API state does not match phase".to_owned(),
            PhaseError::NotDuringImport { description, .. } => {
                let mut message = String::new();
                message.append(description.as_str());
                message.append(" unsupported at import time");
                assert(message@ =~= self.text());
                message
            },
        }
    }
}

/// The name of the variable that holds the address of the site.
pub const CONVEX_SITE: &'static str = "CONVEX_SITE_URL";

/// What a variable of a component stands for.
#[derive(Debug)]
pub enum EnvBinding {
    Value(String),
    /// A variable of the app, by its name.
    EnvVar(String),
}

/// What an `EnvBinding` says.
pub enum BindingView {
    Value(Seq<char>),
    EnvVar(Seq<char>),
}

impl View for EnvBinding {
    type V = BindingView;

    open spec fn view(&self) -> BindingView {
        match self {
            EnvBinding::Value(value) => BindingView::Value(value@),
            EnvBinding::EnvVar(name) => BindingView::EnvVar(name@),
        }
    }
}

/// The texts of a map of texts.
pub open spec fn texts_of(map: Map<Seq<char>, String>) -> Map<Seq<char>, Seq<char>> {
    map.map_values(|value: String| value@)
}

/// What a map of bindings says.
pub open spec fn bindings_of(map: Map<Seq<char>, EnvBinding>) -> Map<Seq<char>, BindingView> {
    map.map_values(|binding: EnvBinding| binding@)
}

/// The variables that a component sees, and those of the app that they may stand for.
pub struct ComponentEnv {
    pub env: StringMap<EnvBinding>,
    pub parent_env_vars: StringMap<String>,
}

/// What a `ComponentEnv` holds.
#[verifier::ext_equal]
pub struct ComponentEnvModel {
    pub env: Map<Seq<char>, BindingView>,
    pub parent_env_vars: Map<Seq<char>, Seq<char>>,
}

impl View for ComponentEnv {
    type V = ComponentEnvModel;

    open spec fn view(&self) -> ComponentEnvModel {
        ComponentEnvModel {
            env: bindings_of(self.env@),
            parent_env_vars: texts_of(self.parent_env_vars@),
        }
    }
}

/// What an action finds when it asks for a variable.
#[derive(Debug)]
pub enum VariableLookup {
    Missing,
    Found(String),
    /// A text that a component binds. It is the value only if it can be one, which has to be
    /// checked; see `literal_checked`.
    Literal(String),
}

/// What a `VariableLookup` holds.
pub enum VariableView {
    Missing,
    Found(Seq<char>),
    Literal(Seq<char>),
}

impl View for VariableLookup {
    type V = VariableView;

    open spec fn view(&self) -> VariableView {
        match self {
            VariableLookup::Missing => VariableView::Missing,
            VariableLookup::Found(value) => VariableView::Found(value@),
            VariableLookup::Literal(text) => VariableView::Literal(text@),
        }
    }
}

/// The value of a name in a map of variables.
pub open spec fn found_in(env_vars: Map<Seq<char>, Seq<char>>, name: Seq<char>) -> VariableView {
    if env_vars.dom().contains(name) {
        VariableView::Found(env_vars[name])
    } else {
        VariableView::Missing
    }
}

/// What a variable is for an action: one that its component binds, or else one of all variables.
pub open spec fn variable(
    env_vars: Map<Seq<char>, Seq<char>>,
    component_env: Option<ComponentEnvModel>,
    name: Seq<char>,
) -> VariableView {
    if component_env matches Some(component) && component.env.dom().contains(name) {
        match component_env->0.env[name] {
            BindingView::Value(text) => VariableView::Literal(text),
            BindingView::EnvVar(parent) => found_in(component_env->0.parent_env_vars, parent),
        }
    } else {
        found_in(env_vars, name)
    }
}

/// What an action that asked for a variable is answered, once the text that its component binds was
/// checked: the value that the check made of it, or the error that it is none.
pub fn literal_checked<E>(checked: Result<String, E>) -> (value: Result<Option<String>, E>)
    ensures
        value == (match checked {
            Ok(value) => Ok(Some(value)),
            Err(error) => Err(error),
        }),
{
    match checked {
        Ok(value) => Ok(Some(value)),
        Err(error) => Err(error),
    }
}

/// What is loaded of the configuration of the functions of a deployment.
#[derive(Clone, Copy, Debug)]
pub struct UdfConfig {
    pub import_phase_rng_seed: [u8; 32],
    pub import_phase_unix_timestamp: Duration,
}

/// A module of a deployment.
#[derive(Debug)]
pub struct ModuleMetadata {
    pub path: String,
    pub is_system: bool,
    pub environment: ModuleEnvironment,
}

/// What is loaded next.
#[derive(Clone, Copy, Debug, PartialEq, Eq, Structural)]
pub enum LoadStep {
    UdfConfig,
    ModuleMetadata,
    SourcePackage,
    Resources,
    CanonicalUrls,
    UserEnvVars,
    ComponentMetadata,
    /// The address of the site is checked.
    SiteUrl,
    ComponentEnv,
    ParentEnvVars,
    ComponentArguments,
    ContextReadSet,
    Finished,
}

impl LoadStep {
    /// What is loaded after a step, for the root or a component: by whether what is read is to be
    /// captured, whether the component has an address of its own, and whether it binds variables of
    /// the app.
    pub open spec fn following(
        self,
        root: bool,
        snooping: bool,
        has_site: bool,
        binds_parent: bool,
    ) -> LoadStep {
        let last = if snooping {
            LoadStep::ContextReadSet
        } else {
            LoadStep::Finished
        };
        match self {
            LoadStep::UdfConfig => LoadStep::ModuleMetadata,
            LoadStep::ModuleMetadata => LoadStep::SourcePackage,
            LoadStep::SourcePackage => LoadStep::Resources,
            LoadStep::Resources => LoadStep::CanonicalUrls,
            LoadStep::CanonicalUrls => if root {
                LoadStep::UserEnvVars
            } else {
                LoadStep::ComponentMetadata
            },
            LoadStep::UserEnvVars => last,
            LoadStep::ComponentMetadata => if has_site {
                LoadStep::SiteUrl
            } else {
                LoadStep::ComponentEnv
            },
            LoadStep::SiteUrl => LoadStep::ComponentEnv,
            LoadStep::ComponentEnv => if binds_parent {
                LoadStep::ParentEnvVars
            } else {
                LoadStep::ComponentArguments
            },
            LoadStep::ParentEnvVars => LoadStep::ComponentArguments,
            LoadStep::ComponentArguments => last,
            LoadStep::ContextReadSet => LoadStep::Finished,
            LoadStep::Finished => LoadStep::Finished,
        }
    }
}

/// What was loaded so far.
pub struct ActionLoading<A, C> {
    root: bool,
    snooping: bool,
    next: LoadStep,
    module_metadata: StringMap<ModuleEnvironment>,
    source_package: bool,
    env_vars: StringMap<String>,
    component_arguments: Option<A>,
    component_env: Option<ComponentEnv>,
    rng: Option<ChaCha12Rng>,
    import_time_unix_timestamp: Option<Duration>,
    context_read_set: Option<C>,
}

/// What an `ActionLoading` holds.
#[verifier::ext_equal]
pub struct LoadingModel<A, C> {
    pub root: bool,
    pub snooping: bool,
    pub next: LoadStep,
    pub module_metadata: Map<Seq<char>, ModuleEnvironment>,
    pub source_package: bool,
    pub env_vars: Map<Seq<char>, Seq<char>>,
    pub component_arguments: Option<A>,
    pub component_env: Option<ComponentEnvModel>,
    pub rng: Option<ChaCha12Rng>,
    pub import_time_unix_timestamp: Option<Duration>,
    pub context_read_set: Option<C>,
}

pub open spec fn component_env_of(env: Option<ComponentEnv>) -> Option<ComponentEnvModel> {
    match env {
        Some(env) => Some(env@),
        None => None,
    }
}

impl<A, C> View for ActionLoading<A, C> {
    type V = LoadingModel<A, C>;

    closed spec fn view(&self) -> LoadingModel<A, C> {
        LoadingModel {
            root: self.root,
            snooping: self.snooping,
            next: self.next,
            module_metadata: self.module_metadata@,
            source_package: self.source_package,
            env_vars: texts_of(self.env_vars@),
            component_arguments: self.component_arguments,
            component_env: component_env_of(self.component_env),
            rng: self.rng,
            import_time_unix_timestamp: self.import_time_unix_timestamp,
            context_read_set: self.context_read_set,
        }
    }
}

impl<A, C> LoadingModel<A, C> {
    /// What comes after everything that only some components need.
    pub open spec fn last_step(self) -> LoadStep {
        if self.snooping {
            LoadStep::ContextReadSet
        } else {
            LoadStep::Finished
        }
    }
}

/// The environments of the modules of the first `n` that are no system modules.
pub open spec fn user_modules(metadata: Seq<ModuleMetadata>, n: int) -> Map<
    Seq<char>,
    ModuleEnvironment,
>
    decreases n,
{
    if n <= 0 {
        Map::empty()
    } else if metadata[n - 1].is_system {
        user_modules(metadata, n - 1)
    } else {
        user_modules(metadata, n - 1).insert(
            metadata[n - 1].path@,
            metadata[n - 1].environment,
        )
    }
}

/// The bindings of a list, later ones before earlier ones.
pub open spec fn bindings_in(bindings: Seq<(String, EnvBinding)>, n: int) -> Map<
    Seq<char>,
    BindingView,
>
    decreases n,
{
    if n <= 0 {
        Map::empty()
    } else {
        bindings_in(bindings, n - 1).insert(bindings[n - 1].0@, bindings[n - 1].1@)
    }
}

/// Whether one of the bindings stands for a variable of the app.
pub open spec fn binds_env_var(bindings: Seq<(String, EnvBinding)>) -> bool {
    exists|i: int| 0 <= i < bindings.len() && (#[trigger] bindings[i]).1 is EnvVar
}

/// The address of the site as a component with a prefix sees it.
pub open spec fn prefixed_site(base: Seq<char>, prefix: Seq<char>) -> Seq<char> {
    trimmed_end(base, '/') + trimmed_end(prefix, '/')
}

/// Variables over which others are laid, which win.
pub open spec fn overlaid(
    below: Map<Seq<char>, Seq<char>>,
    above: Map<Seq<char>, Seq<char>>,
) -> Map<Seq<char>, Seq<char>> {
    below.union_prefer_right(above)
}

impl<A, C> ActionLoading<A, C> {
    /// What is loaded next.
    pub fn next(&self) -> (step: LoadStep)
        ensures
            step == self@.next,
    {
        self.next
    }

    /// Takes in the configuration: the randomness and the time of imports.
    pub fn udf_config(&mut self, config: Option<UdfConfig>)
        requires
            old(self)@.next == LoadStep::UdfConfig,
        ensures
            final(self)@.next == old(self)@.next.following(
                old(self)@.root,
                old(self)@.snooping,
                false,
                false,
            ),
            final(self)@ == (LoadingModel {
                next: LoadStep::ModuleMetadata,
                rng: match config {
                    Some(config) => Some(seeded_chacha(config.import_phase_rng_seed@)),
                    None => None,
                },
                import_time_unix_timestamp: match config {
                    Some(config) => Some(config.import_phase_unix_timestamp),
                    None => None,
                },
                ..old(self)@
            }),
    {
        match config {
            Some(config) => {
                self.rng = Some(seeded_rng(config.import_phase_rng_seed));
                self.import_time_unix_timestamp = Some(config.import_phase_unix_timestamp);
            },
            None => {
                self.rng = None;
                self.import_time_unix_timestamp = None;
            },
        }
        self.next = LoadStep::ModuleMetadata;
    }

    /// Takes in the modules. System modules are none of the action's business.
    pub fn module_metadata(&mut self, metadata: &Vec<ModuleMetadata>)
        requires
            old(self)@.next == LoadStep::ModuleMetadata,
        ensures
            final(self)@.next == old(self)@.next.following(
                old(self)@.root,
                old(self)@.snooping,
                false,
                false,
            ),
            final(self)@ == (LoadingModel {
                next: LoadStep::SourcePackage,
                module_metadata: user_modules(metadata@, metadata@.len() as int),
                ..old(self)@
            }),
    {
        let mut modules: StringMap<ModuleEnvironment> = StringMap::new();
        let mut i: usize = 0;
        while i < metadata.len()
            invariant
                i <= metadata.len(),
                modules@ == user_modules(metadata@, i as int),
            decreases metadata.len() - i,
        {
            if !metadata[i].is_system {
                let _ = modules.insert(metadata[i].path.clone(), metadata[i].environment);
            }
            i = i + 1;
        }
        self.module_metadata = modules;
        self.next = LoadStep::SourcePackage;
    }

    /// Takes in whether the deployment has a source package.
    pub fn source_package(&mut self, found: bool)
        requires
            old(self)@.next == LoadStep::SourcePackage,
        ensures
            final(self)@.next == old(self)@.next.following(
                old(self)@.root,
                old(self)@.snooping,
                false,
                false,
            ),
            final(self)@ == (LoadingModel {
                next: LoadStep::Resources,
                source_package: found,
                ..old(self)@
            }),
    {
        self.source_package = found;
        self.next = LoadStep::Resources;
    }

    /// The resources of the component were loaded.
    pub fn resources(&mut self)
        requires
            old(self)@.next == LoadStep::Resources,
        ensures
            final(self)@.next == old(self)@.next.following(
                old(self)@.root,
                old(self)@.snooping,
                false,
                false,
            ),
            final(self)@ == (LoadingModel { next: LoadStep::CanonicalUrls, ..old(self)@ }),
    {
        self.next = LoadStep::CanonicalUrls;
    }

    /// Takes in the system variables that canonical addresses override.
    pub fn canonical_urls(&mut self, overrides: StringMap<String>)
        requires
            old(self)@.next == LoadStep::CanonicalUrls,
        ensures
            final(self)@.next == old(self)@.next.following(
                old(self)@.root,
                old(self)@.snooping,
                false,
                false,
            ),
            final(self)@ == (LoadingModel {
                next: if old(self)@.root {
                    LoadStep::UserEnvVars
                } else {
                    LoadStep::ComponentMetadata
                },
                env_vars: old(self)@.env_vars.union_prefer_right(texts_of(overrides@)),
                ..old(self)@
            }),
            final(self)@.env_vars == overlaid(old(self)@.env_vars, texts_of(overrides@)),
    {
        self.env_vars.extend(overrides);
        self.next =
        if self.root {
            LoadStep::UserEnvVars
        } else {
            LoadStep::ComponentMetadata
        };
        assert(self@.env_vars =~= old(self)@.env_vars.union_prefer_right(texts_of(overrides@)));
    }

    /// Takes in the variables of the app, which only the root sees.
    pub fn user_env_vars(&mut self, user: StringMap<String>)
        requires
            old(self)@.next == LoadStep::UserEnvVars,
        ensures
            final(self)@.next == old(self)@.next.following(
                old(self)@.root,
                old(self)@.snooping,
                false,
                false,
            ),
            final(self)@ == (LoadingModel {
                next: old(self)@.last_step(),
                env_vars: old(self)@.env_vars.union_prefer_right(texts_of(user@)),
                ..old(self)@
            }),
            final(self)@.env_vars == overlaid(old(self)@.env_vars, texts_of(user@)),
    {
        self.env_vars.extend(user);
        self.next =
        if self.snooping {
            LoadStep::ContextReadSet
        } else {
            LoadStep::Finished
        };
        assert(self@.env_vars =~= old(self)@.env_vars.union_prefer_right(texts_of(user@)));
    }

    /// Takes in the prefix of the addresses of a component. A component with a prefix sees the
    /// address of the site with it, if there is an address; it has to be checked first.
    pub fn component_metadata(&mut self, http_prefix: Option<&str>) -> (site: Option<String>)
        requires
            old(self)@.next == LoadStep::ComponentMetadata,
        ensures
            final(self)@.next == old(self)@.next.following(
                old(self)@.root,
                old(self)@.snooping,
                http_prefix is Some && old(self)@.env_vars.dom().contains(CONVEX_SITE@),
                false,
            ),
            match (http_prefix, old(self)@.env_vars.dom().contains(CONVEX_SITE@)) {
                (Some(prefix), true) => {
                    &&& site matches Some(site) && site@ == prefixed_site(
                        old(self)@.env_vars[CONVEX_SITE@],
                        prefix@,
                    )
                    &&& final(self)@ == (LoadingModel { next: LoadStep::SiteUrl, ..old(self)@ })
                },
                _ => site is None && final(self)@ == (LoadingModel {
                    next: LoadStep::ComponentEnv,
                    ..old(self)@
                }),
            },
    {
        self.next = LoadStep::ComponentEnv;
        let prefix = match http_prefix {
            Some(prefix) => prefix,
            None => {
                return None;
            },
        };
        let site = match self.env_vars.get(CONVEX_SITE) {
            Some(base) => {
                let mut site = String::new();
                site.append(trim_end_matches(base.as_str(), '/'));
                site.append(trim_end_matches(prefix, '/'));
                assert(site@ =~= prefixed_site(old(self)@.env_vars[CONVEX_SITE@], prefix@));
                site
            },
            None => {
                return None;
            },
        };
        self.next = LoadStep::SiteUrl;
        Some(site)
    }

    /// Takes in the address of the site that was checked.
    pub fn site_url(&mut self, site: String)
        requires
            old(self)@.next == LoadStep::SiteUrl,
        ensures
            final(self)@.next == old(self)@.next.following(
                old(self)@.root,
                old(self)@.snooping,
                false,
                false,
            ),
            final(self)@ == (LoadingModel {
                next: LoadStep::ComponentEnv,
                env_vars: old(self)@.env_vars.insert(CONVEX_SITE@, site@),
                ..old(self)@
            }),
    {
        let _ = self.env_vars.insert(CONVEX_SITE.to_owned(), site);
        self.next = LoadStep::ComponentEnv;
        assert(self@.env_vars =~= old(self)@.env_vars.insert(CONVEX_SITE@, site@));
    }

    /// Takes in the variables that a component binds. Those of the app are needed only if one of
    /// them stands for one.
    pub fn component_env(&mut self, bindings: Vec<(String, EnvBinding)>)
        requires
            old(self)@.next == LoadStep::ComponentEnv,
        ensures
            final(self)@.next == old(self)@.next.following(
                old(self)@.root,
                old(self)@.snooping,
                false,
                binds_env_var(bindings@),
            ),
            final(self)@ == (LoadingModel {
                next: if binds_env_var(bindings@) {
                    LoadStep::ParentEnvVars
                } else {
                    LoadStep::ComponentArguments
                },
                component_env: Some(
                    ComponentEnvModel {
                        env: bindings_in(bindings@, bindings@.len() as int),
                        parent_env_vars: Map::empty(),
                    },
                ),
                ..old(self)@
            }),
    {
        let ghost all = bindings@;
        let mut rest = bindings;
        let mut reversed: Vec<(String, EnvBinding)> = Vec::new();
        while rest.len() > 0
            invariant
                rest@.len() + reversed@.len() == all.len(),
                forall|k: int| 0 <= k < rest@.len() ==> #[trigger] rest@[k] == all[k],
                forall|k: int|
                    0 <= k < reversed@.len() ==> #[trigger] reversed@[k] == all[all.len() - 1 - k],
            decreases rest@.len(),
        {
            if let Some(binding) = rest.pop() {
                reversed.push(binding);
            }
        }
        let mut env: StringMap<EnvBinding> = StringMap::new();
        let mut parent_needed = false;
        let ghost mut n: int = 0;
        assert(bindings_of(env@) =~= bindings_in(all, 0));
        while reversed.len() > 0
            invariant
                0 <= n,
                n + reversed@.len() == all.len(),
                forall|k: int|
                    0 <= k < reversed@.len() ==> #[trigger] reversed@[k] == all[all.len() - 1 - k],
                bindings_of(env@) == bindings_in(all, n),
                parent_needed == exists|k: int| 0 <= k < n && (#[trigger] all[k]).1 is EnvVar,
            decreases reversed@.len(),
        {
            let ghost before = env@;
            if let Some((name, binding)) = reversed.pop() {
                assert((name, binding) == all[n]);
                let stands_for_variable = match &binding {
                    EnvBinding::Value(_) => false,
                    EnvBinding::EnvVar(_) => true,
                };
                if stands_for_variable {
                    assert(all[n].1 is EnvVar);
                    parent_needed = true;
                }
                let _ = env.insert(name, binding);
                proof {
                    assert(bindings_of(env@) =~= bindings_of(before).insert(name@, binding@));
                    n = n + 1;
                }
            }
        }
        self.component_env = Some(ComponentEnv { env, parent_env_vars: StringMap::new() });
        self.next =
        if parent_needed {
            LoadStep::ParentEnvVars
        } else {
            LoadStep::ComponentArguments
        };
        proof {
            assert(parent_needed == binds_env_var(all));
            assert(texts_of(Map::<Seq<char>, String>::empty()) =~= Map::empty());
            assert(self@.component_env =~= Some(
                ComponentEnvModel {
                    env: bindings_in(all, all.len() as int),
                    parent_env_vars: Map::empty(),
                },
            ));
        }
    }

    /// Takes in the variables of the app that bindings of a component stand for.
    pub fn parent_env_vars(&mut self, parent: StringMap<String>)
        requires
            old(self)@.next == LoadStep::ParentEnvVars,
            old(self)@.component_env is Some,
        ensures
            final(self)@.next == old(self)@.next.following(
                old(self)@.root,
                old(self)@.snooping,
                false,
                false,
            ),
            final(self)@ == (LoadingModel {
                next: LoadStep::ComponentArguments,
                component_env: Some(
                    ComponentEnvModel {
                        parent_env_vars: texts_of(parent@),
                        ..old(self)@.component_env->0
                    },
                ),
                ..old(self)@
            }),
    {
        if let Some(component_env) = self.component_env.take() {
            self.component_env =
            Some(ComponentEnv { env: component_env.env, parent_env_vars: parent });
        }
        self.next = LoadStep::ComponentArguments;
    }

    /// Takes in the arguments of a component.
    pub fn component_arguments(&mut self, arguments: A)
        requires
            old(self)@.next == LoadStep::ComponentArguments,
        ensures
            final(self)@.next == old(self)@.next.following(
                old(self)@.root,
                old(self)@.snooping,
                false,
                false,
            ),
            final(self)@ == (LoadingModel {
                next: old(self)@.last_step(),
                component_arguments: Some(arguments),
                ..old(self)@
            }),
    {
        self.component_arguments = Some(arguments);
        self.next =
        if self.snooping {
            LoadStep::ContextReadSet
        } else {
            LoadStep::Finished
        };
    }

    /// Takes in what was read while the context was set up, if it could be captured.
    pub fn context_read_set(&mut self, read_set: Option<C>)
        requires
            old(self)@.next == LoadStep::ContextReadSet,
        ensures
            final(self)@.next == old(self)@.next.following(
                old(self)@.root,
                old(self)@.snooping,
                false,
                false,
            ),
            final(self)@ == (LoadingModel {
                next: LoadStep::Finished,
                context_read_set: read_set,
                ..old(self)@
            }),
    {
        self.context_read_set = read_set;
        self.next = LoadStep::Finished;
    }
}

/// What was loaded before an action runs.
pub struct ActionReady<S, A, C> {
    module_metadata: StringMap<ModuleEnvironment>,
    source_package: bool,
    modules: StringMap<S>,
    env_vars: StringMap<String>,
    component_arguments: Option<A>,
    component_env: Option<ComponentEnv>,
    rng: Option<ChaCha12Rng>,
    import_time_unix_timestamp: Option<Duration>,
    performance: Option<Phase>,
    context_read_set: Option<C>,
}

/// What an `ActionReady` holds.
#[verifier::ext_equal]
pub struct ReadyModel<S, A, C> {
    pub module_metadata: Map<Seq<char>, ModuleEnvironment>,
    pub source_package: bool,
    /// The modules that were loaded.
    pub modules: Map<Seq<char>, S>,
    pub env_vars: Map<Seq<char>, Seq<char>>,
    pub component_arguments: Option<A>,
    pub component_env: Option<ComponentEnvModel>,
    pub rng: Option<ChaCha12Rng>,
    pub import_time_unix_timestamp: Option<Duration>,
    /// The phase that the clock of the action is in, if it has one.
    pub performance: Option<Phase>,
    pub context_read_set: Option<C>,
}

impl<S, A, C> View for ActionReady<S, A, C> {
    type V = ReadyModel<S, A, C>;

    closed spec fn view(&self) -> ReadyModel<S, A, C> {
        ReadyModel {
            module_metadata: self.module_metadata@,
            source_package: self.source_package,
            modules: self.modules@,
            env_vars: texts_of(self.env_vars@),
            component_arguments: self.component_arguments,
            component_env: component_env_of(self.component_env),
            rng: self.rng,
            import_time_unix_timestamp: self.import_time_unix_timestamp,
            performance: self.performance,
            context_read_set: self.context_read_set,
        }
    }
}

/// How far an action is prepared.
pub enum ActionPreloaded<S, A, C> {
    Created { snooping: bool, default_system_env_vars: StringMap<String> },
    Preloading,
    Ready(ActionReady<S, A, C>),
}

/// What an `ActionPreloaded` holds.
#[verifier::ext_equal]
pub enum PreloadedModel<S, A, C> {
    Created { snooping: bool, default_system_env_vars: Map<Seq<char>, Seq<char>> },
    Preloading,
    Ready(ReadyModel<S, A, C>),
}

impl<S, A, C> View for ActionPreloaded<S, A, C> {
    type V = PreloadedModel<S, A, C>;

    open spec fn view(&self) -> PreloadedModel<S, A, C> {
        match self {
            ActionPreloaded::Created { snooping, default_system_env_vars } =>
                PreloadedModel::Created {
                snooping: *snooping,
                default_system_env_vars: texts_of(default_system_env_vars@),
            },
            ActionPreloaded::Preloading => PreloadedModel::Preloading,
            ActionPreloaded::Ready(ready) => PreloadedModel::Ready(ready@),
        }
    }
}

/// An action and the phase that it is in.
pub struct ActionPhase<S, A, C> {
    component: ComponentId,
    phase: Phase,
    preloaded: ActionPreloaded<S, A, C>,
}

/// What an `ActionPhase` holds.
#[verifier::ext_equal]
pub struct ActionPhaseModel<S, A, C> {
    pub component: Option<Seq<char>>,
    pub phase: Phase,
    pub preloaded: PreloadedModel<S, A, C>,
}

impl<S, A, C> View for ActionPhase<S, A, C> {
    type V = ActionPhaseModel<S, A, C>;

    closed spec fn view(&self) -> ActionPhaseModel<S, A, C> {
        ActionPhaseModel {
            component: self.component@,
            phase: self.phase,
            preloaded: self.preloaded@,
        }
    }
}

/// What loading begins with.
pub open spec fn empty_loading<A, C>(
    root: bool,
    snooping: bool,
    env_vars: Map<Seq<char>, Seq<char>>,
) -> LoadingModel<A, C> {
    LoadingModel {
        root,
        snooping,
        next: LoadStep::UdfConfig,
        module_metadata: Map::empty(),
        source_package: false,
        env_vars,
        component_arguments: None,
        component_env: None,
        rng: None,
        import_time_unix_timestamp: None,
        context_read_set: None,
    }
}

/// What is ready once everything is loaded.
pub open spec fn ready_from<S, A, C>(loading: LoadingModel<A, C>) -> ReadyModel<S, A, C> {
    ReadyModel {
        module_metadata: loading.module_metadata,
        source_package: loading.source_package,
        modules: Map::empty(),
        env_vars: loading.env_vars,
        component_arguments: loading.component_arguments,
        component_env: loading.component_env,
        rng: loading.rng,
        import_time_unix_timestamp: loading.import_time_unix_timestamp,
        performance: if loading.import_time_unix_timestamp is Some {
            Some(Phase::Importing)
        } else {
            None
        },
        context_read_set: loading.context_read_set,
    }
}

/// What is known of a module that is looked for.
pub enum FoundModule<S> {
    Loaded(S),
    Missing,
    /// It was bundled for another environment.
    Elsewhere(ModuleEnvironment),
    NoSourcePackage,
    Load,
}

impl<S, A, C> ReadyModel<S, A, C> {
    /// What is known of a module.
    pub open spec fn found(self, path: Seq<char>) -> FoundModule<S> {
        if self.modules.dom().contains(path) {
            FoundModule::Loaded(self.modules[path])
        } else if !self.module_metadata.dom().contains(path) {
            FoundModule::Missing
        } else if self.module_metadata[path] != ModuleEnvironment::Isolate {
            FoundModule::Elsewhere(self.module_metadata[path])
        } else if !self.source_package {
            FoundModule::NoSourcePackage
        } else {
            FoundModule::Load
        }
    }

    /// The same once a module was loaded.
    pub open spec fn with_module(self, path: Seq<char>, source: S) -> ReadyModel<S, A, C> {
        ReadyModel { modules: self.modules.insert(path, source), ..self }
    }

    /// The same once the action is executed.
    pub open spec fn executed(self, rng_seed: Seq<u8>) -> ReadyModel<S, A, C> {
        ReadyModel {
            rng: Some(seeded_chacha(rng_seed)),
            performance: if self.performance is Some {
                Some(Phase::Executing)
            } else {
                None
            },
            ..self
        }
    }

    /// The time that is told in a phase, if any is.
    pub open spec fn time_in(self, phase: Phase, now: Duration) -> Option<Duration> {
        if phase == Phase::Importing {
            self.import_time_unix_timestamp
        } else {
            Some(now)
        }
    }

    /// The clock that is read in a phase; none if the clock is in another phase.
    pub open spec fn clock_in(self, phase: Phase) -> Option<PerformanceClock> {
        match self.performance {
            None => Some(PerformanceClock::Unsupported),
            Some(of_clock) => if of_clock != phase {
                None
            } else if phase == Phase::Importing {
                Some(PerformanceClock::Importing)
            } else {
                Some(PerformanceClock::Executing)
            },
        }
    }

    /// The arguments that can be used in a phase.
    pub open spec fn arguments_in(self, phase: Phase) -> Option<A> {
        if phase == Phase::Executing {
            self.component_arguments
        } else {
            None
        }
    }
}

/// What is done to find a module.
pub enum ModuleLookup<'a, S> {
    /// The module was loaded before.
    Loaded(&'a S),
    /// There is no such module.
    Missing,
    /// The module has to be loaded.
    Load,
}

/// Which clock an action reads.
#[derive(Clone, Copy, Debug, PartialEq, Eq, Structural)]
pub enum PerformanceClock {
    Importing,
    Executing,
    /// The deployment has none.
    Unsupported,
}

impl<S, A, C> ActionPhase<S, A, C> {
    pub fn new(component: ComponentId, default_system_env_vars: StringMap<String>) -> (phase: Self)
        ensures
            phase@ == (ActionPhaseModel::<S, A, C> {
                component: component@,
                phase: Phase::Importing,
                preloaded: PreloadedModel::Created {
                    snooping: false,
                    default_system_env_vars: texts_of(default_system_env_vars@),
                },
            }),
    {
        ActionPhase {
            component,
            phase: Phase::Importing,
            preloaded: ActionPreloaded::Created { snooping: false, default_system_env_vars },
        }
    }

    pub fn component(&self) -> (component: &ComponentId)
        ensures
            component@ == self@.component,
    {
        &self.component
    }

    /// Begins to load what the action needs. That can be done once.
    pub fn initialize(&mut self) -> (loading: Result<ActionLoading<A, C>, PhaseError>)
        ensures
            match loading {
                Ok(loading) => {
                    &&& old(self)@.phase == Phase::Importing
                    &&& old(self)@.preloaded matches PreloadedModel::Created {
                        snooping,
                        default_system_env_vars,
                    } && loading@ == empty_loading::<A, C>(
                        old(self)@.component is None,
                        snooping,
                        default_system_env_vars,
                    )
                    &&& final(self)@ == (ActionPhaseModel {
                        preloaded: PreloadedModel::Preloading,
                        ..old(self)@
                    })
                },
                Err(error) => if old(self)@.phase == Phase::Importing {
                    &&& error is InitializedTwice
                    &&& !(old(self)@.preloaded is Created)
                    &&& final(self)@ == (ActionPhaseModel {
                        preloaded: PreloadedModel::Preloading,
                        ..old(self)@
                    })
                } else {
                    error is NotImporting && final(self)@ == old(self)@
                },
            },
    {
        if self.phase != Phase::Importing {
            return Err(PhaseError::NotImporting);
        }
        let mut preloaded: ActionPreloaded<S, A, C> = ActionPreloaded::Preloading;
        std::mem::swap(&mut preloaded, &mut self.preloaded);
        match preloaded {
            ActionPreloaded::Created { snooping, default_system_env_vars } => {
                let loading: ActionLoading<A, C> = ActionLoading {
                    root: self.component.is_root(),
                    snooping,
                    next: LoadStep::UdfConfig,
                    module_metadata: StringMap::new(),
                    source_package: false,
                    env_vars: default_system_env_vars,
                    component_arguments: None,
                    component_env: None,
                    rng: None,
                    import_time_unix_timestamp: None,
                    context_read_set: None,
                };
                Ok(loading)
            },
            _ => Err(PhaseError::InitializedTwice),
        }
    }

    /// Everything is loaded.
    pub fn finish_initialize(&mut self, loading: ActionLoading<A, C>)
        requires
            old(self)@.preloaded is Preloading,
            loading@.next == LoadStep::Finished,
        ensures
            final(self)@ == (ActionPhaseModel {
                preloaded: PreloadedModel::Ready(ready_from(loading@)),
                ..old(self)@
            }),
    {
        let performance = if loading.import_time_unix_timestamp.is_some() {
            Some(Phase::Importing)
        } else {
            None
        };
        self.preloaded =
        ActionPreloaded::Ready(
            ActionReady {
                module_metadata: loading.module_metadata,
                source_package: loading.source_package,
                modules: StringMap::new(),
                env_vars: loading.env_vars,
                component_arguments: loading.component_arguments,
                component_env: loading.component_env,
                rng: loading.rng,
                import_time_unix_timestamp: loading.import_time_unix_timestamp,
                performance,
                context_read_set: loading.context_read_set,
            },
        );
    }

    /// Asks that what is read while the context is set up be captured.
    pub fn snoop_reads(&mut self) -> (snooped: Result<(), PhaseError>)
        ensures
            match snooped {
                Ok(()) => {
                    &&& old(self)@.phase == Phase::Importing
                    &&& old(self)@.preloaded matches PreloadedModel::Created {
                        snooping: false,
                        default_system_env_vars,
                    } && final(self)@ == (ActionPhaseModel {
                        preloaded: PreloadedModel::Created {
                            snooping: true,
                            default_system_env_vars,
                        },
                        ..old(self)@
                    })
                },
                Err(error) => {
                    &&& final(self)@ == old(self)@
                    &&& if old(self)@.phase != Phase::Importing {
                        error is NotImporting
                    } else {
                        match old(self)@.preloaded {
                            PreloadedModel::Created { snooping, .. } => snooping
                                && error is AlreadySnooping,
                            _ => error is NotInitialized,
                        }
                    }
                },
            },
    {
        if self.phase != Phase::Importing {
            return Err(PhaseError::NotImporting);
        }
        let mut preloaded: ActionPreloaded<S, A, C> = ActionPreloaded::Preloading;
        std::mem::swap(&mut preloaded, &mut self.preloaded);
        match preloaded {
            ActionPreloaded::Created { snooping, default_system_env_vars } => {
                self.preloaded =
                ActionPreloaded::Created { snooping: true, default_system_env_vars };
                if snooping {
                    Err(PhaseError::AlreadySnooping)
                } else {
                    Ok(())
                }
            },
            other => {
                self.preloaded = other;
                Err(PhaseError::NotInitialized)
            },
        }
    }

    /// Whether a read set can be checked: only before anything is loaded.
    pub fn can_validate_context_read_set(&self) -> (can: Result<(), PhaseError>)
        ensures
            match can {
                Ok(()) => self@.preloaded is Created,
                Err(error) => error is NotInitialized && !(self@.preloaded is Created),
            },
    {
        match &self.preloaded {
            ActionPreloaded::Created { .. } => Ok(()),
            _ => Err(PhaseError::NotInitialized),
        }
    }

    /// Takes out what was captured.
    pub fn take_context_read_set(&mut self) -> (read_set: Result<Option<C>, PhaseError>)
        ensures
            match old(self)@.preloaded {
                PreloadedModel::Ready(ready) => {
                    &&& read_set == Ok::<Option<C>, PhaseError>(ready.context_read_set)
                    &&& final(self)@ == (ActionPhaseModel {
                        preloaded: PreloadedModel::Ready(
                            ReadyModel { context_read_set: None, ..ready },
                        ),
                        ..old(self)@
                    })
                },
                _ => {
                    &&& read_set matches Err(error) && error is NotInitialized
                    &&& final(self)@ == old(self)@
                },
            },
    {
        let mut preloaded: ActionPreloaded<S, A, C> = ActionPreloaded::Preloading;
        std::mem::swap(&mut preloaded, &mut self.preloaded);
        match preloaded {
            ActionPreloaded::Ready(ready) => {
                let mut ready = ready;
                let read_set = ready.context_read_set.take();
                self.preloaded = ActionPreloaded::Ready(ready);
                Ok(read_set)
            },
            other => {
                self.preloaded = other;
                Err(PhaseError::NotInitialized)
            },
        }
    }

    /// Looks for a module, by its canonical path. A module that was bundled for another environment
    /// cannot be run.
    pub fn get_module(&self, canonical_path: &str, shown_path: &str) -> (lookup: Result<
        ModuleLookup<'_, S>,
        PhaseError,
    >)
        ensures
            match self@.preloaded {
                PreloadedModel::Ready(ready) => if ready.modules.dom().contains(canonical_path@) {
                    lookup matches Ok(ModuleLookup::Loaded(source)) && *source
                        == ready.modules[canonical_path@]
                } else if !ready.module_metadata.dom().contains(canonical_path@) {
                    lookup matches Ok(ModuleLookup::Missing)
                } else if ready.module_metadata[canonical_path@] != ModuleEnvironment::Isolate {
                    lookup matches Err(PhaseError::WrongEnvironment { path, environment }) && path@
                        == shown_path@ && environment == ready.module_metadata[canonical_path@]
                } else if !ready.source_package {
                    lookup matches Err(PhaseError::NoSourcePackage)
                } else {
                    lookup matches Ok(ModuleLookup::Load)
                },
                _ => lookup matches Err(PhaseError::NotInitialized),
            },
            self@.preloaded matches PreloadedModel::Ready(ready) ==> match ready.found(
                canonical_path@,
            ) {
                FoundModule::Loaded(source) => lookup == Ok::<ModuleLookup<'_, S>, PhaseError>(
                    ModuleLookup::Loaded(&source),
                ),
                FoundModule::Missing => lookup matches Ok(ModuleLookup::Missing),
                FoundModule::Elsewhere(found) => lookup matches Err(
                    PhaseError::WrongEnvironment { environment, .. },
                ) && environment == found,
                FoundModule::NoSourcePackage => lookup matches Err(PhaseError::NoSourcePackage),
                FoundModule::Load => lookup matches Ok(ModuleLookup::Load),
            },
    {
        let ready = match &self.preloaded {
            ActionPreloaded::Ready(ready) => ready,
            _ => {
                return Err(PhaseError::NotInitialized);
            },
        };
        if let Some(source) = ready.modules.get(canonical_path) {
            return Ok(ModuleLookup::Loaded(source));
        }
        let environment = match ready.module_metadata.get(canonical_path) {
            Some(environment) => *environment,
            None => {
                return Ok(ModuleLookup::Missing);
            },
        };
        if environment != ModuleEnvironment::Isolate {
            return Err(
                PhaseError::WrongEnvironment { path: shown_path.to_owned(), environment },
            );
        }
        if !ready.source_package {
            return Err(PhaseError::NoSourcePackage);
        }
        Ok(ModuleLookup::Load)
    }

    /// A module was loaded: it is there from now on.
    pub fn module_loaded(&mut self, canonical_path: String, source: S)
        requires
            old(self)@.preloaded is Ready,
        ensures
            old(self)@.preloaded matches PreloadedModel::Ready(ready) && final(self)@ == (
            ActionPhaseModel {
                preloaded: PreloadedModel::Ready(
                    ReadyModel {
                        modules: ready.modules.insert(canonical_path@, source),
                        ..ready
                    },
                ),
                ..old(self)@
            }),
            final(self)@.preloaded == PreloadedModel::<S, A, C>::Ready(
                old(self)@.preloaded->Ready_0.with_module(canonical_path@, source),
            ),
    {
        let mut preloaded: ActionPreloaded<S, A, C> = ActionPreloaded::Preloading;
        std::mem::swap(&mut preloaded, &mut self.preloaded);
        match preloaded {
            ActionPreloaded::Ready(ready) => {
                let mut ready = ready;
                let _ = ready.modules.insert(canonical_path, source);
                self.preloaded = ActionPreloaded::Ready(ready);
            },
            other => {
                self.preloaded = other;
            },
        }
    }

    /// The action is executed from now on, with randomness and time of its own.
    pub fn begin_execution(&mut self, rng_seed: [u8; 32]) -> (begun: Result<(), PhaseError>)
        ensures
            match old(self)@.preloaded {
                PreloadedModel::Ready(ready) if old(self)@.phase == Phase::Importing => {
                    &&& begun is Ok
                    &&& final(self)@.preloaded == PreloadedModel::<S, A, C>::Ready(
                        ready.executed(rng_seed@),
                    )
                    &&& final(self)@ == (ActionPhaseModel {
                        phase: Phase::Executing,
                        preloaded: PreloadedModel::Ready(
                            ReadyModel {
                                rng: Some(seeded_chacha(rng_seed@)),
                                performance: if ready.performance is Some {
                                    Some(Phase::Executing)
                                } else {
                                    None
                                },
                                ..ready
                            },
                        ),
                        ..old(self)@
                    })
                },
                _ => {
                    &&& begun matches Err(error) && (if old(self)@.phase == Phase::Importing {
                        error is NotInitialized
                    } else {
                        error is AlreadyExecuting
                    })
                    &&& final(self)@ == old(self)@
                },
            },
    {
        if self.phase != Phase::Importing {
            return Err(PhaseError::AlreadyExecuting);
        }
        let mut preloaded: ActionPreloaded<S, A, C> = ActionPreloaded::Preloading;
        std::mem::swap(&mut preloaded, &mut self.preloaded);
        match preloaded {
            ActionPreloaded::Ready(ready) => {
                let mut ready = ready;
                self.phase = Phase::Executing;
                ready.rng = Some(seeded_rng(rng_seed));
                if ready.performance.is_some() {
                    ready.performance = Some(Phase::Executing);
                }
                self.preloaded = ActionPreloaded::Ready(ready);
                Ok(())
            },
            other => {
                self.preloaded = other;
                Err(PhaseError::NotInitialized)
            },
        }
    }

    /// Looks for a variable that the action sees.
    pub fn get_environment_variable(&self, name: &str) -> (lookup: Result<
        VariableLookup,
        PhaseError,
    >)
        ensures
            match self@.preloaded {
                PreloadedModel::Ready(ready) => lookup matches Ok(lookup) && lookup@ == variable(
                    ready.env_vars,
                    ready.component_env,
                    name@,
                ),
                _ => lookup matches Err(error) && error is NotInitialized,
            },
    {
        let ready = match &self.preloaded {
            ActionPreloaded::Ready(ready) => ready,
            _ => {
                return Err(PhaseError::NotInitialized);
            },
        };
        if let Some(component_env) = &ready.component_env {
            match component_env.env.get(name) {
                Some(EnvBinding::Value(text)) => {
                    return Ok(VariableLookup::Literal(text.clone()));
                },
                Some(EnvBinding::EnvVar(parent)) => {
                    return match component_env.parent_env_vars.get(parent.as_str()) {
                        Some(value) => Ok(VariableLookup::Found(value.clone())),
                        None => Ok(VariableLookup::Missing),
                    };
                },
                None => {},
            }
        }
        match ready.env_vars.get(name) {
            Some(value) => Ok(VariableLookup::Found(value.clone())),
            None => Ok(VariableLookup::Missing),
        }
    }

    /// The arguments of a component, which the app does not have, and which cannot be used before
    /// the action is executed.
    pub fn component_arguments(&self) -> (arguments: Result<&A, PhaseError>)
        ensures
            match self@.preloaded {
                PreloadedModel::Ready(ready) => match ready.component_arguments {
                    None => arguments matches Err(error) && error is NoComponentArgs,
                    Some(loaded) => if self@.phase == Phase::Executing {
                        arguments matches Ok(arguments) && *arguments == loaded
                    } else {
                        arguments matches Err(error) && error is NoComponentArgsDuringImport
                    },
                },
                _ => arguments matches Err(error) && error is NotInitialized,
            },
            self@.preloaded matches PreloadedModel::Ready(ready) ==> match ready.arguments_in(
                self@.phase,
            ) {
                Some(loaded) => arguments == Ok::<&A, PhaseError>(&loaded),
                None => arguments is Err,
            },
    {
        let ready = match &self.preloaded {
            ActionPreloaded::Ready(ready) => ready,
            _ => {
                return Err(PhaseError::NotInitialized);
            },
        };
        let arguments = match &ready.component_arguments {
            Some(arguments) => arguments,
            None => {
                return Err(PhaseError::NoComponentArgs);
            },
        };
        if self.phase != Phase::Executing {
            return Err(PhaseError::NoComponentArgsDuringImport);
        }
        Ok(arguments)
    }

    /// The randomness of the action: that of the deployment while it imports.
    pub fn rng(&mut self) -> (rng: Result<&mut ChaCha12Rng, PhaseError>)
        ensures
            match old(self)@.preloaded {
                PreloadedModel::Ready(ready) => match ready.rng {
                    Some(loaded) => {
                        &&& rng matches Ok(rng) && *rng == loaded && final(self)@ == (
                        ActionPhaseModel {
                            preloaded: PreloadedModel::Ready(
                                ReadyModel { rng: Some(*final(rng)), ..ready },
                            ),
                            ..old(self)@
                        })
                    },
                    None => {
                        &&& rng matches Err(error) && error is NoRandomDuringImport
                        &&& final(self)@ == old(self)@
                    },
                },
                _ => {
                    &&& rng matches Err(error) && error is NotInitialized
                    &&& final(self)@ == old(self)@
                },
            },
    {
        match &mut self.preloaded {
            ActionPreloaded::Ready(ready) => match &mut ready.rng {
                Some(rng) => Ok(rng),
                None => Err(PhaseError::NoRandomDuringImport),
            },
            _ => Err(PhaseError::NotInitialized),
        }
    }

    /// The time of the action: that of the deployment while it imports.
    pub fn unix_timestamp(&self, now: Duration) -> (timestamp: Result<Duration, PhaseError>)
        ensures
            match self@.preloaded {
                PreloadedModel::Ready(ready) => if self@.phase == Phase::Importing {
                    match ready.import_time_unix_timestamp {
                        Some(imported) => timestamp == Ok::<Duration, PhaseError>(imported),
                        None => timestamp matches Err(error) && error is NoDateDuringImport,
                    }
                } else {
                    timestamp == Ok::<Duration, PhaseError>(now)
                },
                _ => timestamp matches Err(error) && error is NotInitialized,
            },
            self@.preloaded matches PreloadedModel::Ready(ready) ==> match ready.time_in(
                self@.phase,
                now,
            ) {
                Some(told) => timestamp == Ok::<Duration, PhaseError>(told),
                None => timestamp is Err,
            },
    {
        let ready = match &self.preloaded {
            ActionPreloaded::Ready(ready) => ready,
            _ => {
                return Err(PhaseError::NotInitialized);
            },
        };
        if self.phase == Phase::Importing {
            match ready.import_time_unix_timestamp {
                Some(timestamp) => Ok(timestamp),
                None => Err(PhaseError::NoDateDuringImport),
            }
        } else {
            Ok(now)
        }
    }

    /// Which clock the action reads.
    pub fn performance_now(&self) -> (clock: Result<PerformanceClock, PhaseError>)
        ensures
            match self@.preloaded {
                PreloadedModel::Ready(ready) => match ready.performance {
                    None => clock == Ok::<PerformanceClock, PhaseError>(
                        PerformanceClock::Unsupported,
                    ),
                    Some(phase) => if phase != self@.phase {
                        clock matches Err(error) && error is PerformanceMismatch
                    } else if phase == Phase::Importing {
                        clock == Ok::<PerformanceClock, PhaseError>(PerformanceClock::Importing)
                    } else {
                        clock == Ok::<PerformanceClock, PhaseError>(PerformanceClock::Executing)
                    },
                },
                _ => clock matches Err(error) && error is NotInitialized,
            },
            self@.preloaded matches PreloadedModel::Ready(ready) ==> match ready.clock_in(
                self@.phase,
            ) {
                Some(read) => clock == Ok::<PerformanceClock, PhaseError>(read),
                None => clock is Err,
            },
    {
        let ready = match &self.preloaded {
            ActionPreloaded::Ready(ready) => ready,
            _ => {
                return Err(PhaseError::NotInitialized);
            },
        };
        match (self.phase, ready.performance) {
            (Phase::Importing, Some(Phase::Importing)) => Ok(PerformanceClock::Importing),
            (Phase::Executing, Some(Phase::Executing)) => Ok(PerformanceClock::Executing),
            (_, None) => Ok(PerformanceClock::Unsupported),
            _ => Err(PhaseError::PerformanceMismatch),
        }
    }

    /// Which clock the origin of the action's time is that of.
    pub fn performance_time_origin(&self) -> (clock: Result<PerformanceClock, PhaseError>)
        ensures
            match self@.preloaded {
                PreloadedModel::Ready(ready) => clock == Ok::<PerformanceClock, PhaseError>(
                    match ready.performance {
                        None => PerformanceClock::Unsupported,
                        Some(Phase::Importing) => PerformanceClock::Importing,
                        Some(Phase::Executing) => PerformanceClock::Executing,
                    },
                ),
                _ => clock matches Err(error) && error is NotInitialized,
            },
    {
        let ready = match &self.preloaded {
            ActionPreloaded::Ready(ready) => ready,
            _ => {
                return Err(PhaseError::NotInitialized);
            },
        };
        Ok(
            match ready.performance {
                None => PerformanceClock::Unsupported,
                Some(Phase::Importing) => PerformanceClock::Importing,
                Some(Phase::Executing) => PerformanceClock::Executing,
            },
        )
    }

    /// Refuses a task while the action imports.
    pub fn require_executing(&self, name_for_error: &str, description_for_error: &str) -> (allowed:
        Result<(), PhaseError>)
        ensures
            match allowed {
                Ok(()) => self@.phase == Phase::Executing,
                Err(error) => self@.phase == Phase::Importing && (error matches
                    PhaseError::NotDuringImport { name, description } && name@ == name_for_error@
                    && description@ == description_for_error@),
            },
    {
        if self.phase == Phase::Importing {
            return Err(
                PhaseError::NotDuringImport {
                    name: name_for_error.to_owned(),
                    description: description_for_error.to_owned(),
                },
            );
        }
        Ok(())
    }
}

/// The variables that the functions of the root see: system variables, those that canonical
/// addresses override, and those of the app, of which later ones win.
pub open spec fn root_env(
    defaults: Map<Seq<char>, Seq<char>>,
    overrides: Map<Seq<char>, Seq<char>>,
    user: Map<Seq<char>, Seq<char>>,
) -> Map<Seq<char>, Seq<char>> {
    overlaid(overlaid(defaults, overrides), user)
}

/// The functions of the root see every variable of the app, and of the others those that the app
/// does not set.
pub proof fn root_sees_the_variables_of_the_app(
    defaults: Map<Seq<char>, Seq<char>>,
    overrides: Map<Seq<char>, Seq<char>>,
    user: Map<Seq<char>, Seq<char>>,
    name: Seq<char>,
)
    ensures
        variable(root_env(defaults, overrides, user), None, name) == (if user.dom().contains(name) {
            VariableView::Found(user[name])
        } else if overrides.dom().contains(name) {
            VariableView::Found(overrides[name])
        } else {
            found_in(defaults, name)
        }),
{
}

/// The functions of another component see a variable of the app only where the component binds a
/// name to it, and a text that it binds only as a text that has yet to be checked; what it does not bind they see as system variables alone say.
pub proof fn components_see_what_they_bind(
    system: Map<Seq<char>, Seq<char>>,
    component: ComponentEnvModel,
    name: Seq<char>,
)
    ensures
        !component.env.dom().contains(name) ==> variable(system, Some(component), name) == variable(
            system,
            None,
            name,
        ),
        component.env.dom().contains(name) ==> variable(system, Some(component), name) == (
        match component.env[name] {
            BindingView::Value(text) => VariableView::Literal(text),
            BindingView::EnvVar(parent) => found_in(component.parent_env_vars, parent),
        }),
{
}

/// A component with an address prefix sees the address of the site without a slash between them
/// that either of them ends with.
pub proof fn prefixed_sites_have_no_trailing_slash(base: Seq<char>, prefix: Seq<char>)
    ensures
        trimmed_end(prefixed_site(base, prefix), '/') == prefixed_site(base, prefix) || trimmed_end(
            prefix,
            '/',
        ).len() == 0,
{
    let head = trimmed_end(base, '/');
    let tail = trimmed_end(prefix, '/');
    lemma_trimmed_end(prefix);
    if tail.len() > 0 {
        assert((head + tail).last() == tail.last());
    }
}

proof fn lemma_trimmed_end(s: Seq<char>)
    ensures
        trimmed_end(s, '/').len() == 0 || trimmed_end(s, '/').last() != '/',
    decreases s.len(),
{
    if s.len() > 0 && s.last() == '/' {
        lemma_trimmed_end(s.drop_last());
    }
}

/// A variable that is laid over others is seen as it is, whatever was below; all others are seen as
/// they were.
pub proof fn variables_on_top_win(
    below: Map<Seq<char>, Seq<char>>,
    above: Map<Seq<char>, Seq<char>>,
    name: Seq<char>,
)
    ensures
        overlaid(below, above).dom().contains(name) <==> below.dom().contains(name)
            || above.dom().contains(name),
        above.dom().contains(name) ==> overlaid(below, above)[name] == above[name],
        below.dom().contains(name) && !above.dom().contains(name) ==> overlaid(below, above)[name]
            == below[name],
{
}

/// The action knows the paths of all modules that are no system modules, and no others.
pub proof fn system_modules_are_left_out(
    metadata: Seq<ModuleMetadata>,
    n: int,
    path: Seq<char>,
)
    requires
        0 <= n <= metadata.len(),
    ensures
        user_modules(metadata, n).dom().contains(path) <==> exists|i: int|
            0 <= i < n && (#[trigger] metadata[i]).path@ == path && !metadata[i].is_system,
    decreases n,
{
    if n > 0 {
        system_modules_are_left_out(metadata, n - 1, path);
        assert(metadata[n - 1] == metadata[n - 1]);
    }
}

/// The action knows the environment of a module as the last entry of its path tells it.
pub proof fn the_last_entry_of_a_path_counts(metadata: Seq<ModuleMetadata>, n: int, i: int)
    requires
        0 <= i < n <= metadata.len(),
        !metadata[i].is_system,
        forall|k: int|
            i < k < n && !(#[trigger] metadata[k]).is_system ==> metadata[k].path@
                != metadata[i].path@,
    ensures
        user_modules(metadata, n).dom().contains(metadata[i].path@),
        user_modules(metadata, n)[metadata[i].path@] == metadata[i].environment,
    decreases n,
{
    if i < n - 1 {
        the_last_entry_of_a_path_counts(metadata, n - 1, i);
    }
}

/// A component binds each name of its list, and a name that is there more than once as the last
/// entry says.
pub proof fn the_last_binding_counts(bindings: Seq<(String, EnvBinding)>, n: int, name: Seq<char>)
    requires
        0 <= n <= bindings.len(),
    ensures
        bindings_in(bindings, n).dom().contains(name) <==> exists|i: int|
            0 <= i < n && (#[trigger] bindings[i]).0@ == name,
        forall|i: int|
            0 <= i < n && (#[trigger] bindings[i]).0@ == name && (forall|k: int|
                i < k < n ==> (#[trigger] bindings[k]).0@ != name) ==> bindings_in(bindings, n)[name]
                == bindings[i].1@,
    decreases n,
{
    if n > 0 {
        the_last_binding_counts(bindings, n - 1, name);
        assert forall|i: int|
            0 <= i < n && (#[trigger] bindings[i]).0@ == name && (forall|k: int|
                i < k < n ==> (#[trigger] bindings[k]).0@ != name) implies bindings_in(
            bindings,
            n,
        )[name] == bindings[i].1@ by {
            if i < n - 1 {
                assert(bindings[n - 1].0@ != name);
                assert(bindings_in(bindings, n - 1)[name] == bindings[i].1@);
            }
        }
    }
}

/// Slashes at the end of the address of the site or of the prefix make no difference; without any
/// the one follows the other.
pub proof fn slashes_between_make_no_difference(base: Seq<char>, prefix: Seq<char>)
    ensures
        prefixed_site(base.push('/'), prefix) == prefixed_site(base, prefix),
        prefixed_site(base, prefix.push('/')) == prefixed_site(base, prefix),
        (base.len() == 0 || base.last() != '/') && (prefix.len() == 0 || prefix.last() != '/')
            ==> prefixed_site(base, prefix) == base + prefix,
{
    assert(base.push('/').drop_last() =~= base);
    assert(prefix.push('/').drop_last() =~= prefix);
}

/// What an action finds under a name is what its component binds there, if it binds something, and
/// otherwise what the variables say; nothing else is found.
pub proof fn variables_are_found_where_they_are_set(
    env_vars: Map<Seq<char>, Seq<char>>,
    component: ComponentEnvModel,
    name: Seq<char>,
)
    ensures
        ({
            let found = variable(env_vars, Some(component), name);
            let bound = component.env.dom().contains(name);
            &&& found is Literal <==> bound && component.env[name] is Value
            &&& found matches VariableView::Literal(text) ==> component.env[name]
                == BindingView::Value(text)
            &&& found matches VariableView::Found(value) ==> if bound {
                component.env[name] matches BindingView::EnvVar(parent)
                    && component.parent_env_vars.dom().contains(parent)
                    && component.parent_env_vars[parent] == value
            } else {
                env_vars.dom().contains(name) && env_vars[name] == value
            }
            &&& found is Missing ==> if bound {
                component.env[name] matches BindingView::EnvVar(parent)
                    && !component.parent_env_vars.dom().contains(parent)
            } else {
                !env_vars.dom().contains(name)
            }
        }),
        variable(env_vars, None, name) matches VariableView::Found(value) ==> env_vars.dom().contains(
            name,
        ) && env_vars[name] == value,
        variable(env_vars, None, name) is Missing <==> !env_vars.dom().contains(name),
{
}

/// The steps of loading from one on, as many as are asked for.
pub open spec fn steps_from(
    step: LoadStep,
    root: bool,
    snooping: bool,
    has_site: bool,
    binds_parent: bool,
    n: nat,
) -> Set<LoadStep>
    decreases n,
{
    if n == 0 {
        set![step]
    } else {
        steps_from(
            step.following(root, snooping, has_site, binds_parent),
            root,
            snooping,
            has_site,
            binds_parent,
            (n - 1) as nat,
        ).insert(step)
    }
}

/// Loading comes to its end, and takes in on its way what everybody needs, the variables of the app
/// for the root alone, the address, the variables and the arguments of a component for that alone,
/// and what is read only where that is to be captured.
pub proof fn loading_takes_in_what_is_needed(
    root: bool,
    snooping: bool,
    has_site: bool,
    binds_parent: bool,
)
    ensures
        ({
            let steps = steps_from(
                LoadStep::UdfConfig,
                root,
                snooping,
                has_site,
                binds_parent,
                11,
            );
            &&& steps.contains(LoadStep::ModuleMetadata) && steps.contains(LoadStep::SourcePackage)
            &&& steps.contains(LoadStep::Resources) && steps.contains(LoadStep::CanonicalUrls)
            &&& steps.contains(LoadStep::UserEnvVars) <==> root
            &&& steps.contains(LoadStep::ComponentMetadata) <==> !root
            &&& steps.contains(LoadStep::SiteUrl) <==> !root && has_site
            &&& steps.contains(LoadStep::ComponentEnv) <==> !root
            &&& steps.contains(LoadStep::ParentEnvVars) <==> !root && binds_parent
            &&& steps.contains(LoadStep::ComponentArguments) <==> !root
            &&& steps.contains(LoadStep::ContextReadSet) <==> snooping
            &&& steps.contains(LoadStep::Finished)
        }),
{
    reveal_with_fuel(steps_from, 12);
}

/// A module that was loaded is there from then on, and nothing else that is known of modules
/// changes with it.
pub proof fn loaded_modules_stay<S, A, C>(
    ready: ReadyModel<S, A, C>,
    path: Seq<char>,
    source: S,
    other: Seq<char>,
)
    ensures
        ready.with_module(path, source).found(path) == FoundModule::Loaded(source),
        other != path ==> ready.with_module(path, source).found(other) == ready.found(other),
{
}

/// A module has to be loaded if and only if it was not yet, the deployment has a source package,
/// and the package holds the module for this environment; and one that is not listed is missing
/// unless it was loaded.
pub proof fn only_modules_of_this_environment_are_loaded<S, A, C>(
    ready: ReadyModel<S, A, C>,
    path: Seq<char>,
)
    ensures
        ready.found(path) is Load <==> {
            &&& !ready.modules.dom().contains(path)
            &&& ready.source_package
            &&& ready.module_metadata.dom().contains(path) && ready.module_metadata[path]
                == ModuleEnvironment::Isolate
        },
        ready.found(path) is Missing <==> !ready.modules.dom().contains(path)
            && !ready.module_metadata.dom().contains(path),
        ready.found(path) matches FoundModule::Elsewhere(environment) ==> environment
            != ModuleEnvironment::Isolate && ready.module_metadata[path] == environment,
        ready.found(path) is NoSourcePackage ==> !ready.source_package,
{
}

/// While an action imports, its time is that of the deployment, whatever the clock says, and its
/// arguments cannot be used. Once it is executed, time goes on, its arguments can be used, and its
/// randomness comes from its own seed alone. In both phases it can read its clock, if the
/// deployment has one.
pub proof fn execution_has_time_and_randomness_of_its_own<S, A, C>(
    loading: LoadingModel<A, C>,
    rng_seed: Seq<u8>,
    now: Duration,
    later: Duration,
)
    ensures
        ({
            let ready = ready_from::<S, A, C>(loading);
            let executed = ready.executed(rng_seed);
            &&& ready.time_in(Phase::Importing, now) == ready.time_in(Phase::Importing, later)
            &&& ready.time_in(Phase::Importing, now) == loading.import_time_unix_timestamp
            &&& ready.arguments_in(Phase::Importing) is None
            &&& ready.rng == loading.rng
            &&& executed.time_in(Phase::Executing, now) == Some(now)
            &&& executed.arguments_in(Phase::Executing) == loading.component_arguments
            &&& executed.rng == ready.executed(rng_seed).executed(rng_seed).rng
            &&& executed.rng == Some(seeded_chacha(rng_seed))
            &&& ready.clock_in(Phase::Importing) is Some && executed.clock_in(
                Phase::Executing,
            ) is Some
            &&& ready.clock_in(Phase::Importing) == Some(PerformanceClock::Unsupported)
                <==> loading.import_time_unix_timestamp is None
            &&& executed.clock_in(Phase::Executing) == Some(PerformanceClock::Unsupported)
                <==> loading.import_time_unix_timestamp is None
            &&& ready.clock_in(Phase::Executing) is None
                <==> loading.import_time_unix_timestamp is Some
            &&& ready.clock_in(Phase::Importing) != Some(PerformanceClock::Executing)
            &&& executed.clock_in(Phase::Executing) != Some(PerformanceClock::Importing)
            &&& executed.env_vars == loading.env_vars && executed.module_metadata
                == loading.module_metadata
        }),
{
}

} // verus!

//! The kinds of reusable contexts, and what happens to them.
use vstd::prelude::*;

verus! {

/// The kinds of contexts that can be reused.
#[derive(Clone, Copy, Debug, PartialEq, Eq, Structural)]
pub enum ReusableContextKind {
    DatabaseUdf,
    HttpAction,
}

impl ReusableContextKind {
    pub open spec fn label(self) -> Seq<char> {
        match self {
            ReusableContextKind::DatabaseUdf => "database_udf"@,
            ReusableContextKind::HttpAction => "http_action"@,
        }
    }

    pub fn as_label(self) -> (label: &'static str)
        ensures
            label@ == self.label(),
    {
        match self {
            ReusableContextKind::DatabaseUdf => "database_udf",
            ReusableContextKind::HttpAction => "http_action",
        }
    }
}

/// A use of the context cache.
#[derive(Clone, Copy, Debug, PartialEq, Eq, Structural)]
pub enum ContextCacheOperation {
    Save,
    Take,
    RejectPoolCapacity,
    RejectFrequency,
    RejectMemoryPressure,
}

impl ContextCacheOperation {
    pub open spec fn label(self) -> Seq<char> {
        match self {
            ContextCacheOperation::Save => "save"@,
            ContextCacheOperation::Take => "take"@,
            ContextCacheOperation::RejectPoolCapacity => "reject_pool_capacity"@,
            ContextCacheOperation::RejectFrequency => "reject_frequency"@,
            ContextCacheOperation::RejectMemoryPressure => "reject_memory_pressure"@,
        }
    }

    pub fn as_label(self) -> (label: &'static str)
        ensures
            label@ == self.label(),
    {
        match self {
            ContextCacheOperation::Save => "save",
            ContextCacheOperation::Take => "take",
            ContextCacheOperation::RejectPoolCapacity => "reject_pool_capacity",
            ContextCacheOperation::RejectFrequency => "reject_frequency",
            ContextCacheOperation::RejectMemoryPressure => "reject_memory_pressure",
        }
    }
}

/// Why a saved context is cleared.
#[derive(Clone, Copy, Debug, PartialEq, Eq, Structural)]
pub enum ContextCacheClearReason {
    AdmissionReplacement,
    PoolCapacityReplacement,
    DuplicateReplacement,
    MemoryPressure,
    CgroupMemoryPressure,
    AppDefinitionEvaluation,
    CacheDrop,
}

impl ContextCacheClearReason {
    pub open spec fn label(self) -> Seq<char> {
        match self {
            ContextCacheClearReason::AdmissionReplacement => "admission_replacement"@,
            ContextCacheClearReason::PoolCapacityReplacement => "pool_capacity_replacement"@,
            ContextCacheClearReason::DuplicateReplacement => "duplicate_replacement"@,
            ContextCacheClearReason::MemoryPressure => "memory_pressure"@,
            ContextCacheClearReason::CgroupMemoryPressure => "cgroup_memory_pressure"@,
            ContextCacheClearReason::AppDefinitionEvaluation => "app_definition_evaluation"@,
            ContextCacheClearReason::CacheDrop => "cache_drop"@,
        }
    }

    pub fn as_label(self) -> (label: &'static str)
        ensures
            label@ == self.label(),
    {
        match self {
            ContextCacheClearReason::AdmissionReplacement => "admission_replacement",
            ContextCacheClearReason::PoolCapacityReplacement => "pool_capacity_replacement",
            ContextCacheClearReason::DuplicateReplacement => "duplicate_replacement",
            ContextCacheClearReason::MemoryPressure => "memory_pressure",
            ContextCacheClearReason::CgroupMemoryPressure => "cgroup_memory_pressure",
            ContextCacheClearReason::AppDefinitionEvaluation => "app_definition_evaluation",
            ContextCacheClearReason::CacheDrop => "cache_drop",
        }
    }
}

/// How a worker was found for a request that can reuse a context.
#[derive(Clone, Copy, Debug, PartialEq, Eq, Structural)]
pub enum SchedulerContextAffinityOutcome {
    Hit,
    /// A worker of the same client that held no context.
    EmptyWorker,
    NewWorker,
    StolenWorker,
}

impl SchedulerContextAffinityOutcome {
    pub open spec fn label(self) -> Seq<char> {
        match self {
            SchedulerContextAffinityOutcome::Hit => "hit"@,
            SchedulerContextAffinityOutcome::EmptyWorker => "same_client_worker"@,
            SchedulerContextAffinityOutcome::NewWorker => "new_worker"@,
            SchedulerContextAffinityOutcome::StolenWorker => "stolen_worker"@,
        }
    }

    pub fn metric_label(self) -> (label: &'static str)
        ensures
            label@ == self.label(),
    {
        match self {
            SchedulerContextAffinityOutcome::Hit => "hit",
            SchedulerContextAffinityOutcome::EmptyWorker => "same_client_worker",
            SchedulerContextAffinityOutcome::NewWorker => "new_worker",
            SchedulerContextAffinityOutcome::StolenWorker => "stolen_worker",
        }
    }
}

/// What a lookup of a reusable context of a database function gave.
#[derive(Clone, Copy, Debug, PartialEq, Eq, Structural)]
pub enum DatabaseUdfContextReuseLookupOutcome {
    NotFound,
    ValidationFailed,
    ValidationError,
    Hit,
}

impl DatabaseUdfContextReuseLookupOutcome {
    pub open spec fn label(self) -> Seq<char> {
        match self {
            DatabaseUdfContextReuseLookupOutcome::NotFound => "not_found"@,
            DatabaseUdfContextReuseLookupOutcome::ValidationFailed => "validation_failed"@,
            DatabaseUdfContextReuseLookupOutcome::ValidationError => "validation_error"@,
            DatabaseUdfContextReuseLookupOutcome::Hit => "hit"@,
        }
    }

    pub fn metric_label(self) -> (label: &'static str)
        ensures
            label@ == self.label(),
    {
        match self {
            DatabaseUdfContextReuseLookupOutcome::NotFound => "not_found",
            DatabaseUdfContextReuseLookupOutcome::ValidationFailed => "validation_failed",
            DatabaseUdfContextReuseLookupOutcome::ValidationError => "validation_error",
            DatabaseUdfContextReuseLookupOutcome::Hit => "hit",
        }
    }
}

} // verus!

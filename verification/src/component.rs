//! Components of an app, and the paths of modules and functions in them.
use vstd::prelude::*;
use vstd::string::*;

use crate::text::same_text;

verus! {

/// The component that code belongs to.
#[derive(Debug)]
pub enum ComponentId {
    Root,
    /// A component other than the root, by its id.
    Child(String),
}

impl View for ComponentId {
    type V = Option<Seq<char>>;

    open spec fn view(&self) -> Option<Seq<char>> {
        match self {
            ComponentId::Root => None,
            ComponentId::Child(id) => Some(id@),
        }
    }
}

impl ComponentId {
    pub fn is_root(&self) -> (root: bool)
        ensures
            root == (self@ is None),
    {
        match self {
            ComponentId::Root => true,
            ComponentId::Child(_) => false,
        }
    }

    pub fn same(&self, other: &ComponentId) -> (same: bool)
        ensures
            same == (self@ == other@),
    {
        match (self, other) {
            (ComponentId::Root, ComponentId::Root) => true,
            (ComponentId::Child(a), ComponentId::Child(b)) => same_text(a.as_str(), b.as_str()),
            _ => false,
        }
    }

    pub fn copied(&self) -> (copy: ComponentId)
        ensures
            copy@ == self@,
    {
        match self {
            ComponentId::Root => ComponentId::Root,
            ComponentId::Child(id) => ComponentId::Child(id.clone()),
        }
    }
}

/// The path of a module of a component.
#[derive(Debug)]
pub struct CanonicalizedComponentModulePath {
    pub component: ComponentId,
    pub module: String,
}

/// What a `CanonicalizedComponentModulePath` names.
pub struct ModulePathView {
    pub component: Option<Seq<char>>,
    pub module: Seq<char>,
}

impl View for CanonicalizedComponentModulePath {
    type V = ModulePathView;

    open spec fn view(&self) -> ModulePathView {
        ModulePathView { component: self.component@, module: self.module@ }
    }
}

impl CanonicalizedComponentModulePath {
    pub fn same(&self, other: &CanonicalizedComponentModulePath) -> (same: bool)
        ensures
            same == (self@ == other@),
    {
        self.component.same(&other.component) && same_text(
            self.module.as_str(),
            other.module.as_str(),
        )
    }

    pub fn copied(&self) -> (copy: CanonicalizedComponentModulePath)
        ensures
            copy@ == self@,
    {
        CanonicalizedComponentModulePath {
            component: self.component.copied(),
            module: self.module.clone(),
        }
    }
}

/// The path of a function of a component.
#[derive(Debug)]
pub struct ResolvedComponentFunctionPath {
    pub component: ComponentId,
    pub module: String,
    pub function_name: String,
}

/// The module that a function is in: all functions of a module share contexts.
pub fn context_cache_key(function_path: &ResolvedComponentFunctionPath) -> (key:
    CanonicalizedComponentModulePath)
    ensures
        key@ == (ModulePathView {
            component: function_path.component@,
            module: function_path.module@,
        }),
{
    CanonicalizedComponentModulePath {
        component: function_path.component.copied(),
        module: function_path.module.clone(),
    }
}

} // verus!

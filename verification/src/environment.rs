//! Development environments: their configuration and runtime record.
//!
//! A configuration names a project, its path, its dependencies, its
//! scripts and its variables; an environment is a stored configuration
//! with identity, status and timestamps.  Whether the project path
//! exists on disk is the caller's concern: the checks here are the
//! structural ones, stated exactly.

use vstd::prelude::*;

use crate::errors::EnvError;
use crate::strings::{blank_text, is_blank_string, str_eq};
use crate::strmap::{kv_get, kv_has, kv_remove, KvPairs, StringMap};
use crate::sys::{fresh_id, now_ts};
use vstd::string::StringExecFns;

verus! {

/// The kind of project an environment hosts.
#[derive(Debug, Clone, Copy, PartialEq, Eq, Structural)]
pub enum ProjectType {
    NodeJS,
    Rust,
    Python,
    Mixed,
}

/// When a dependency is needed.
#[derive(Debug, Clone, Copy, PartialEq, Eq, Structural)]
pub enum DependencyType {
    Runtime,
    Development,
    Build,
    System,
}

/// Where an environment stands.
#[derive(Debug, Clone, PartialEq)]
pub enum EnvironmentStatus {
    Active,
    Inactive,
    Installing,
    Error(String),
    Validating,
}

/// One named dependency of an environment.
#[derive(Debug, Clone)]
pub struct DependencySpec {
    pub name: String,
    pub version: Option<String>,
    pub dependency_type: DependencyType,
    pub install_command: Option<String>,
    pub required: bool,
}

/// Mathematical model of a dependency.
pub struct DepModel {
    pub name: Seq<char>,
    pub version: Option<Seq<char>>,
    pub dependency_type: DependencyType,
    pub install_command: Option<Seq<char>>,
    pub required: bool,
}

impl View for DependencySpec {
    type V = DepModel;

    open spec fn view(&self) -> DepModel {
        DepModel {
            name: self.name@,
            version: crate::workflow::opt_text(self.version),
            dependency_type: self.dependency_type,
            install_command: crate::workflow::opt_text(self.install_command),
            required: self.required,
        }
    }
}

/// The models of a sequence of dependencies.
pub open spec fn deps_view(ds: Seq<DependencySpec>) -> Seq<DepModel> {
    ds.map_values(|d: DependencySpec| d@)
}

/// How the analysis assistant behaves for an environment.
#[derive(Debug, Clone)]
pub struct AISettings {
    pub enabled: bool,
    pub preferred_model: Option<String>,
    pub analysis_frequency: Option<String>,
    pub auto_suggestions: bool,
}

impl Default for AISettings {
    /// On, analysing on save, suggesting automatically.
    fn default() -> (r: Self)
        ensures
            r.enabled,
            r.preferred_model is None,
            r.analysis_frequency matches Some(f) && f@ == "on_save"@,
            r.auto_suggestions,
    {
        AISettings {
            enabled: true,
            preferred_model: None,
            analysis_frequency: Some(String::from_str("on_save")),
            auto_suggestions: true,
        }
    }
}

/// The message `validate` reports for a configuration, if any: a
/// blank environment name, then a blank dependency name, then a blank
/// script name.  Blank means empty or all whitespace.
pub open spec fn env_config_error(
    name: Seq<char>,
    deps: Seq<DepModel>,
    scripts: KvPairs,
) -> Option<Seq<char>> {
    if blank_text(name) {
        Some("Environment name cannot be empty"@)
    } else if exists|i: int| 0 <= i < deps.len() && blank_text((#[trigger] deps[i]).name) {
        Some("Dependency name cannot be empty"@)
    } else if exists|i: int| 0 <= i < scripts.len() && blank_text((#[trigger] scripts[i]).0) {
        Some("Script name cannot be empty"@)
    } else {
        None
    }
}

/// What an environment is made from: name, path, project type,
/// dependencies, variables, scripts and assistant settings.
#[derive(Debug, Clone)]
pub struct EnvironmentConfig {
    pub name: String,
    pub path: String,
    pub project_type: ProjectType,
    pub dependencies: Vec<DependencySpec>,
    pub environment_variables: StringMap,
    pub scripts: StringMap,
    pub ai_settings: AISettings,
    pub description: Option<String>,
}

impl EnvironmentConfig {
    /// A bare configuration: no dependencies, variables or scripts,
    /// default assistant settings.
    pub fn new(name: String, path: String, project_type: ProjectType) -> (r: Self)
        ensures
            r.name@ == name@,
            r.path@ == path@,
            r.project_type == project_type,
            r.dependencies@.len() == 0,
            r.environment_variables@.len() == 0,
            r.scripts@.len() == 0,
            r.ai_settings.enabled,
            r.ai_settings.preferred_model is None,
            r.ai_settings.analysis_frequency matches Some(f) && f@ == "on_save"@,
            r.ai_settings.auto_suggestions,
            r.description is None,
    {
        EnvironmentConfig {
            name,
            path,
            project_type,
            dependencies: Vec::new(),
            environment_variables: StringMap::new(),
            scripts: StringMap::new(),
            ai_settings: AISettings::default(),
            description: None,
        }
    }

    /// Structural validation: the environment name and every
    /// dependency and script name must not be blank.  Whether the
    /// project path exists on disk is checked by the caller, which has
    /// the file system.
    pub fn validate(&self) -> (r: Result<(), EnvError>)
        ensures
            r is Ok <==> env_config_error(self.name@, deps_view(self.dependencies@), self.scripts@)
                is None,
            r matches Err(e) ==> (e matches EnvError::InvalidConfig(m) && Some(m@)
                == env_config_error(self.name@, deps_view(self.dependencies@), self.scripts@)),
    {
        if is_blank_string(&self.name) {
            return Err(
                EnvError::InvalidConfig(String::from_str("Environment name cannot be empty")),
            );
        }
        let mut i: usize = 0;
        while i < self.dependencies.len()
            invariant
                i <= self.dependencies@.len(),
                !blank_text(self.name@),
                forall|j: int|
                    0 <= j < i ==> !blank_text((#[trigger] deps_view(self.dependencies@)[j]).name),
            decreases self.dependencies@.len() - i,
        {
            if is_blank_string(&self.dependencies[i].name) {
                assert(blank_text(deps_view(self.dependencies@)[i as int].name));
                return Err(
                    EnvError::InvalidConfig(String::from_str("Dependency name cannot be empty")),
                );
            }
            assert(!blank_text(deps_view(self.dependencies@)[i as int].name));
            i = i + 1;
        }
        let mut i: usize = 0;
        while i < self.scripts.len()
            invariant
                i <= self.scripts@.len(),
                !blank_text(self.name@),
                forall|j: int| 0 <= j < i ==> !blank_text((#[trigger] self.scripts@[j]).0),
                forall|j: int|
                    0 <= j < self.dependencies@.len() ==> !blank_text((#[trigger] deps_view(
                        self.dependencies@,
                    )[j]).name),
            decreases self.scripts@.len() - i,
        {
            if is_blank_string(&self.scripts.entry(i).0) {
                assert(blank_text(self.scripts@[i as int].0));
                return Err(
                    EnvError::InvalidConfig(String::from_str("Script name cannot be empty")),
                );
            }
            assert(!blank_text(self.scripts@[i as int].0));
            i = i + 1;
        }
        Ok(())
    }

    /// Add a dependency, replacing any earlier one with the same name.
    pub fn add_dependency(&mut self, dependency: DependencySpec)
        ensures
            deps_view(final(self).dependencies@) == deps_view(old(self).dependencies@).filter(
                dep_keeps_name(dependency.name@),
            ).push(dependency@),
            final(self).name == old(self).name,
            final(self).path == old(self).path,
            final(self).project_type == old(self).project_type,
            final(self).environment_variables@ == old(self).environment_variables@,
            final(self).scripts@ == old(self).scripts@,
            final(self).description == old(self).description,
    {
        let mut out: Vec<DependencySpec> = Vec::new();
        let mut i: usize = 0;
        proof {
            assert(deps_view(self.dependencies@.subrange(0, 0)) =~= Seq::<DepModel>::empty());
            assert(deps_view(out@) =~= deps_view(self.dependencies@.subrange(0, 0)).filter(
                dep_keeps_name(dependency.name@),
            ));
        }
        while i < self.dependencies.len()
            invariant
                i <= self.dependencies@.len(),
                deps_view(out@) == deps_view(self.dependencies@.subrange(0, i as int)).filter(
                    dep_keeps_name(dependency.name@),
                ),
            decreases self.dependencies@.len() - i,
        {
            proof {
                let prefix = deps_view(self.dependencies@.subrange(0, i as int));
                let e = self.dependencies@[i as int]@;
                assert(deps_view(self.dependencies@.subrange(0, i as int + 1)) =~= prefix.push(e));
                prefix.lemma_filter_push(e, dep_keeps_name(dependency.name@));
            }
            if !str_eq(&self.dependencies[i].name, &dependency.name) {
                out.push(self.dependencies[i].clone_dep());
                assert(deps_view(out@) =~= deps_view(
                    self.dependencies@.subrange(0, i as int),
                ).filter(dep_keeps_name(dependency.name@)).push(self.dependencies@[i as int]@));
            }
            i = i + 1;
        }
        proof {
            assert(self.dependencies@.subrange(0, self.dependencies@.len() as int)
                =~= self.dependencies@);
        }
        let ghost dm = dependency@;
        out.push(dependency);
        self.dependencies = out;
        proof {
            assert(deps_view(self.dependencies@) =~= deps_view(old(self).dependencies@).filter(
                dep_keeps_name(dm.name),
            ).push(dm));
        }
    }

    /// Drop every dependency with the given name.
    pub fn remove_dependency(&mut self, name: &String)
        ensures
            deps_view(final(self).dependencies@) == deps_view(old(self).dependencies@).filter(
                dep_keeps_name(name@),
            ),
            final(self).name == old(self).name,
            final(self).path == old(self).path,
            final(self).project_type == old(self).project_type,
            final(self).environment_variables@ == old(self).environment_variables@,
            final(self).scripts@ == old(self).scripts@,
            final(self).description == old(self).description,
    {
        let mut out: Vec<DependencySpec> = Vec::new();
        let mut i: usize = 0;
        proof {
            assert(deps_view(self.dependencies@.subrange(0, 0)) =~= Seq::<DepModel>::empty());
            assert(deps_view(out@) =~= deps_view(self.dependencies@.subrange(0, 0)).filter(
                dep_keeps_name(name@),
            ));
        }
        while i < self.dependencies.len()
            invariant
                i <= self.dependencies@.len(),
                deps_view(out@) == deps_view(self.dependencies@.subrange(0, i as int)).filter(
                    dep_keeps_name(name@),
                ),
            decreases self.dependencies@.len() - i,
        {
            proof {
                let prefix = deps_view(self.dependencies@.subrange(0, i as int));
                let e = self.dependencies@[i as int]@;
                assert(deps_view(self.dependencies@.subrange(0, i as int + 1)) =~= prefix.push(e));
                prefix.lemma_filter_push(e, dep_keeps_name(name@));
            }
            if !str_eq(&self.dependencies[i].name, name) {
                out.push(self.dependencies[i].clone_dep());
                assert(deps_view(out@) =~= deps_view(
                    self.dependencies@.subrange(0, i as int),
                ).filter(dep_keeps_name(name@)).push(self.dependencies@[i as int]@));
            }
            i = i + 1;
        }
        proof {
            assert(self.dependencies@.subrange(0, self.dependencies@.len() as int)
                =~= self.dependencies@);
        }
        self.dependencies = out;
    }

    /// Bind a named script, last write wins.
    pub fn add_script(&mut self, name: String, command: String)
        ensures
            final(self).scripts@ == kv_remove(old(self).scripts@, name@).push((name@, command@)),
            final(self).dependencies == old(self).dependencies,
            final(self).environment_variables@ == old(self).environment_variables@,
    {
        self.scripts.insert(name, command);
    }

    /// Drop a named script.
    pub fn remove_script(&mut self, name: &String)
        ensures
            final(self).scripts@ == kv_remove(old(self).scripts@, name@),
            final(self).dependencies == old(self).dependencies,
            final(self).environment_variables@ == old(self).environment_variables@,
    {
        self.scripts.remove(name);
    }

    /// Bind an environment variable, last write wins.
    pub fn set_environment_variable(&mut self, key: String, value: String)
        ensures
            final(self).environment_variables@ == kv_remove(
                old(self).environment_variables@,
                key@,
            ).push((key@, value@)),
            final(self).dependencies == old(self).dependencies,
            final(self).scripts@ == old(self).scripts@,
    {
        self.environment_variables.insert(key, value);
    }

    /// Drop an environment variable.
    pub fn remove_environment_variable(&mut self, key: &String)
        ensures
            final(self).environment_variables@ == kv_remove(
                old(self).environment_variables@,
                key@,
            ),
            final(self).dependencies == old(self).dependencies,
            final(self).scripts@ == old(self).scripts@,
    {
        self.environment_variables.remove(key);
    }
}

/// The predicate "is not the dependency named `name`".
pub open spec fn dep_keeps_name(name: Seq<char>) -> spec_fn(DepModel) -> bool {
    |d: DepModel| d.name != name
}

impl DependencySpec {
    /// A copy with the same fields.
    pub fn clone_dep(&self) -> (r: Self)
        ensures
            r@ == self@,
    {
        DependencySpec {
            name: self.name.clone(),
            version: crate::workflow::clone_opt_string(&self.version),
            dependency_type: self.dependency_type,
            install_command: crate::workflow::clone_opt_string(&self.install_command),
            required: self.required,
        }
    }
}

/// What a validation pass found.
#[derive(Debug, Clone)]
pub struct ValidationResult {
    pub is_valid: bool,
    pub missing_dependencies: Vec<String>,
    pub invalid_paths: Vec<String>,
    pub warnings: Vec<String>,
    pub errors: Vec<String>,
}

/// A stored environment: a configuration with identity, status and
/// timestamps.
#[derive(Debug, Clone)]
pub struct Environment {
    pub id: String,
    pub name: String,
    pub path: String,
    pub project_type: ProjectType,
    pub dependencies: Vec<DependencySpec>,
    pub environment_variables: StringMap,
    pub scripts: StringMap,
    pub ai_settings: AISettings,
    pub description: Option<String>,
    pub status: EnvironmentStatus,
    pub created_at: u64,
    pub updated_at: u64,
    pub last_activated: Option<u64>,
}

impl Environment {
    /// Store a configuration as a fresh, inactive environment.
    pub fn from_config(config: EnvironmentConfig) -> (r: Self)
        ensures
            r.id@.len() == 36,
            r.name == config.name,
            r.path == config.path,
            r.project_type == config.project_type,
            r.dependencies == config.dependencies,
            r.environment_variables@ == config.environment_variables@,
            r.scripts@ == config.scripts@,
            r.description == config.description,
            r.status == EnvironmentStatus::Inactive,
            r.created_at == r.updated_at,
            r.last_activated is None,
    {
        let now = now_ts();
        Environment {
            id: fresh_id(),
            name: config.name,
            path: config.path,
            project_type: config.project_type,
            dependencies: config.dependencies,
            environment_variables: config.environment_variables,
            scripts: config.scripts,
            ai_settings: config.ai_settings,
            description: config.description,
            status: EnvironmentStatus::Inactive,
            created_at: now,
            updated_at: now,
            last_activated: None,
        }
    }

    /// Replace the stored configuration, keeping identity, status and
    /// history.
    pub fn update_from_config(&mut self, config: EnvironmentConfig)
        ensures
            final(self).id == old(self).id,
            final(self).name == config.name,
            final(self).path == config.path,
            final(self).project_type == config.project_type,
            final(self).dependencies == config.dependencies,
            final(self).environment_variables@ == config.environment_variables@,
            final(self).scripts@ == config.scripts@,
            final(self).description == config.description,
            final(self).status == old(self).status,
            final(self).created_at == old(self).created_at,
            final(self).last_activated == old(self).last_activated,
    {
        self.name = config.name;
        self.path = config.path;
        self.project_type = config.project_type;
        self.dependencies = config.dependencies;
        self.environment_variables = config.environment_variables;
        self.scripts = config.scripts;
        self.ai_settings = config.ai_settings;
        self.description = config.description;
        self.updated_at = now_ts();
    }

    /// Mark the environment active, now.
    pub fn activate(&mut self)
        ensures
            final(self).status == EnvironmentStatus::Active,
            final(self).last_activated is Some,
            final(self).id == old(self).id,
            final(self).name == old(self).name,
            final(self).dependencies == old(self).dependencies,
    {
        self.status = EnvironmentStatus::Active;
        self.last_activated = Some(now_ts());
        self.updated_at = now_ts();
    }

    /// Mark the environment inactive.
    pub fn deactivate(&mut self)
        ensures
            final(self).status == EnvironmentStatus::Inactive,
            final(self).id == old(self).id,
            final(self).name == old(self).name,
            final(self).last_activated == old(self).last_activated,
            final(self).dependencies == old(self).dependencies,
    {
        self.status = EnvironmentStatus::Inactive;
        self.updated_at = now_ts();
    }

    /// Set the status directly.
    pub fn set_status(&mut self, status: EnvironmentStatus)
        ensures
            final(self).status == status,
            final(self).id == old(self).id,
            final(self).name == old(self).name,
            final(self).last_activated == old(self).last_activated,
            final(self).dependencies == old(self).dependencies,
    {
        self.status = status;
        self.updated_at = now_ts();
    }

    /// Whether the environment is active.
    pub fn is_active(&self) -> (r: bool)
        ensures
            r == (self.status == EnvironmentStatus::Active),
    {
        match self.status {
            EnvironmentStatus::Active => true,
            _ => false,
        }
    }

    /// The first dependency with the given name, if any.
    pub fn get_dependency(&self, name: &String) -> (r: Option<&DependencySpec>)
        ensures
            match r {
                Some(d) => exists|i: int|
                    0 <= i < self.dependencies@.len() && (#[trigger] deps_view(
                        self.dependencies@,
                    )[i]).name == name@ && d@ == deps_view(self.dependencies@)[i],
                None => forall|i: int|
                    0 <= i < self.dependencies@.len() ==> (#[trigger] deps_view(
                        self.dependencies@,
                    )[i]).name != name@,
            },
    {
        let mut i: usize = 0;
        while i < self.dependencies.len()
            invariant
                i <= self.dependencies@.len(),
                forall|j: int|
                    0 <= j < i ==> (#[trigger] deps_view(self.dependencies@)[j]).name != name@,
            decreases self.dependencies@.len() - i,
        {
            if str_eq(&self.dependencies[i].name, name) {
                assert(deps_view(self.dependencies@)[i as int].name == name@);
                return Some(&self.dependencies[i]);
            }
            assert(deps_view(self.dependencies@)[i as int].name != name@);
            i = i + 1;
        }
        None
    }

    /// Whether a dependency with the given name is listed.
    pub fn has_dependency(&self, name: &String) -> (r: bool)
        ensures
            r == exists|i: int|
                0 <= i < self.dependencies@.len() && (#[trigger] deps_view(
                    self.dependencies@,
                )[i]).name == name@,
    {
        match self.get_dependency(name) {
            Some(_) => true,
            None => false,
        }
    }

    /// The named script, if any.
    pub fn get_script(&self, name: &String) -> (r: Option<&String>)
        ensures
            match r {
                Some(c) => kv_get(self.scripts@, name@) == Some(c@),
                None => !kv_has(self.scripts@, name@),
            },
    {
        self.scripts.get(name)
    }

    /// The named environment variable, if any.
    pub fn get_environment_variable(&self, key: &String) -> (r: Option<&String>)
        ensures
            match r {
                Some(v) => kv_get(self.environment_variables@, key@) == Some(v@),
                None => !kv_has(self.environment_variables@, key@),
            },
    {
        self.environment_variables.get(key)
    }

    /// Check the listed dependencies: a required dependency without a
    /// pinned version earns a warning.  Path existence is the
    /// caller's check, which has the file system.
    pub fn validate_dependencies(&self) -> (r: ValidationResult)
        ensures
            r.is_valid,
            r.missing_dependencies@.len() == 0,
            r.invalid_paths@.len() == 0,
            r.errors@.len() == 0,
            r.warnings@.len() == deps_view(self.dependencies@).filter(
                dep_unpinned_required(),
            ).len(),
    {
        let mut warnings: Vec<String> = Vec::new();
        let mut i: usize = 0;
        proof {
            assert(deps_view(self.dependencies@.subrange(0, 0)) =~= Seq::<DepModel>::empty());
            assert(deps_view(self.dependencies@.subrange(0, 0)).filter(dep_unpinned_required())
                =~= Seq::<DepModel>::empty());
        }
        while i < self.dependencies.len()
            invariant
                i <= self.dependencies@.len(),
                warnings@.len() == deps_view(self.dependencies@.subrange(0, i as int)).filter(
                    dep_unpinned_required(),
                ).len(),
            decreases self.dependencies@.len() - i,
        {
            proof {
                let prefix = deps_view(self.dependencies@.subrange(0, i as int));
                let e = self.dependencies@[i as int]@;
                assert(deps_view(self.dependencies@.subrange(0, i as int + 1)) =~= prefix.push(e));
                prefix.lemma_filter_push(e, dep_unpinned_required());
            }
            let dep = &self.dependencies[i];
            if dep.required && dep.version.is_none() {
                warnings.push(
                    String::from_str("Required dependency '").concat(dep.name.as_str()).concat(
                        "' has no version specified",
                    ),
                );
            }
            i = i + 1;
        }
        proof {
            assert(self.dependencies@.subrange(0, self.dependencies@.len() as int)
                =~= self.dependencies@);
        }
        ValidationResult {
            is_valid: true,
            missing_dependencies: Vec::new(),
            invalid_paths: Vec::new(),
            warnings,
            errors: Vec::new(),
        }
    }
}

/// The predicate "required but without a pinned version".
pub open spec fn dep_unpinned_required() -> spec_fn(DepModel) -> bool {
    |d: DepModel| d.required && d.version is None
}

} // verus!

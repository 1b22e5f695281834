use vstd::prelude::*;

verus! {

/// How strictly Turborepo passes environment variables to tasks.
pub enum TurboEnvMode {
    Loose,
    Strict,
}

/// How much of a task's output Turborepo shows.
pub enum TurboOutputMode {
    Full,
    HashOnly,
    NewOnly,
    ErrorsOnly,
    Silent,
}

/// The terminal interface of Turborepo.
pub enum TurboUi {
    Stream,
    Tui,
}

/// A task of a Turborepo pipeline.
pub struct TurboTask {
    pub cache: Option<bool>,
    pub depends_on: Option<Vec<String>>,
    pub env: Option<Vec<String>>,
    pub inputs: Option<Vec<String>>,
    pub outputs: Option<Vec<String>>,
    pub pass_through_env: Option<Vec<String>>,
    pub persistent: Option<bool>,
    pub interactive: Option<bool>,
    pub output_logs: Option<TurboOutputMode>,
    pub dot_env: Option<Vec<String>>,
    pub output_mode: Option<TurboOutputMode>,
}

/// A `turbo.json` file: its global settings and its pipeline of tasks, in
/// the order in which they were read.
pub struct TurboJson {
    pub extends: Option<Vec<String>>,
    pub global_dependencies: Option<Vec<String>>,
    pub global_env: Option<Vec<String>>,
    pub global_pass_through_env: Option<Vec<String>>,
    pub cache_dir: Option<String>,
    pub daemon: Option<bool>,
    pub dangerously_disable_package_manager_check: Option<bool>,
    pub env_mode: Option<TurboEnvMode>,
    pub tasks: Option<Vec<(String, TurboTask)>>,
    pub ui: Option<TurboUi>,
    pub global_dot_env: Option<Vec<String>>,
    pub pipeline: Option<Vec<(String, TurboTask)>>,
}

/// The name of a `package.json`.
pub struct PackageJson {
    pub name: Option<String>,
}

/// A project of the workspace: its identifier, its package name, and its
/// directory relative to the workspace root.
pub struct Project {
    pub alias: Option<String>,
    pub id: String,
    pub source: String,
}

/// The projects of the workspace.
pub struct ProjectGraph {
    pub projects: Vec<Project>,
}

} // verus!

use vstd::prelude::*;

use crate::json::JsonValue;

verus! {

/// One string or a list of strings.
pub enum StringOrList {
    List(Vec<String>),
    String(String),
}

/// A dependency of an Nx target on other tasks.
pub enum NxDependsOn {
    /// The structured form: a task, with projects or a transitive flag.
    Object {
        dependencies: Option<bool>,
        target: String,
        params: Option<String>,
        projects: Option<StringOrList>,
    },
    /// A task name, `^`-prefixed for the dependencies' task.
    String(String),
}

/// An input of an Nx target or named input group.
pub enum NxInput {
    Dep { dependencies: Option<bool>, projects: Option<StringOrList>, input: String },
    DepOutput { dependent_tasks_output_files: String, transitive: Option<bool> },
    External { external_dependencies: Vec<String> },
    Env { env: String },
    /// A file path or glob.
    Fileset { fileset: String },
    /// A command line whose output is hashed.
    Runtime { runtime: String },
    /// A path, a glob or the name of an input group.
    Source(String),
}

/// Named groups of inputs, in the order in which they were read.
pub type NxNamedInputs = Vec<(String, Vec<NxInput>)>;

/// The `affected` settings of `nx.json`.
pub struct NxAffected {
    pub default_base: Option<String>,
}

/// An Nx target, or the defaults of the targets of one name.
pub struct NxTargetOptions {
    pub cache: Option<bool>,
    pub command: Option<String>,
    pub configurations: Option<Vec<(String, Vec<(String, JsonValue)>)>>,
    pub depends_on: Option<Vec<NxDependsOn>>,
    pub default_configuration: Option<String>,
    pub executor: Option<String>,
    pub inputs: Option<Vec<NxInput>>,
    pub options: Option<Vec<(String, JsonValue)>>,
    pub outputs: Option<Vec<String>>,
}

/// Where applications and libraries live.
pub struct NxWorkspaceLayout {
    pub apps_dir: Option<String>,
    pub libs_dir: Option<String>,
}

/// The fields of `nx.json` that have a moon counterpart.
pub struct NxJson {
    pub affected: Option<NxAffected>,
    pub default_base: Option<String>,
    pub named_inputs: Option<NxNamedInputs>,
    pub target_defaults: Option<Vec<(String, NxTargetOptions)>>,
    pub workspace_layout: Option<NxWorkspaceLayout>,
}

/// The project registry of `workspace.json`: identifiers and directories.
pub struct NxWorkspaceJson {
    pub projects: Vec<(String, String)>,
}

/// The fields of `project.json` that have a moon counterpart.
pub struct NxProjectJson {
    pub implicit_dependencies: Option<Vec<String>>,
    pub name: Option<String>,
    pub named_inputs: Option<NxNamedInputs>,
    pub project_type: Option<String>,
    pub tags: Option<Vec<String>>,
    pub targets: Option<Vec<(String, NxTargetOptions)>>,
}

/// A `package.json` that may hold a project's Nx settings.
pub struct PackageJsonWithNx {
    pub nx: Option<NxProjectJson>,
}

} // verus!

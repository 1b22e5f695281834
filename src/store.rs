use vstd::prelude::*;

use crate::config::{
    first_key_at, has_key, keys_unique, lookup, InheritedTasksConfig, LanguageType, PlatformType,
    ProjectConfig, WorkspaceConfig,
};
use crate::text::same_text;

verus! {

/// What the disk held for a project before the run: its moon document, if
/// any, and whether its directory holds a `tsconfig.json`.
pub struct ProjectOnDisk {
    pub config: Option<ProjectConfig>,
    pub has_tsconfig: bool,
}

/// The documents of one run, created on first access: one per project
/// directory, one per inherited-tasks scope, and the workspace's. A document
/// starts as what the disk held, or as a default when the disk held none.
pub struct Migrator {
    pub platform: PlatformType,
    pub project_configs: Vec<(String, ProjectConfig)>,
    pub tasks_configs: Vec<(String, InheritedTasksConfig)>,
    pub workspace_config: Option<WorkspaceConfig>,
    pub disk_projects: Vec<(String, ProjectOnDisk)>,
    pub disk_tasks: Vec<(String, InheritedTasksConfig)>,
    pub disk_workspace: Option<WorkspaceConfig>,
}

/// A new project's document: its language, by whether it has a TypeScript
/// config, and the platform.
pub open spec fn project_skeleton(has_tsconfig: bool, platform: PlatformType) -> ProjectConfig {
    ProjectConfig {
        id: None,
        language: Some(
            if has_tsconfig {
                LanguageType::TypeScript
            } else {
                LanguageType::JavaScript
            },
        ),
        platform: Some(platform),
        depends_on: None,
        file_groups: None,
        tags: None,
        type_of: None,
        tasks: None,
    }
}

/// The document that a project starts from: what the disk held, or a default.
pub open spec fn initial_project(m: Migrator, source: Seq<char>) -> ProjectConfig {
    match lookup(m.disk_projects@, source) {
        Some(d) => match d.config {
            Some(c) => c,
            None => project_skeleton(d.has_tsconfig, m.platform),
        },
        None => project_skeleton(false, m.platform),
    }
}

/// The inherited tasks document that a scope starts from.
pub open spec fn initial_tasks(m: Migrator, scope: Seq<char>) -> InheritedTasksConfig {
    match lookup(m.disk_tasks@, scope) {
        Some(c) => c,
        None => InheritedTasksConfig { file_groups: None, implicit_inputs: None, tasks: None },
    }
}

/// The scope of the inherited tasks of a platform.
pub open spec fn platform_scope(p: PlatformType) -> Seq<char> {
    match p {
        PlatformType::Node => "node"@,
        PlatformType::Bun => "bun"@,
        PlatformType::System => "system"@,
    }
}

/// Where `entries` hold `k`, `after` holds the same entries; else `after`
/// holds them and one more for `k` at the end, whose value is `fresh`.
pub open spec fn loaded<V>(
    before: Seq<(String, V)>,
    after: Seq<(String, V)>,
    k: Seq<char>,
    fresh: V,
    i: int,
) -> bool {
    &&& first_key_at(after, k, i)
    &&& (has_key(before, k) ==> after == before)
    &&& (!has_key(before, k) ==> after == before.push((after[i].0, fresh)) && i == before.len())
}

/// The index of `k` in `entries`, if they hold it.
fn find_key<V>(entries: &Vec<(String, V)>, k: &str) -> (r: Option<usize>)
    ensures
        r matches Some(i) ==> first_key_at(entries@, k@, i as int),
        r is None ==> !has_key(entries@, k@),
{
    let mut i: usize = 0;
    while i < entries.len()
        invariant
            i <= entries@.len(),
            forall|j: int| 0 <= j < i ==> entries@[j].0@ != k@,
        decreases entries@.len() - i,
    {
        if same_text(entries[i].0.as_str(), k) {
            return Some(i);
        }
        i = i + 1;
    }
    None
}

pub proof fn lemma_lookup_at<V>(entries: Seq<(String, V)>, k: Seq<char>, i: int)
    requires
        first_key_at(entries, k, i),
    ensures
        lookup(entries, k) == Some(entries[i].1),
{
    let j = choose|j: int| first_key_at(entries, k, j);
    assert(first_key_at(entries, k, j));
    if j < i {
        assert(entries[j].0@ != k);
    }
    if j > i {
        assert(entries[i].0@ != k);
    }
}

/// Replacing the document at the first index of its key keeps the keys
/// distinct and makes it the key's document.
pub proof fn lemma_replace_at<V>(before: Seq<(String, V)>, i: int, key: String, doc: V)
    requires
        0 <= i < before.len(),
        keys_unique(before),
        key@ == before[i].0@,
    ensures
        keys_unique(before.update(i, (key, doc))),
        first_key_at(before.update(i, (key, doc)), key@, i),
        lookup(before.update(i, (key, doc)), key@) == Some(doc),
{
    let after = before.update(i, (key, doc));
    assert(first_key_at(after, key@, i));
    lemma_lookup_at(after, key@, i);
}

/// The inherited tasks document of the run's platform, as it stands in `m` or
/// as it would be created.
pub open spec fn platform_tasks_doc(m: Migrator) -> InheritedTasksConfig {
    match lookup(m.tasks_configs@, platform_scope(m.platform)) {
        Some(d) => d,
        None => initial_tasks(m, platform_scope(m.platform)),
    }
}

/// The workspace document, as it stands in `m` or as it would be created.
pub open spec fn workspace_doc(m: Migrator) -> WorkspaceConfig {
    match m.workspace_config {
        Some(w) => w,
        None => match m.disk_workspace {
            Some(w) => w,
            None => WorkspaceConfig { projects: None, vcs_default_branch: None },
        },
    }
}

/// The document of the project in `source`, as it stands in `m` or as it
/// would be created.
pub open spec fn project_doc(m: Migrator, source: Seq<char>) -> ProjectConfig {
    match lookup(m.project_configs@, source) {
        Some(d) => d,
        None => initial_project(m, source),
    }
}

/// A key that the entries do not hold has no value.
pub proof fn lemma_lookup_absent<V>(s: Seq<(String, V)>, k: Seq<char>)
    requires
        !has_key(s, k),
    ensures
        lookup(s, k) is None,
{
}

/// Adding an entry at the end keeps the value of every key already there.
pub proof fn lemma_lookup_push<V>(s: Seq<(String, V)>, x: (String, V), k: Seq<char>)
    requires
        has_key(s, k),
    ensures
        lookup(s.push(x), k) == lookup(s, k),
{
    crate::config::lemma_first_key_exists(s, k);
    let j = choose|j: int| first_key_at(s, k, j);
    assert(first_key_at(s.push(x), k, j));
    lemma_lookup_at(s, k, j);
    lemma_lookup_at(s.push(x), k, j);
}

/// Replacing an entry keeps the value of every other key.
pub proof fn lemma_lookup_update<V>(s: Seq<(String, V)>, i: int, x: (String, V), k: Seq<char>)
    requires
        0 <= i < s.len(),
        x.0@ == s[i].0@,
        k != s[i].0@,
        has_key(s, k),
    ensures
        lookup(s.update(i, x), k) == lookup(s, k),
{
    crate::config::lemma_first_key_exists(s, k);
    let j = choose|j: int| first_key_at(s, k, j);
    assert(j != i);
    assert(first_key_at(s.update(i, x), k, j));
    lemma_lookup_at(s, k, j);
    lemma_lookup_at(s.update(i, x), k, j);
}

impl Migrator {
    /// Whether the documents are kept under distinct keys.
    pub open spec fn wf(&self) -> bool {
        keys_unique(self.project_configs@) && keys_unique(self.tasks_configs@)
    }

    /// A run on `platform` with no document yet.
    pub fn new(platform: PlatformType) -> (r: Migrator)
        ensures
            r.wf(),
            r.platform == platform,
            r.project_configs@.len() == 0,
            r.tasks_configs@.len() == 0,
            r.workspace_config is None,
            r.disk_projects@.len() == 0,
            r.disk_tasks@.len() == 0,
            r.disk_workspace is None,
    {
        Migrator {
            platform,
            project_configs: Vec::new(),
            tasks_configs: Vec::new(),
            workspace_config: None,
            disk_projects: Vec::new(),
            disk_tasks: Vec::new(),
            disk_workspace: None,
        }
    }

    /// Records what the disk holds for the project in `source`.
    pub fn provide_project(&mut self, source: String, on_disk: ProjectOnDisk)
        ensures
            final(self).disk_projects@ == old(self).disk_projects@.push((source, on_disk)),
            final(self).project_configs == old(self).project_configs,
            final(self).tasks_configs == old(self).tasks_configs,
            final(self).workspace_config == old(self).workspace_config,
            final(self).disk_tasks == old(self).disk_tasks,
            final(self).disk_workspace == old(self).disk_workspace,
            final(self).platform == old(self).platform,
    {
        self.disk_projects.push((source, on_disk));
    }

    /// Records what the disk holds for the inherited tasks of `scope`.
    pub fn provide_tasks(&mut self, scope: String, config: InheritedTasksConfig)
        ensures
            final(self).disk_tasks@ == old(self).disk_tasks@.push((scope, config)),
            final(self).project_configs == old(self).project_configs,
            final(self).tasks_configs == old(self).tasks_configs,
            final(self).workspace_config == old(self).workspace_config,
            final(self).disk_projects == old(self).disk_projects,
            final(self).disk_workspace == old(self).disk_workspace,
            final(self).platform == old(self).platform,
    {
        self.disk_tasks.push((scope, config));
    }

    /// Records what the disk holds for the workspace.
    pub fn provide_workspace(&mut self, config: WorkspaceConfig)
        ensures
            final(self).disk_workspace == Some(config),
            final(self).project_configs == old(self).project_configs,
            final(self).tasks_configs == old(self).tasks_configs,
            final(self).workspace_config == old(self).workspace_config,
            final(self).disk_projects == old(self).disk_projects,
            final(self).disk_tasks == old(self).disk_tasks,
            final(self).platform == old(self).platform,
    {
        self.disk_workspace = Some(config);
    }

    /// The index of the document of the project in `source`, created from
    /// what the disk held when this run has not touched it yet.
    pub fn load_project_config(&mut self, project_source: &str) -> (i: usize)
        requires
            old(self).wf(),
        ensures
            final(self).wf(),
            loaded(
                old(self).project_configs@,
                final(self).project_configs@,
                project_source@,
                initial_project(*old(self), project_source@),
                i as int,
            ),
            final(self).tasks_configs == old(self).tasks_configs,
            final(self).workspace_config == old(self).workspace_config,
            final(self).disk_tasks == old(self).disk_tasks,
            final(self).disk_workspace == old(self).disk_workspace,
            final(self).platform == old(self).platform,
    {
        if let Some(i) = find_key(&self.project_configs, project_source) {
            return i;
        }
        let config = match find_key(&self.disk_projects, project_source) {
            Some(d) => {
                proof {
                    lemma_lookup_at(self.disk_projects@, project_source@, d as int);
                }
                let (_, on_disk) = self.disk_projects.remove(d);
                match on_disk.config {
                    Some(c) => c,
                    None => {
                        let mut c = ProjectConfig::new();
                        c.language = Some(
                            if on_disk.has_tsconfig {
                                LanguageType::TypeScript
                            } else {
                                LanguageType::JavaScript
                            },
                        );
                        c.platform = Some(self.platform);
                        c
                    },
                }
            },
            None => {
                let mut c = ProjectConfig::new();
                c.language = Some(LanguageType::JavaScript);
                c.platform = Some(self.platform);
                c
            },
        };
        let i = self.project_configs.len();
        self.project_configs.push((String::from_str(project_source), config));
        proof {
            assert(self.project_configs@[i as int].0@ == project_source@);
        }
        i
    }

    /// The index of the inherited tasks document of `scope`, created from
    /// what the disk held when this run has not touched it yet.
    pub fn load_tasks_config(&mut self, scope: &str) -> (i: usize)
        requires
            old(self).wf(),
        ensures
            final(self).wf(),
            loaded(
                old(self).tasks_configs@,
                final(self).tasks_configs@,
                scope@,
                initial_tasks(*old(self), scope@),
                i as int,
            ),
            final(self).project_configs == old(self).project_configs,
            final(self).workspace_config == old(self).workspace_config,
            final(self).disk_projects == old(self).disk_projects,
            final(self).disk_workspace == old(self).disk_workspace,
            final(self).platform == old(self).platform,
    {
        if let Some(i) = find_key(&self.tasks_configs, scope) {
            return i;
        }
        let config = match find_key(&self.disk_tasks, scope) {
            Some(d) => {
                proof {
                    lemma_lookup_at(self.disk_tasks@, scope@, d as int);
                }
                let (_, c) = self.disk_tasks.remove(d);
                c
            },
            None => InheritedTasksConfig::new(),
        };
        let i = self.tasks_configs.len();
        self.tasks_configs.push((String::from_str(scope), config));
        i
    }

    /// The index of the inherited tasks document of the run's platform.
    pub fn load_tasks_platform_config(&mut self) -> (i: usize)
        requires
            old(self).wf(),
        ensures
            final(self).wf(),
            loaded(
                old(self).tasks_configs@,
                final(self).tasks_configs@,
                platform_scope(old(self).platform),
                initial_tasks(*old(self), platform_scope(old(self).platform)),
                i as int,
            ),
            final(self).project_configs == old(self).project_configs,
            final(self).workspace_config == old(self).workspace_config,
            final(self).disk_projects == old(self).disk_projects,
            final(self).disk_workspace == old(self).disk_workspace,
            final(self).platform == old(self).platform,
    {
        let scope = match self.platform {
            PlatformType::Node => "node",
            PlatformType::Bun => "bun",
            PlatformType::System => "system",
        };
        self.load_tasks_config(scope)
    }

    /// Makes sure the workspace document is loaded: from what the disk held,
    /// or empty.
    pub fn load_workspace_config(&mut self)
        ensures
            final(self).workspace_config is Some,
            old(self).workspace_config is Some ==> final(self).workspace_config == old(
                self,
            ).workspace_config,
            old(self).workspace_config is None ==> final(self).workspace_config == (match old(
                self,
            ).disk_workspace {
                Some(w) => Some(w),
                None => Some(WorkspaceConfig { projects: None, vcs_default_branch: None }),
            }),
            final(self).project_configs == old(self).project_configs,
            final(self).tasks_configs == old(self).tasks_configs,
            final(self).disk_projects == old(self).disk_projects,
            final(self).disk_tasks == old(self).disk_tasks,
            final(self).platform == old(self).platform,
    {
        if self.workspace_config.is_none() {
            let config = match self.disk_workspace.take() {
                Some(w) => w,
                None => WorkspaceConfig::new(),
            };
            self.workspace_config = Some(config);
        }
    }
}

/// The package manager of a workspace: bun when asked for or locked, else
/// the one whose lockfile is there, else npm.
pub open spec fn package_manager_of(bun: bool, bun_lock: bool, pnpm_lock: bool, yarn_lock: bool) -> Seq<
    char,
> {
    if bun || bun_lock {
        "bun"@
    } else if pnpm_lock {
        "pnpm"@
    } else if yarn_lock {
        "yarn"@
    } else {
        "npm"@
    }
}

/// The package manager of a workspace, from the `--bun` flag and the
/// lockfiles that its root holds.
pub fn detect_package_manager(bun: bool, bun_lock: bool, pnpm_lock: bool, yarn_lock: bool) -> (r:
    String)
    ensures
        r@ == package_manager_of(bun, bun_lock, pnpm_lock, yarn_lock),
{
    if bun || bun_lock {
        String::from_str("bun")
    } else if pnpm_lock {
        String::from_str("pnpm")
    } else if yarn_lock {
        String::from_str("yarn")
    } else {
        String::from_str("npm")
    }
}

} // verus!

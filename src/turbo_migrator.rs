use vstd::prelude::*;

use crate::config::{
    input_views, non_empty, opt_input_views, opt_output_views, EnvFile, InputPath, InputView,
    OutputStyle, TaskConfig, TaskOptions,
};
use crate::error::MigrateError;
use crate::nx_json::NxDependsOn;
use crate::nx_task::{dep_env, dep_ok, dep_targets, opt_target_views, target_views};
use crate::paths::{migrate_outputs, output_ok, outputs_of, path_input, path_input_of};
use crate::config::{has_key, lookup, PlatformType, Table};
use crate::store::{
    detect_package_manager, lemma_lookup_at, lemma_lookup_push, lemma_lookup_update,
    lemma_lookup_absent, lemma_replace_at, package_manager_of, platform_scope,
    platform_tasks_doc, workspace_doc,
    Migrator,
};
use crate::config::WorkspaceProjects;
use crate::nx_migrator::{default_globs, project_globs};
use crate::text::views;
use crate::target::{target_of_text, ScopeView, Target, TargetView};
use crate::text::{
    after_first, before_first, concat, contains_char, file_name_of, has_char, has_prefix,
    parent_of, same_text, split_first, split_path, starts_with, tail,
};
use crate::tokens::rewrite;
use crate::turbo_json::{Project, ProjectGraph, TurboJson, TurboOutputMode, TurboTask};
use crate::validate::{create_id, file_path_is_valid, valid_file_path, valid_id, valid_input, valid_target};

verus! {

/// Migrates a Turborepo workspace: the root `turbo.json` and each project's,
/// into moon documents.
pub struct TurboMigrator {
    pub inner: Migrator,
    pub package_manager: String,
    pub package_globs: Vec<String>,
    pub packages: Vec<Project>,
    /// Whether the projects come from the host's project graph, rather than
    /// from the workspace's `package.json` files.
    pub registry_from_graph: bool,
}

/// Whether project `p` has the package name `name`.
pub open spec fn has_alias(p: Project, name: Seq<char>) -> bool {
    match p.alias {
        Some(a) => a@ == name,
        None => false,
    }
}

/// Whether `f` is an env file setting that names the file `name`.
pub open spec fn names_env_file(f: Option<EnvFile>, name: Seq<char>) -> bool {
    match f {
        Some(EnvFile::File(x)) => x@ == name,
        _ => false,
    }
}

/// Whether `f` is the env file setting that `dot_env` asks for: the file
/// when it lists one, else the setting turned on.
pub open spec fn env_file_match(f: Option<EnvFile>, dot_env: Option<Vec<String>>) -> bool {
    match dot_env {
        None => f is None,
        Some(d) => if d@.len() == 1 {
            names_env_file(f, d@[0]@)
        } else {
            f == Some(EnvFile::Enabled(true))
        },
    }
}

/// Whether project `k` of `ps` is the one that `name` refers to: the first
/// with that identifier, or, when none has it, the first with that package
/// name.
pub open spec fn resolves_to(ps: Seq<Project>, name: Seq<char>, k: int) -> bool {
    &&& 0 <= k < ps.len()
    &&& {
        ||| (ps[k].id@ == name && forall|j: int| 0 <= j < k ==> ps[j].id@ != name)
        ||| ((forall|j: int| 0 <= j < ps.len() ==> ps[j].id@ != name) && has_alias(ps[k], name)
            && forall|j: int| 0 <= j < k ==> !has_alias(ps[j], name))
    }
}

/// Whether some project of `ps` has `name` as identifier or package name.
pub open spec fn is_registered(ps: Seq<Project>, name: Seq<char>) -> bool {
    exists|j: int|
        0 <= j < ps.len() && (ps[j].id@ == name || has_alias(ps[j], name))
}

/// The project of `ps` that `name` refers to.
pub open spec fn resolved(ps: Seq<Project>, name: Seq<char>) -> Project {
    ps[choose|k: int| resolves_to(ps, name, k)]
}

/// Whether the text before a dependency's colon names a project, rather
/// than one of moon's own scopes (`~`, a tag, or none).
pub open spec fn scoped_part(p: Seq<char>) -> bool {
    p.len() > 0 && p != "~"@ && p[0] != '#'
}

/// Whether the dependency `dep` names a project: `project#task`, or
/// `project:task`.
pub open spec fn names_project(dep: Seq<char>) -> bool {
    has_char(dep, '#') || (has_char(dep, ':') && scoped_part(before_first(dep, ':')))
}

/// The separator between the project and the task of a dependency.
pub open spec fn dep_sep(dep: Seq<char>) -> char {
    if has_char(dep, '#') {
        '#'
    } else {
        ':'
    }
}

/// The separator of the dependency `dep` when it names a project.
fn project_separator(dep: &str) -> (r: Option<char>)
    ensures
        r == (if names_project(dep@) {
            Some(dep_sep(dep@))
        } else {
            None::<char>
        }),
{
    if contains_char(dep, '#') {
        return Some('#');
    }
    if contains_char(dep, ':') {
        let (head, _) = split_first(dep, ':');
        proof {
            reveal_strlit("~");
        }
        if head.as_str().unicode_len() > 0 && !same_text(head.as_str(), "~") && head.as_str().get_char(
            0,
        ) != '#' {
            return Some(':');
        }
    }
    None
}

/// Whether the dependency `dep` can be resolved: its project is registered
/// and its target is valid.
pub open spec fn turbo_dep_ok(ps: Seq<Project>, dep: Seq<char>) -> bool {
    if starts_with(dep, "$"@) {
        true
    } else if starts_with(dep, "^"@) {
        valid_target("^:"@ + dep.subrange(1, dep.len() as int))
    } else if names_project(dep) {
        let package = before_first(dep, dep_sep(dep));
        let script = after_first(dep, dep_sep(dep));
        is_registered(ps, package) && valid_id(script) && valid_target(
            resolved(ps, package).id@ + ":"@ + script,
        )
    } else {
        valid_target(dep)
    }
}

/// The targets that the dependency `dep` names.
pub open spec fn turbo_dep_targets(ps: Seq<Project>, dep: Seq<char>) -> Seq<TargetView> {
    if starts_with(dep, "$"@) {
        Seq::empty()
    } else if starts_with(dep, "^"@) {
        seq![TargetView { scope: ScopeView::Deps, task: dep.subrange(1, dep.len() as int) }]
    } else if names_project(dep) {
        seq![
            target_of_text(
                resolved(ps, before_first(dep, dep_sep(dep))).id@ + ":"@ + after_first(
                    dep,
                    dep_sep(dep),
                ),
            ),
        ]
    } else {
        seq![target_of_text(dep)]
    }
}

/// The environment variable inputs that the dependency `dep` stands for.
pub open spec fn turbo_dep_env(dep: Seq<char>) -> Seq<InputView> {
    if starts_with(dep, "$"@) {
        seq![InputView::EnvVar(dep.subrange(1, dep.len() as int))]
    } else {
        Seq::empty()
    }
}

/// The targets that the dependencies `ds` name, in their order.
pub open spec fn turbo_deps_targets(ps: Seq<Project>, ds: Seq<String>) -> Seq<TargetView>
    decreases ds.len(),
{
    if ds.len() == 0 {
        Seq::empty()
    } else {
        turbo_deps_targets(ps, ds.subrange(0, ds.len() - 1)) + turbo_dep_targets(
            ps,
            ds[ds.len() - 1]@,
        )
    }
}

/// The environment variable inputs that the dependencies `ds` stand for.
pub open spec fn turbo_deps_env(ds: Seq<String>) -> Seq<InputView>
    decreases ds.len(),
{
    if ds.len() == 0 {
        Seq::empty()
    } else {
        turbo_deps_env(ds.subrange(0, ds.len() - 1)) + turbo_dep_env(ds[ds.len() - 1]@)
    }
}

/// Whether `s` is the name of an environment variable: upper-case letters,
/// digits and underscores.
pub open spec fn is_env_var_name(s: Seq<char>) -> bool {
    &&& s.len() > 0
    &&& forall|i: int|
        0 <= i < s.len() ==> ('A' <= s[i] <= 'Z' || '0' <= s[i] <= '9' || s[i] == '_')
}

/// Whether the declared input `s` names an environment variable: `$NAME`.
pub open spec fn is_env_input(s: Seq<char>) -> bool {
    starts_with(s, "$"@) && is_env_var_name(s.subrange(1, s.len() as int))
}

/// The input that a task's declared input `s` becomes: an environment
/// variable for `$NAME`, else a path.
pub open spec fn turbo_input_of(s: Seq<char>) -> InputView {
    if is_env_input(s) {
        InputView::EnvVar(s.subrange(1, s.len() as int))
    } else {
        path_input_of(s)
    }
}

/// Whether moon accepts what the declared input `s` becomes.
pub open spec fn turbo_input_ok(s: Seq<char>) -> bool {
    s == "$TURBO_DEFAULT$"@ || is_env_input(s) || valid_input(rewrite(s, true))
}

/// The input that the declared input `s` becomes, when moon accepts it.
fn turbo_input(s: &str) -> (r: Result<InputPath, MigrateError>)
    ensures
        r is Ok <==> is_env_input(s@) || valid_input(rewrite(s@, true)),
        r matches Ok(i) ==> i@ == turbo_input_of(s@),
        r matches Err(e) ==> e is InvalidInput,
{
    proof {
        reveal_strlit("$");
    }
    if has_prefix(s, "$") {
        let name = tail(s, 1);
        let n = name.as_str().unicode_len();
        let mut i: usize = 0;
        let mut all = n > 0;
        while i < n
            invariant
                n == name@.len(),
                i <= n,
                all == (n > 0 && forall|j: int|
                    0 <= j < i ==> ('A' <= name@[j] <= 'Z' || '0' <= name@[j] <= '9' || name@[j]
                        == '_')),
            decreases n - i,
        {
            let c = name.as_str().get_char(i);
            if !(('A' <= c && c <= 'Z') || ('0' <= c && c <= '9') || c == '_') {
                all = false;
            }
            i = i + 1;
        }
        if all {
            return Ok(InputPath::EnvVar(name));
        }
    }
    path_input(s)
}

/// The inputs that a task's declared inputs become: every one but the
/// `$TURBO_DEFAULT$` marker, an environment variable or a path.
pub open spec fn turbo_inputs_of(raw: Seq<String>) -> Seq<InputView>
    decreases raw.len(),
{
    if raw.len() == 0 {
        Seq::empty()
    } else {
        let last = raw[raw.len() - 1]@;
        turbo_inputs_of(raw.subrange(0, raw.len() - 1)) + if last == "$TURBO_DEFAULT$"@ {
            Seq::empty()
        } else {
            seq![turbo_input_of(last)]
        }
    }
}

/// Whether moon accepts every declared input of a task.
pub open spec fn turbo_inputs_ok(raw: Seq<String>) -> bool {
    forall|k: int| 0 <= k < raw.len() ==> turbo_input_ok(#[trigger] raw[k]@)
}

/// The environment variables of a task, as inputs.
pub open spec fn env_inputs_of(raw: Seq<String>) -> Seq<InputView> {
    raw.map_values(|e: String| InputView::EnvVar(e@))
}

/// The inputs of the task that `t` becomes: the environment variables of its
/// dependencies, its environment variables, then its declared inputs.
pub open spec fn turbo_task_inputs(t: TurboTask) -> Seq<InputView> {
    (match t.depends_on {
        Some(ds) => turbo_deps_env(ds@),
        None => Seq::empty(),
    }) + (match t.env {
        Some(e) => env_inputs_of(e@),
        None => Seq::empty(),
    }) + (match t.inputs {
        Some(i) => turbo_inputs_of(i@),
        None => Seq::empty(),
    })
}

/// The output style that an output mode maps to, if any.
pub open spec fn output_style_of(m: TurboOutputMode) -> Option<OutputStyle> {
    match m {
        TurboOutputMode::HashOnly => Some(OutputStyle::Hash),
        TurboOutputMode::NewOnly => Some(OutputStyle::Buffer),
        TurboOutputMode::ErrorsOnly => Some(OutputStyle::BufferOnlyFailure),
        _ => None,
    }
}

/// The output style of the task that `t` becomes, if any.
pub open spec fn task_output_style(t: TurboTask) -> Option<OutputStyle> {
    match t.output_mode {
        Some(m) => output_style_of(m),
        None => None,
    }
}

/// Whether `t` can be translated against the projects `ps`.
pub open spec fn turbo_task_ok(ps: Seq<Project>, t: TurboTask) -> bool {
    &&& (t.depends_on matches Some(ds) ==> forall|k: int|
        0 <= k < ds@.len() ==> turbo_dep_ok(ps, ds@[k]@))
    &&& (t.inputs matches Some(i) ==> turbo_inputs_ok(i@))
    &&& (t.outputs matches Some(o) ==> forall|k: int| 0 <= k < o@.len() ==> output_ok(o@[k]@))
    &&& (t.dot_env matches Some(d) ==> d@.len() == 1 ==> valid_file_path(d@[0]@))
}

/// Whether `c` is the moon task that `t` becomes, for the package script
/// `script`, against the projects `ps` and the package manager `pm`.
pub open spec fn turbo_task_spec(
    c: TaskConfig,
    ps: Seq<Project>,
    pm: Seq<char>,
    t: TurboTask,
    script: Seq<char>,
) -> bool {
    &&& c.command matches Some(x) && x@ == pm + " run "@ + script
    &&& opt_target_views(c.deps) == (match t.depends_on {
        Some(ds) => non_empty(turbo_deps_targets(ps, ds@)),
        None => None,
    })
    &&& opt_input_views(c.inputs) == non_empty(turbo_task_inputs(t))
    &&& opt_output_views(c.outputs) == (match t.outputs {
        Some(o) => non_empty(outputs_of(o@)),
        None => None,
    })
    &&& turbo_options_match(c.options, t)
    &&& c.local == (if t.persistent == Some(true) {
        Some(true)
    } else {
        None
    })
    &&& c.args is None && c.env is None && c.platform is None && c.extends is None
}

/// Whether the dependency `k` of `ds` is the first that cannot be resolved,
/// and it names a package that no project has.
pub open spec fn unknown_package_at(ps: Seq<Project>, ds: Seq<String>, k: int) -> bool {
    &&& forall|j: int| 0 <= j < k ==> turbo_dep_ok(ps, #[trigger] ds[j]@)
    &&& !starts_with(ds[k]@, "$"@)
    &&& !starts_with(ds[k]@, "^"@)
    &&& names_project(ds[k]@)
    &&& !is_registered(ps, before_first(ds[k]@, dep_sep(ds[k]@)))
}

/// Whether `e` is the error of a reference to the unknown package `name`.
pub open spec fn names_unknown(e: MigrateError, name: Seq<char>) -> bool {
    match e {
        MigrateError::UnknownProject(x) => x@ == name,
        MigrateError::UnknownPackage(x) => x@ == name,
        _ => false,
    }
}

/// Whether an unknown-reference error `e` is the kind of the registry: a
/// project of the host's graph, or a package of the workspace.
pub open spec fn registry_kind(e: MigrateError, from_graph: bool) -> bool {
    &&& (from_graph ==> !(e is UnknownPackage))
    &&& (!from_graph ==> !(e is UnknownProject))
}

/// Whether the error of `r`, if any, is of the kind of the registry.
pub open spec fn err_kind<T>(r: Result<T, MigrateError>, from_graph: bool) -> bool {
    match r {
        Err(e) => registry_kind(e, from_graph),
        Ok(_) => true,
    }
}

/// Whether every dependency of `t` can be resolved.
pub open spec fn turbo_deps_ok(ps: Seq<Project>, t: TurboTask) -> bool {
    t.depends_on matches Some(ds) ==> forall|j: int|
        0 <= j < ds@.len() ==> turbo_dep_ok(ps, #[trigger] ds@[j]@)
}

/// When every dependency resolves, none names an unknown package.
proof fn lemma_no_unknown_package(ps: Seq<Project>, t: TurboTask)
    requires
        turbo_deps_ok(ps, t),
    ensures
        t.depends_on is Some ==> forall|k: int|
            0 <= k < t.depends_on->Some_0@.len() ==> !unknown_package_at(
                ps,
                t.depends_on->Some_0@,
                k,
            ),
{
    if let Some(ds) = t.depends_on {
        assert forall|k: int| 0 <= k < ds@.len() implies !unknown_package_at(ps, ds@, k) by {
            assert(turbo_dep_ok(ps, ds@[k]@));
        }
    }
}

/// Whether `r` is the error of a reference to the unknown package `name`.
pub open spec fn fails_on_unknown<T>(r: Result<T, MigrateError>, name: Seq<char>) -> bool {
    match r {
        Err(e) => names_unknown(e, name),
        Ok(_) => false,
    }
}

/// Whether the task options `o` are what `t` asks for.
pub open spec fn turbo_options_match(o: Option<TaskOptions>, t: TurboTask) -> bool {
    let wanted = t.cache is Some || t.dot_env is Some || task_output_style(t) is Some;
    &&& (wanted <==> o is Some)
    &&& (o matches Some(o) ==> {
        &&& o.cache == t.cache
        &&& o.output_style == task_output_style(t)
        &&& env_file_match(o.env_file, t.dot_env)
    })
}

impl TurboMigrator {
    /// The project that `package_name` refers to: the first with that
    /// identifier, else the first with that package name.
    pub fn find_project_in_packages(&self, package_name: &str) -> (r: Result<
        &Project,
        MigrateError,
    >)
        ensures
            r is Ok <==> is_registered(self.packages@, package_name@),
            r matches Ok(p) ==> exists|k: int|
                resolves_to(self.packages@, package_name@, k) && *p == self.packages@[k],
            r matches Err(e) ==> names_unknown(e, package_name@),
            err_kind(r, self.registry_from_graph),
    {
        let mut i: usize = 0;
        while i < self.packages.len()
            invariant
                i <= self.packages@.len(),
                forall|j: int| 0 <= j < i ==> self.packages@[j].id@ != package_name@,
            decreases self.packages@.len() - i,
        {
            if same_text(self.packages[i].id.as_str(), package_name) {
                return Ok(&self.packages[i]);
            }
            i = i + 1;
        }
        let mut i: usize = 0;
        while i < self.packages.len()
            invariant
                i <= self.packages@.len(),
                forall|j: int| 0 <= j < self.packages@.len() ==> self.packages@[j].id@ != package_name@,
                forall|j: int|
                    0 <= j < i ==> !has_alias(self.packages@[j], package_name@),
            decreases self.packages@.len() - i,
        {
            if let Some(alias) = &self.packages[i].alias {
                if same_text(alias.as_str(), package_name) {
                    return Ok(&self.packages[i]);
                }
            }
            i = i + 1;
        }
        if self.registry_from_graph {
            Err(MigrateError::UnknownProject(String::from_str(package_name)))
        } else {
            Err(MigrateError::UnknownPackage(String::from_str(package_name)))
        }
    }

    /// The project and the task that a `<package>#<task>` script names.
    fn find_project_task_from_script(&self, script: &str, sep: char) -> (r: Result<
        (&Project, String),
        MigrateError,
    >)
        ensures
            r is Ok <==> is_registered(self.packages@, before_first(script@, sep)),
            r matches Ok(p) ==> *p.0 == resolved(self.packages@, before_first(script@, sep))
                && p.1@ == after_first(script@, sep),
            r matches Err(e) ==> names_unknown(e, before_first(script@, sep)),
            err_kind(r, self.registry_from_graph),
    {
        let (package_name, task_id) = split_first(script, sep);
        let project = self.find_project_in_packages(package_name.as_str())?;
        proof {
            let k = choose|k: int| resolves_to(self.packages@, package_name@, k) && *project
                == self.packages@[k];
            let c = choose|c: int| resolves_to(self.packages@, package_name@, c);
            lemma_resolves_unique(self.packages@, package_name@, k, c);
        }
        Ok((project, task_id))
    }

    /// The target of the dependency `dep`, when it names one.
    fn migrate_dep(&self, dep: &str) -> (r: Result<Option<Target>, MigrateError>)
        requires
            !starts_with(dep@, "$"@),
        ensures
            r is Ok <==> turbo_dep_ok(self.packages@, dep@),
            r matches Ok(t) ==> t matches Some(t) && seq![t@] == turbo_dep_targets(
                self.packages@,
                dep@,
            ),
            r matches Err(e) ==> e is UnknownProject || e is UnknownPackage || e is InvalidId
                || e is InvalidTarget,
            err_kind(r, self.registry_from_graph),
            !starts_with(dep@, "^"@) && names_project(dep@) && !is_registered(
                self.packages@,
                before_first(dep@, dep_sep(dep@)),
            ) ==> fails_on_unknown(r, before_first(dep@, dep_sep(dep@))),
    {
        proof {
            reveal_strlit("^");
            reveal_strlit("^:");
            reveal_strlit(":");
        }
        if has_prefix(dep, "^") {
            let rest = tail(dep, 1);
            let text = concat("^:", rest.as_str());
            proof {
                assert(text@ =~= "^"@ + ":"@ + rest@);
                assert(!has_char("^"@, ':'));
                crate::target::lemma_target_of_joined_text("^"@, rest@);
            }
            let t = Target::parse(text.as_str())?;
            return Ok(Some(t));
        }
        if let Some(sep) = project_separator(dep) {
            let (package, script) = self.find_project_task_from_script(dep, sep)?;
            let task_id = create_id(script.as_str())?;
            let text = concat(concat(package.id.as_str(), ":").as_str(), task_id.as_str());
            let t = Target::parse(text.as_str())?;
            return Ok(Some(t));
        }
        let t = Target::parse(dep)?;
        Ok(Some(t))
    }

    /// Translates one Turborepo task into a moon task that runs the package
    /// script through the package manager.
    pub fn migrate_task(&self, turbo_task: &TurboTask, package_script: &str) -> (r: Result<
        TaskConfig,
        MigrateError,
    >)
        ensures
            r is Ok <==> turbo_task_ok(self.packages@, *turbo_task),
            err_kind(r, self.registry_from_graph),
            r matches Ok(c) ==> turbo_task_spec(
                c,
                self.packages@,
                self.package_manager@,
                *turbo_task,
                package_script@,
            ),
            forall|k: int|
                #![trigger turbo_task.depends_on->Some_0@[k]]
                turbo_task.depends_on is Some && 0 <= k < turbo_task.depends_on->Some_0@.len()
                    && unknown_package_at(self.packages@, turbo_task.depends_on->Some_0@, k)
                    ==> fails_on_unknown(
                    r,
                    before_first(
                        turbo_task.depends_on->Some_0@[k]@,
                        dep_sep(turbo_task.depends_on->Some_0@[k]@),
                    ),
                ),
    {
        let mut config = TaskConfig::new();
        let head = concat(self.package_manager.as_str(), " run ");
        config.command = Some(concat(head.as_str(), package_script));
        let mut inputs: Vec<InputPath> = Vec::new();
        proof {
            reveal_strlit("$");
            reveal_strlit("$TURBO_DEFAULT$");
        }
        if let Some(depends_on) = &turbo_task.depends_on {
            let mut deps: Vec<Target> = Vec::new();
            let mut i: usize = 0;
            while i < depends_on.len()
                invariant
                    turbo_task.depends_on == Some(*depends_on),
                    i <= depends_on@.len(),
                    forall|k: int| 0 <= k < i ==> turbo_dep_ok(self.packages@, depends_on@[k]@),
                    target_views(deps@) == turbo_deps_targets(
                        self.packages@,
                        depends_on@.subrange(0, i as int),
                    ),
                    input_views(inputs@) == turbo_deps_env(depends_on@.subrange(0, i as int)),
                decreases depends_on@.len() - i,
            {
                let dep = depends_on[i].as_str();
                let ghost before_deps = deps@;
                let ghost before_inputs = inputs@;
                proof {
                    reveal_strlit("$");
                }
                if has_prefix(dep, "$") {
                    inputs.push(InputPath::EnvVar(tail(dep, 1)));
                } else {
                    match self.migrate_dep(dep) {
                        Ok(Some(t)) => deps.push(t),
                        Ok(None) => {},
                        Err(e) => {
                            proof {
                                assert(!turbo_dep_ok(self.packages@, depends_on@[i as int]@));
                                assert(turbo_task.depends_on->Some_0@[i as int] == depends_on@[i as int]);
                                assert(!turbo_task_ok(self.packages@, *turbo_task));
                                assert forall|k: int|
                                    0 <= k < depends_on@.len() && unknown_package_at(
                                        self.packages@,
                                        depends_on@,
                                        k,
                                    ) implies fails_on_unknown(
                                    Err::<TaskConfig, MigrateError>(e),
                                    before_first(depends_on@[k]@, dep_sep(depends_on@[k]@)),
                                ) by {
                                    if k < i {
                                        assert(turbo_dep_ok(self.packages@, depends_on@[k]@));
                                    } else if k > i {
                                        assert(turbo_dep_ok(self.packages@, depends_on@[i as int]@));
                                    }
                                }
                            }
                            return Err(e);
                        },
                    }
                }
                proof {
                    let next = depends_on@.subrange(0, i + 1);
                    assert(next.subrange(0, i as int) =~= depends_on@.subrange(0, i as int));
                    assert(target_views(deps@) =~= target_views(before_deps) + turbo_dep_targets(
                        self.packages@,
                        depends_on@[i as int]@,
                    ));
                    assert(input_views(inputs@) =~= input_views(before_inputs) + turbo_dep_env(
                        depends_on@[i as int]@,
                    ));
                }
                i = i + 1;
            }
            assert(depends_on@.subrange(0, depends_on@.len() as int) =~= depends_on@);
            if deps.len() > 0 {
                config.deps = Some(deps);
            }
        }
        proof {
            lemma_no_unknown_package(self.packages@, *turbo_task);
        }
        let ghost after_deps = inputs@;
        if let Some(env_vars) = &turbo_task.env {
            let mut i: usize = 0;
            while i < env_vars.len()
                invariant
                    turbo_deps_ok(self.packages@, *turbo_task),
                    i <= env_vars@.len(),
                    input_views(inputs@) == input_views(after_deps) + env_inputs_of(
                        env_vars@.subrange(0, i as int),
                    ),
                decreases env_vars@.len() - i,
            {
                let ghost before = inputs@;
                inputs.push(InputPath::EnvVar(env_vars[i].clone()));
                proof {
                    assert(env_inputs_of(env_vars@.subrange(0, i + 1)) =~= env_inputs_of(
                        env_vars@.subrange(0, i as int),
                    ).push(InputView::EnvVar(env_vars@[i as int]@)));
                    assert(input_views(inputs@) =~= input_views(before).push(
                        InputView::EnvVar(env_vars@[i as int]@),
                    ));
                }
                i = i + 1;
            }
            assert(env_vars@.subrange(0, env_vars@.len() as int) =~= env_vars@);
        }
        let ghost after_env = inputs@;
        if let Some(raw_inputs) = &turbo_task.inputs {
            let mut i: usize = 0;
            while i < raw_inputs.len()
                invariant
                    turbo_deps_ok(self.packages@, *turbo_task),
                    turbo_task.inputs == Some(*raw_inputs),
                    i <= raw_inputs@.len(),
                    forall|k: int| 0 <= k < i ==> turbo_input_ok(#[trigger] raw_inputs@[k]@),
                    input_views(inputs@) == input_views(after_env) + turbo_inputs_of(
                        raw_inputs@.subrange(0, i as int),
                    ),
                decreases raw_inputs@.len() - i,
            {
                let ghost before = inputs@;
                proof {
                    reveal_strlit("$TURBO_DEFAULT$");
                }
                if !same_text(raw_inputs[i].as_str(), "$TURBO_DEFAULT$") {
                    match turbo_input(raw_inputs[i].as_str()) {
                        Ok(p) => inputs.push(p),
                        Err(e) => {
                            proof {
                                assert(!turbo_inputs_ok(raw_inputs@));
                                lemma_no_unknown_package(self.packages@, *turbo_task);
                            }
                            return Err(e);
                        },
                    }
                }
                proof {
                    let next = raw_inputs@.subrange(0, i + 1);
                    assert(next.subrange(0, i as int) =~= raw_inputs@.subrange(0, i as int));
                    assert(input_views(inputs@) =~= input_views(before) + (if raw_inputs@[i as int]@
                        == "$TURBO_DEFAULT$"@ {
                        Seq::empty()
                    } else {
                        seq![turbo_input_of(raw_inputs@[i as int]@)]
                    }));
                }
                i = i + 1;
            }
            assert(raw_inputs@.subrange(0, raw_inputs@.len() as int) =~= raw_inputs@);
        }
        proof {
            assert(input_views(inputs@) =~= turbo_task_inputs(*turbo_task));
        }
        if inputs.len() > 0 {
            config.inputs = Some(inputs);
        }
        if let Some(raw_outputs) = &turbo_task.outputs {
            let outputs = migrate_outputs(raw_outputs)?;
            if outputs.len() > 0 {
                config.outputs = Some(outputs);
            }
        }
        let mut options = TaskOptions::new();
        let mut has_options = false;
        if let Some(cache) = turbo_task.cache {
            options.cache = Some(cache);
            has_options = true;
        }
        if let Some(dot_env) = &turbo_task.dot_env {
            if dot_env.len() == 1 {
                if !file_path_is_valid(dot_env[0].as_str()) {
                    return Err(MigrateError::InvalidFilePath(dot_env[0].clone()));
                }
                options.env_file = Some(EnvFile::File(dot_env[0].clone()));
            } else {
                options.env_file = Some(EnvFile::Enabled(true));
            }
            has_options = true;
        }
        if let Some(output_mode) = &turbo_task.output_mode {
            let style = match output_mode {
                TurboOutputMode::HashOnly => Some(OutputStyle::Hash),
                TurboOutputMode::NewOnly => Some(OutputStyle::Buffer),
                TurboOutputMode::ErrorsOnly => Some(OutputStyle::BufferOnlyFailure),
                _ => None,
            };
            if style.is_some() {
                options.output_style = style;
                has_options = true;
            }
        }
        if has_options {
            config.options = Some(options);
        }
        if turbo_task.persistent == Some(true) {
            config.local = Some(true);
        }
        Ok(config)
    }
}

/// Where a pipeline task goes: the inherited tasks of the platform, or one
/// project's document.
pub enum TaskHome {
    Global,
    Project(Seq<char>),
}

/// Whether the document of `home` holds a task `name`.
pub open spec fn has_task(m: Migrator, home: TaskHome, name: Seq<char>) -> bool {
    task_at(m, home, name) is Some
}

/// The task `name` of the document of `home`, if any.
pub open spec fn task_at(m: Migrator, home: TaskHome, name: Seq<char>) -> Option<TaskConfig> {
    let doc = match home {
        TaskHome::Global => match lookup(m.tasks_configs@, platform_scope(m.platform)) {
            Some(d) => d.tasks,
            None => None,
        },
        TaskHome::Project(source) => match lookup(m.project_configs@, source) {
            Some(d) => d.tasks,
            None => None,
        },
    };
    match doc {
        Some(t) => lookup(t.view(), name),
        None => None,
    }
}

/// Whether every task of `before` is still in `after`, unchanged.
pub open spec fn keeps_tasks(before: Migrator, after: Migrator) -> bool {
    forall|h: TaskHome, n: Seq<char>|
        #[trigger] task_at(before, h, n) is Some ==> task_at(after, h, n) == task_at(before, h, n)
}

/// Whether every task of `before` but `name` of `home` is in `after`,
/// unchanged.
pub open spec fn keeps_other_tasks(before: Migrator, after: Migrator, home: TaskHome, name: Seq<
    char,
>) -> bool {
    forall|h: TaskHome, n: Seq<char>|
        #[trigger] task_at(before, h, n) is Some && !(h == home && n == name) ==> task_at(
            after,
            h,
            n,
        ) == task_at(before, h, n)
}

/// Where the pipeline task `script` of a file found in `from_source` goes, and
/// under which name: `//#task` goes to the root project, `package#task` to
/// the project of that package, and a plain task to the file's project, or to
/// the inherited tasks for the root file.
pub open spec fn home_of(ps: Seq<Project>, script: Seq<char>, from_source: Option<Seq<char>>) -> Option<
    (TaskHome, Seq<char>),
> {
    if starts_with(script, "//#"@) {
        Some((TaskHome::Project(Seq::empty()), script.subrange(3, script.len() as int)))
    } else if has_char(script, '#') {
        Some(
            (
                TaskHome::Project(resolved(ps, before_first(script, '#')).source@),
                after_first(script, '#'),
            ),
        )
    } else {
        match from_source {
            Some(s) => Some((TaskHome::Project(s), script)),
            None => Some((TaskHome::Global, script)),
        }
    }
}

/// Whether the pipeline entry `e` of a file found in `from_source` stands in
/// its document as the task that `migrate_task` makes of it.
pub open spec fn placed(
    m: Migrator,
    ps: Seq<Project>,
    pm: Seq<char>,
    e: (String, TurboTask),
    from_source: Option<Seq<char>>,
) -> bool {
    match home_of(ps, e.0@, from_source) {
        Some(h) => match task_at(m, h.0, h.1) {
            Some(c) => turbo_task_spec(c, ps, pm, e.1, h.1),
            None => false,
        },
        None => true,
    }
}

/// Whether every task of `before` is still in `after`, and unchanged unless
/// one of the first `end` entries of `p` goes where it stands.
pub open spec fn keeps_tasks_but(
    before: Migrator,
    after: Migrator,
    ps: Seq<Project>,
    p: Seq<(String, TurboTask)>,
    from_source: Option<Seq<char>>,
    end: int,
) -> bool {
    forall|h: TaskHome, n: Seq<char>|
        #[trigger] task_at(before, h, n) is Some ==> task_at(after, h, n) is Some && ((forall|
            j: int,
        | 0 <= j < end ==> home_of(ps, #[trigger] p[j].0@, from_source) != Some((h, n)))
            ==> task_at(after, h, n) == task_at(before, h, n))
}

/// Whether the pipeline entry `e` can be migrated against the projects `ps`:
/// its task translates, its name is a valid identifier, and a
/// `package#task` name refers to a known package.
pub open spec fn entry_ok(ps: Seq<Project>, e: (String, TurboTask)) -> bool {
    let script = e.0@;
    &&& turbo_task_ok(ps, e.1)
    &&& if starts_with(script, "//#"@) {
        valid_id(script.subrange(3, script.len() as int))
    } else if has_char(script, '#') {
        is_registered(ps, before_first(script, '#')) && valid_id(after_first(script, '#'))
    } else {
        valid_id(script)
    }
}

/// Whether every entry of the pipeline of `t`, if it has one, can be migrated.
pub open spec fn pipeline_ok(ps: Seq<Project>, t: TurboJson) -> bool {
    t.pipeline matches Some(p) ==> forall|k: int|
        0 <= k < p@.len() ==> entry_ok(ps, #[trigger] p@[k])
}

/// Whether no entry of `p` after `k` and before `end` goes where entry `k`
/// goes.
pub open spec fn last_for_home(
    ps: Seq<Project>,
    p: Seq<(String, TurboTask)>,
    from_source: Option<Seq<char>>,
    k: int,
    end: int,
) -> bool {
    forall|j: int|
        k < j < end ==> home_of(ps, #[trigger] p[j].0@, from_source) != home_of(
            ps,
            p[k].0@,
            from_source,
        )
}

/// Whether entry `k` of `p` is the first that cannot be migrated, and its
/// name refers to a package that no project has.
pub open spec fn unknown_entry_at(ps: Seq<Project>, p: Seq<(String, TurboTask)>, k: int) -> bool {
    &&& forall|j: int| 0 <= j < k ==> entry_ok(ps, #[trigger] p[j])
    &&& !starts_with(p[k].0@, "//#"@)
    &&& has_char(p[k].0@, '#')
    &&& !is_registered(ps, before_first(p[k].0@, '#'))
}

/// The pipeline entry `i` failed with `e`: the pipeline cannot be migrated,
/// and `e` names the unknown package where that is the reason.
proof fn lemma_entry_fails(ps: Seq<Project>, p: Seq<(String, TurboTask)>, i: int, e: MigrateError)
    requires
        0 <= i < p.len(),
        forall|k: int| 0 <= k < i ==> entry_ok(ps, #[trigger] p[k]),
        !entry_ok(ps, p[i]),
        !starts_with(p[i].0@, "//#"@) && has_char(p[i].0@, '#') && !is_registered(
            ps,
            before_first(p[i].0@, '#'),
        ) ==> names_unknown(e, before_first(p[i].0@, '#')),
    ensures
        exists|k: int| 0 <= k < p.len() && !entry_ok(ps, #[trigger] p[k]),
        forall|k: int|
            0 <= k < p.len() && #[trigger] unknown_entry_at(ps, p, k) ==> names_unknown(
                e,
                before_first(p[k].0@, '#'),
            ),
{
    assert forall|k: int|
        0 <= k < p.len() && #[trigger] unknown_entry_at(ps, p, k) implies names_unknown(
        e,
        before_first(p[k].0@, '#'),
    ) by {
        if k < i {
            assert(entry_ok(ps, p[k]));
        } else if k > i {
            assert(entry_ok(ps, p[i]));
        }
    }
}

/// The view of an optional source directory.
pub open spec fn opt_source(s: Option<&str>) -> Option<Seq<char>> {
    match s {
        Some(s) => Some(s@),
        None => None,
    }
}

/// The projects that named packages become: the identifier from the
/// directory's name, the package name, and the directory.
pub open spec fn named_packages(roots: Seq<(String, Option<String>)>) -> Seq<
    (Seq<char>, Seq<char>, Seq<char>),
>
    decreases roots.len(),
{
    if roots.len() == 0 {
        Seq::empty()
    } else {
        let last = roots[roots.len() - 1];
        let before = named_packages(roots.subrange(0, roots.len() - 1));
        match last.1 {
            Some(name) => before.push((file_name_of(last.0@), name@, last.0@)),
            None => before,
        }
    }
}

/// The view of a project: its identifier, package name and directory.
pub open spec fn package_view(p: Project) -> (Seq<char>, Seq<char>, Seq<char>) {
    (p.id@, match p.alias {
        Some(a) => a@,
        None => Seq::empty(),
    }, p.source@)
}

/// The implicit inputs that a root `turbo.json` declares, in order.
pub open spec fn root_inputs_of(t: TurboJson) -> Seq<InputView> {
    (match t.global_dependencies {
        Some(d) => d@.map_values(|s: String| path_input_of(s@)),
        None => Seq::empty(),
    }) + (match t.global_dot_env {
        Some(d) => d@.map_values(|s: String| path_input_of(s@)),
        None => Seq::empty(),
    }) + (match t.global_env {
        Some(e) => env_inputs_of(e@),
        None => Seq::empty(),
    })
}

/// Whether the optional inputs `v` end with `tail`.
pub open spec fn ends_with_inputs(v: Option<Vec<InputPath>>, tail: Seq<InputView>) -> bool {
    match v {
        Some(v) => input_views(v@).len() >= tail.len() && input_views(v@).subrange(
            input_views(v@).len() - tail.len(),
            input_views(v@).len() as int,
        ) == tail,
        None => false,
    }
}

/// The inputs of an optional list, or nothing.
pub open spec fn listed_inputs(v: Option<Vec<InputPath>>) -> Seq<InputView> {
    match v {
        Some(v) => input_views(v@),
        None => Seq::empty(),
    }
}

/// The files or globs `raw`, each as a path input.
/// Whether moon accepts every one of the files or globs `raw` as an input.
pub open spec fn paths_ok(raw: Seq<String>) -> bool {
    forall|k: int| 0 <= k < raw.len() ==> valid_input(rewrite(#[trigger] raw[k]@, true))
}

/// Whether moon accepts the global dependencies and env files of `t`.
pub open spec fn root_inputs_ok(t: TurboJson) -> bool {
    &&& (t.global_dependencies matches Some(d) ==> paths_ok(d@))
    &&& (t.global_dot_env matches Some(d) ==> paths_ok(d@))
}

fn path_inputs(raw: &Vec<String>) -> (r: Result<Vec<InputPath>, MigrateError>)
    ensures
        r is Ok <==> paths_ok(raw@),
        r matches Err(e) ==> e is InvalidInput,
        r matches Ok(v) ==> input_views(v@) == raw@.map_values(|s: String| path_input_of(s@)),
{
    let mut out: Vec<InputPath> = Vec::new();
    let mut i: usize = 0;
    while i < raw.len()
        invariant
            i <= raw@.len(),
            forall|k: int| 0 <= k < i ==> valid_input(rewrite(#[trigger] raw@[k]@, true)),
            input_views(out@) == raw@.subrange(0, i as int).map_values(
                |s: String| path_input_of(s@),
            ),
        decreases raw@.len() - i,
    {
        let p = path_input(raw[i].as_str())?;
        let ghost before = out@;
        out.push(p);
        proof {
            assert(input_views(out@) =~= input_views(before).push(path_input_of(raw@[i as int]@)));
            assert(raw@.subrange(0, i + 1).map_values(|s: String| path_input_of(s@)) =~= raw@.subrange(
                0,
                i as int,
            ).map_values(|s: String| path_input_of(s@)).push(path_input_of(raw@[i as int]@)));
        }
        i = i + 1;
    }
    assert(raw@.subrange(0, raw@.len() as int) =~= raw@);
    Ok(out)
}

/// Whether `globs` hold `g`.
pub open spec fn has_glob(globs: Seq<String>, g: Seq<char>) -> bool {
    exists|j: int| 0 <= j < globs.len() && globs[j]@ == g
}

/// The glob of the directory that holds a package's directory.
pub open spec fn package_glob(root: Seq<char>) -> Seq<char> {
    parent_of(root) + "/*"@
}

impl TurboMigrator {
    /// A migration over the packages found in the workspace, each given by
    /// its directory and its package name; a package without a name is left
    /// out. The platform is bun when asked for or locked, else node.
    pub fn new(
        bun: bool,
        bun_lock: bool,
        pnpm_lock: bool,
        yarn_lock: bool,
        package_roots: &Vec<(String, Option<String>)>,
    ) -> (r: Result<TurboMigrator, MigrateError>)
        ensures
            r is Ok <==> forall|k: int|
                0 <= k < package_roots@.len() && package_roots@[k].1 is Some ==> valid_id(
                    file_name_of(package_roots@[k].0@),
                ),
            r matches Ok(m) ==> {
                &&& m.inner.wf()
                &&& m.inner.platform == (if bun || bun_lock {
                    PlatformType::Bun
                } else {
                    PlatformType::Node
                })
                &&& m.inner.project_configs@.len() == 0 && m.inner.tasks_configs@.len() == 0
                &&& m.inner.workspace_config is None
                &&& m.package_manager@ == package_manager_of(bun, bun_lock, pnpm_lock, yarn_lock)
                &&& !m.registry_from_graph
                &&& m.packages@.map_values(|p: Project| package_view(p)) == named_packages(
                    package_roots@,
                )
                &&& forall|k: int|
                    0 <= k < package_roots@.len() && package_roots@[k].1 is Some ==> has_glob(
                        m.package_globs@,
                        #[trigger] package_glob(package_roots@[k].0@),
                    )
                &&& forall|i: int, j: int|
                    0 <= i < j < m.package_globs@.len() ==> m.package_globs@[i]@
                        != m.package_globs@[j]@
            },
            r matches Err(e) ==> e is InvalidId,
    {
        let platform = if bun || bun_lock {
            PlatformType::Bun
        } else {
            PlatformType::Node
        };
        let mut packages: Vec<Project> = Vec::new();
        let mut globs: Vec<String> = Vec::new();
        let mut i: usize = 0;
        while i < package_roots.len()
            invariant
                i <= package_roots@.len(),
                forall|k: int|
                    0 <= k < i && package_roots@[k].1 is Some ==> valid_id(
                        file_name_of(package_roots@[k].0@),
                    ),
                packages@.map_values(|p: Project| package_view(p)) == named_packages(
                    package_roots@.subrange(0, i as int),
                ),
                forall|k: int|
                    0 <= k < i && package_roots@[k].1 is Some ==> has_glob(
                        globs@,
                        #[trigger] package_glob(package_roots@[k].0@),
                    ),
                forall|a: int, b: int| 0 <= a < b < globs@.len() ==> globs@[a]@ != globs@[b]@,
            decreases package_roots@.len() - i,
        {
            let ghost before = packages@;
            if let Some(name) = &package_roots[i].1 {
                let root = package_roots[i].0.as_str();
                let (parent, dir_name) = split_path(root);
                let id = create_id(dir_name.as_str())?;
                let glob = concat(parent.as_str(), "/*");
                let mut j: usize = 0;
                let mut seen = false;
                while j < globs.len()
                    invariant
                        j <= globs@.len(),
                        !seen ==> forall|m: int| 0 <= m < j ==> globs@[m]@ != glob@,
                        seen ==> exists|m: int| 0 <= m < globs@.len() && globs@[m]@ == glob@,
                    decreases globs@.len() - j,
                {
                    if same_text(globs[j].as_str(), glob.as_str()) {
                        seen = true;
                    }
                    j = j + 1;
                }
                let ghost old_globs = globs@;
                let ghost g = glob@;
                proof {
                    reveal_strlit("/*");
                }
                if !seen {
                    globs.push(glob);
                    proof {
                        assert(globs@[globs@.len() - 1]@ == g);
                    }
                }
                proof {
                    assert(has_glob(globs@, g));
                    assert forall|k: int|
                        0 <= k < i && package_roots@[k].1 is Some implies has_glob(
                        globs@,
                        #[trigger] package_glob(package_roots@[k].0@),
                    ) by {
                        let j = choose|j: int|
                            0 <= j < old_globs.len() && old_globs[j]@ == package_glob(
                                package_roots@[k].0@,
                            );
                        assert(globs@[j] == old_globs[j]);
                    }
                }
                packages.push(
                    Project { alias: Some(name.clone()), id, source: String::from_str(root) },
                );
            }
            proof {
                let next = package_roots@.subrange(0, i + 1);
                assert(next.subrange(0, i as int) =~= package_roots@.subrange(0, i as int));
                assert(packages@.map_values(|p: Project| package_view(p)) =~= named_packages(next));
            }
            i = i + 1;
        }
        assert(package_roots@.subrange(0, package_roots@.len() as int) =~= package_roots@);
        Ok(TurboMigrator {
            inner: Migrator::new(platform),
            package_manager: detect_package_manager(bun, bun_lock, pnpm_lock, yarn_lock),
            package_globs: globs,
            packages,
            registry_from_graph: false,
        })
    }

    /// A migration over the projects of the host's project graph, which lists
    /// them already; the platform is bun when asked for or locked, else node.
    pub fn from_project_graph(
        bun: bool,
        bun_lock: bool,
        pnpm_lock: bool,
        yarn_lock: bool,
        graph: ProjectGraph,
    ) -> (r: TurboMigrator)
        ensures
            r.inner.wf(),
            r.inner.platform == (if bun || bun_lock {
                PlatformType::Bun
            } else {
                PlatformType::Node
            }),
            r.inner.project_configs@.len() == 0 && r.inner.tasks_configs@.len() == 0,
            r.inner.workspace_config is None,
            r.package_manager@ == package_manager_of(bun, bun_lock, pnpm_lock, yarn_lock),
            r.packages == graph.projects,
            r.registry_from_graph,
            r.package_globs@.len() == 0,
    {
        let platform = if bun || bun_lock {
            PlatformType::Bun
        } else {
            PlatformType::Node
        };
        TurboMigrator {
            inner: Migrator::new(platform),
            package_manager: detect_package_manager(bun, bun_lock, pnpm_lock, yarn_lock),
            package_globs: Vec::new(),
            packages: graph.projects,
            registry_from_graph: true,
        }
    }

    /// Puts `task` under `id` among the inherited tasks of the platform.
    fn add_global_task(&mut self, id: String, task: TaskConfig)
        requires
            old(self).inner.wf(),
        ensures
            final(self).inner.wf(),
            task_at(final(self).inner, TaskHome::Global, id@) == Some(task),
            keeps_other_tasks(old(self).inner, final(self).inner, TaskHome::Global, id@),
            platform_tasks_doc(final(self).inner).implicit_inputs == platform_tasks_doc(
                old(self).inner,
            ).implicit_inputs,
            final(self).inner.workspace_config == old(self).inner.workspace_config,
            final(self).inner.disk_workspace == old(self).inner.disk_workspace,
            final(self).inner.platform == old(self).inner.platform,
            final(self).packages == old(self).packages,
            final(self).registry_from_graph == old(self).registry_from_graph,
            final(self).package_manager == old(self).package_manager,
            final(self).package_globs == old(self).package_globs,
    {
        let ghost start = self.inner;
        let i = self.inner.load_tasks_platform_config();
        let ghost loaded_docs = self.inner.tasks_configs@;
        let (key, mut doc) = self.inner.tasks_configs.remove(i);
        let ghost doc_before = doc;
        let mut tasks = match doc.tasks.take() {
            Some(t) => t,
            None => Table::new(),
        };
        let ghost before_tasks = tasks.view();
        let ghost (kid, ktask) = (id, task);
        tasks.insert(id, task);
        doc.tasks = Some(tasks);
        self.inner.tasks_configs.insert(i, (key, doc));
        proof {
            let scope = platform_scope(start.platform);
            assert(self.inner.tasks_configs@ =~= loaded_docs.update(i as int, (key, doc)));
            lemma_replace_at(loaded_docs, i as int, key, doc);
            lemma_lookup_at(loaded_docs, key@, i as int);
            assert(key@ == scope);
            if has_key(start.tasks_configs@, scope) {
                assert(loaded_docs == start.tasks_configs@);
            } else {
                lemma_lookup_absent(start.tasks_configs@, scope);
            }
            assert(platform_tasks_doc(start) == doc_before);
            assert forall|h: TaskHome, n: Seq<char>|
                #[trigger] task_at(start, h, n) is Some && !(h == TaskHome::Global && n == kid@)
                    implies task_at(self.inner, h, n) == task_at(start, h, n) by {
                if h is Global {
                    assert(has_key(start.tasks_configs@, scope));
                    assert(doc_before.tasks is Some);
                    assert(before_tasks == doc_before.tasks->Some_0.view());
                    assert(lookup(tasks.view(), n) == lookup(before_tasks, n));
                }
            }
        }
    }

    /// Puts `task` under `id` in the document of the project in `source`.
    fn add_project_task(&mut self, source: &str, id: String, task: TaskConfig)
        requires
            old(self).inner.wf(),
        ensures
            final(self).inner.wf(),
            task_at(final(self).inner, TaskHome::Project(source@), id@) == Some(task),
            keeps_other_tasks(old(self).inner, final(self).inner, TaskHome::Project(source@), id@),
            final(self).inner.tasks_configs == old(self).inner.tasks_configs,
            final(self).inner.disk_tasks == old(self).inner.disk_tasks,
            final(self).inner.workspace_config == old(self).inner.workspace_config,
            final(self).inner.disk_workspace == old(self).inner.disk_workspace,
            final(self).inner.platform == old(self).inner.platform,
            final(self).packages == old(self).packages,
            final(self).registry_from_graph == old(self).registry_from_graph,
            final(self).package_manager == old(self).package_manager,
            final(self).package_globs == old(self).package_globs,
    {
        let ghost start = self.inner;
        let i = self.inner.load_project_config(source);
        let ghost loaded_docs = self.inner.project_configs@;
        let (key, mut doc) = self.inner.project_configs.remove(i);
        let ghost doc_before = doc;
        let mut tasks = match doc.tasks.take() {
            Some(t) => t,
            None => Table::new(),
        };
        let ghost before_tasks = tasks.view();
        let ghost (kid, ktask) = (id, task);
        tasks.insert(id, task);
        doc.tasks = Some(tasks);
        self.inner.project_configs.insert(i, (key, doc));
        proof {
            assert(self.inner.project_configs@ =~= loaded_docs.update(i as int, (key, doc)));
            lemma_replace_at(loaded_docs, i as int, key, doc);
            lemma_lookup_at(loaded_docs, key@, i as int);
            assert forall|h: TaskHome, n: Seq<char>|
                #[trigger] task_at(start, h, n) is Some && !(h == TaskHome::Project(source@) && n
                    == kid@) implies task_at(self.inner, h, n) == task_at(start, h, n) by {
                if let TaskHome::Project(src) = h {
                    assert(has_key(start.project_configs@, src));
                    if !has_key(start.project_configs@, source@) {
                        lemma_lookup_push(start.project_configs@, loaded_docs.last(), src);
                        assert(loaded_docs == start.project_configs@.push(loaded_docs.last()));
                    }
                    if src != source@ {
                        assert(has_key(loaded_docs, src));
                        lemma_lookup_update(loaded_docs, i as int, (key, doc), src);
                    } else {
                        assert(loaded_docs == start.project_configs@);
                        assert(doc_before.tasks is Some);
                        assert(before_tasks == doc_before.tasks->Some_0.view());
                        assert(lookup(tasks.view(), n) == lookup(before_tasks, n));
                    }
                }
            }
        }
    }

    /// The task of one pipeline entry, and its name.
    fn pipeline_task(&self, script: &str, task: &TurboTask) -> (r: Result<
        (String, TaskConfig),
        MigrateError,
    >)
        ensures
            r is Ok <==> turbo_task_ok(self.packages@, *task) && valid_id(script@),
            err_kind(r, self.registry_from_graph),
            r matches Ok(p) ==> p.0@ == script@ && turbo_task_spec(
                p.1,
                self.packages@,
                self.package_manager@,
                *task,
                script@,
            ),
    {
        let config = self.migrate_task(task, script)?;
        let id = create_id(script)?;
        Ok((id, config))
    }

    /// Migrates the pipeline of a `turbo.json`: a task named `//#task` goes to
    /// the root project, `package#task` to that package's project, and a
    /// plain task to the file's project, or to the inherited tasks when the
    /// file is the root's. Each goes in as the task that `migrate_task` makes
    /// of it; a later entry for the same task replaces an earlier one.
    pub fn migrate_pipeline(&mut self, turbo_json: &TurboJson, from_source: Option<&str>) -> (r:
        Result<(), MigrateError>)
        requires
            old(self).inner.wf(),
        ensures
            final(self).inner.wf(),
            r is Ok <==> pipeline_ok(old(self).packages@, *turbo_json),
            err_kind(r, old(self).registry_from_graph),
            turbo_json.pipeline is Some ==> keeps_tasks_but(
                old(self).inner,
                final(self).inner,
                old(self).packages@,
                turbo_json.pipeline->Some_0@,
                opt_source(from_source),
                turbo_json.pipeline->Some_0@.len() as int,
            ),
            turbo_json.pipeline is None ==> final(self).inner == old(self).inner,
            r is Ok && turbo_json.pipeline is Some ==> forall|k: int|
                0 <= k < turbo_json.pipeline->Some_0@.len() && last_for_home(
                    old(self).packages@,
                    turbo_json.pipeline->Some_0@,
                    opt_source(from_source),
                    k,
                    turbo_json.pipeline->Some_0@.len() as int,
                ) ==> #[trigger] placed(
                    final(self).inner,
                    old(self).packages@,
                    old(self).package_manager@,
                    turbo_json.pipeline->Some_0@[k],
                    opt_source(from_source),
                ),
            turbo_json.pipeline is Some ==> forall|k: int|
                0 <= k < turbo_json.pipeline->Some_0@.len() && #[trigger] unknown_entry_at(
                    old(self).packages@,
                    turbo_json.pipeline->Some_0@,
                    k,
                ) ==> fails_on_unknown(
                    r,
                    before_first(turbo_json.pipeline->Some_0@[k].0@, '#'),
                ),
            platform_tasks_doc(final(self).inner).implicit_inputs == platform_tasks_doc(
                old(self).inner,
            ).implicit_inputs,
            final(self).inner.workspace_config == old(self).inner.workspace_config,
            final(self).inner.disk_workspace == old(self).inner.disk_workspace,
            final(self).inner.platform == old(self).inner.platform,
            final(self).packages == old(self).packages,
            final(self).registry_from_graph == old(self).registry_from_graph,
            final(self).package_manager == old(self).package_manager,
            final(self).package_globs == old(self).package_globs,
    {
        let pipeline = match &turbo_json.pipeline {
            Some(p) => p,
            None => {
                return Ok(());
            },
        };
        let ghost start = self.inner;
        let ghost ps = self.packages@;
        let ghost pm = self.package_manager@;
        let ghost from = opt_source(from_source);
        let mut i: usize = 0;
        while i < pipeline.len()
            invariant
                turbo_json.pipeline == Some(*pipeline),
                i <= pipeline@.len(),
                self.inner.wf(),
                keeps_tasks_but(start, self.inner, ps, pipeline@, from, i as int),
                start == old(self).inner,
                ps == self.packages@,
                pm == self.package_manager@,
                from == opt_source(from_source),
                forall|k: int| 0 <= k < i ==> entry_ok(ps, #[trigger] pipeline@[k]),
                forall|k: int|
                    0 <= k < i && last_for_home(ps, pipeline@, from, k, i as int) ==> #[trigger] placed(
                        self.inner,
                        ps,
                        pm,
                        pipeline@[k],
                        from,
                    ),
                platform_tasks_doc(self.inner).implicit_inputs == platform_tasks_doc(
                    start,
                ).implicit_inputs,
                self.inner.workspace_config == old(self).inner.workspace_config,
                self.inner.disk_workspace == old(self).inner.disk_workspace,
                self.inner.platform == old(self).inner.platform,
                self.packages == old(self).packages,
                self.registry_from_graph == old(self).registry_from_graph,
                self.package_manager == old(self).package_manager,
                self.package_globs == old(self).package_globs,
            decreases pipeline@.len() - i,
        {
            let script = pipeline[i].0.as_str();
            let task = &pipeline[i].1;
            let ghost before = self.inner;
            let ghost entry = pipeline@[i as int];
            proof {
                reveal_strlit("//#");
                reveal_strlit("");
                assert(""@ =~= Seq::<char>::empty());
            }
            let ghost home: TaskHome;
            let ghost name: Seq<char>;
            if has_prefix(script, "//#") {
                let short = tail(script, 3);
                let (id, config) = match self.pipeline_task(short.as_str(), task) {
                    Ok(p) => p,
                    Err(e) => {
                        proof {
                            assert(!entry_ok(ps, entry));
                            assert(turbo_json.pipeline->Some_0@[i as int] == entry);
                            lemma_entry_fails(ps, pipeline@, i as int, e);
                            assert(!pipeline_ok(ps, *turbo_json));
                        }
                        return Err(e);
                    },
                };
                self.add_project_task("", id, config);
                proof {
                    home = TaskHome::Project(Seq::empty());
                    name = short@;
                }
            } else if contains_char(script, '#') {
                let (project, short) = match self.find_project_task_from_script(script, '#') {
                    Ok(p) => p,
                    Err(e) => {
                        proof {
                            assert(!entry_ok(ps, entry));
                            assert(turbo_json.pipeline->Some_0@[i as int] == entry);
                            lemma_entry_fails(ps, pipeline@, i as int, e);
                            assert(!pipeline_ok(ps, *turbo_json));
                        }
                        return Err(e);
                    },
                };
                let source = project.source.clone();
                let (id, config) = match self.pipeline_task(short.as_str(), task) {
                    Ok(p) => p,
                    Err(e) => {
                        proof {
                            assert(!entry_ok(ps, entry));
                            assert(turbo_json.pipeline->Some_0@[i as int] == entry);
                            lemma_entry_fails(ps, pipeline@, i as int, e);
                            assert(!pipeline_ok(ps, *turbo_json));
                        }
                        return Err(e);
                    },
                };
                self.add_project_task(source.as_str(), id, config);
                proof {
                    home = TaskHome::Project(source@);
                    name = short@;
                }
            } else {
                let (id, config) = match self.pipeline_task(script, task) {
                    Ok(p) => p,
                    Err(e) => {
                        proof {
                            assert(!entry_ok(ps, entry));
                            assert(turbo_json.pipeline->Some_0@[i as int] == entry);
                            lemma_entry_fails(ps, pipeline@, i as int, e);
                            assert(!pipeline_ok(ps, *turbo_json));
                        }
                        return Err(e);
                    },
                };
                match from_source {
                    Some(source) => {
                        self.add_project_task(source, id, config);
                        proof {
                            home = TaskHome::Project(source@);
                        }
                    },
                    None => {
                        self.add_global_task(id, config);
                        proof {
                            home = TaskHome::Global;
                        }
                    },
                }
                proof {
                    name = script@;
                }
            }
            proof {
                assert(home_of(ps, entry.0@, from) == Some((home, name)));
                assert(entry_ok(ps, entry));
                assert(placed(self.inner, ps, pm, entry, from));
                assert forall|k: int|
                    0 <= k < i + 1 && last_for_home(ps, pipeline@, from, k, i + 1) implies #[trigger] placed(
                    self.inner,
                    ps,
                    pm,
                    pipeline@[k],
                    from,
                ) by {
                    if k < i {
                        assert(last_for_home(ps, pipeline@, from, k, i as int));
                        assert(placed(before, ps, pm, pipeline@[k], from));
                        let hk = home_of(ps, pipeline@[k].0@, from);
                        assert(hk != home_of(ps, pipeline@[i as int].0@, from));
                        if let Some(h) = hk {
                            assert(task_at(before, h.0, h.1) is Some);
                        }
                    }
                }
                assert forall|h: TaskHome, n: Seq<char>|
                    #[trigger] task_at(start, h, n) is Some implies task_at(self.inner, h, n) is Some
                        && ((forall|j: int|
                        0 <= j < i + 1 ==> home_of(ps, #[trigger] pipeline@[j].0@, from) != Some(
                            (h, n),
                        )) ==> task_at(self.inner, h, n) == task_at(start, h, n)) by {
                    assert(task_at(before, h, n) is Some);
                    if (forall|j: int|
                        0 <= j < i + 1 ==> home_of(ps, #[trigger] pipeline@[j].0@, from) != Some(
                            (h, n),
                        )) {
                        assert(home_of(ps, pipeline@[i as int].0@, from) != Some((h, n)));
                        assert(task_at(before, h, n) == task_at(start, h, n));
                    }
                }
            }
            i = i + 1;
        }
        proof {
            assert forall|k: int|
                0 <= k < pipeline@.len() && #[trigger] unknown_entry_at(ps, pipeline@, k)
                    implies fails_on_unknown(
                Ok::<(), MigrateError>(()),
                before_first(pipeline@[k].0@, '#'),
            ) by {
                assert(entry_ok(ps, pipeline@[k]));
            }
        }
        Ok(())
    }

    /// The implicit inputs of a root `turbo.json`: its global dependencies
    /// and env files as paths, then its global environment variables.
    fn root_implicit_inputs(turbo_json: &TurboJson) -> (r: Result<Vec<InputPath>, MigrateError>)
        ensures
            r is Ok <==> root_inputs_ok(*turbo_json),
            r matches Err(e) ==> e is InvalidInput,
            r matches Ok(v) ==> input_views(v@) == root_inputs_of(*turbo_json),
    {
        let mut inputs: Vec<InputPath> = Vec::new();
        if let Some(deps) = &turbo_json.global_dependencies {
            let mut more = path_inputs(deps)?;
            inputs.append(&mut more);
        }
        let ghost after_deps = inputs@;
        if let Some(env_files) = &turbo_json.global_dot_env {
            let mut more = path_inputs(env_files)?;
            inputs.append(&mut more);
        }
        if let Some(env_vars) = &turbo_json.global_env {
            let ghost start = inputs@;
            let mut i: usize = 0;
            while i < env_vars.len()
                invariant
                    i <= env_vars@.len(),
                    input_views(inputs@) == input_views(start) + env_inputs_of(
                        env_vars@.subrange(0, i as int),
                    ),
                decreases env_vars@.len() - i,
            {
                let ghost before = inputs@;
                inputs.push(InputPath::EnvVar(env_vars[i].clone()));
                proof {
                    assert(env_inputs_of(env_vars@.subrange(0, i + 1)) =~= env_inputs_of(
                        env_vars@.subrange(0, i as int),
                    ).push(InputView::EnvVar(env_vars@[i as int]@)));
                    assert(input_views(inputs@) =~= input_views(before).push(
                        InputView::EnvVar(env_vars@[i as int]@),
                    ));
                }
                i = i + 1;
            }
            assert(env_vars@.subrange(0, env_vars@.len() as int) =~= env_vars@);
        }
        proof {
            assert(input_views(inputs@) =~= root_inputs_of(*turbo_json));
        }
        Ok(inputs)
    }

    /// Migrates the root `turbo.json`: its pipeline, its global dependencies,
    /// env files and environment variables as implicit inputs of every task,
    /// and the workspace's project globs: the directories that hold packages,
    /// or the conventional ones when no package was found.
    pub fn migrate_root_config(&mut self, turbo_json: TurboJson) -> (r: Result<(), MigrateError>)
        requires
            old(self).inner.wf(),
        ensures
            final(self).inner.wf(),
            r is Ok ==> (final(self).inner.workspace_config matches Some(w) && {
                let before = workspace_doc(old(self).inner);
                &&& (before.projects is Some ==> w.projects == before.projects)
                &&& (before.projects is None ==> project_globs(w.projects) == Some(
                    if old(self).package_globs@.len() > 0 {
                        views(old(self).package_globs@)
                    } else {
                        default_globs()
                    },
                ))
            }),
            r is Ok <==> pipeline_ok(old(self).packages@, turbo_json) && root_inputs_ok(turbo_json),
            err_kind(r, old(self).registry_from_graph),
            r is Ok && root_inputs_of(turbo_json).len() > 0 ==> (lookup(
                final(self).inner.tasks_configs@,
                platform_scope(final(self).inner.platform),
            ) matches Some(doc) && opt_input_views(doc.implicit_inputs) == Some(
                listed_inputs(platform_tasks_doc(old(self).inner).implicit_inputs) + root_inputs_of(
                    turbo_json,
                ),
            )),
            r is Ok && root_inputs_of(turbo_json).len() == 0 ==> platform_tasks_doc(
                final(self).inner,
            ).implicit_inputs == platform_tasks_doc(old(self).inner).implicit_inputs,
            r is Ok && turbo_json.pipeline is Some ==> forall|k: int|
                0 <= k < turbo_json.pipeline->Some_0@.len() && last_for_home(
                    old(self).packages@,
                    turbo_json.pipeline->Some_0@,
                    None,
                    k,
                    turbo_json.pipeline->Some_0@.len() as int,
                ) ==> #[trigger] placed(
                    final(self).inner,
                    old(self).packages@,
                    old(self).package_manager@,
                    turbo_json.pipeline->Some_0@[k],
                    None,
                ),
            turbo_json.pipeline is Some ==> forall|k: int|
                0 <= k < turbo_json.pipeline->Some_0@.len() && #[trigger] unknown_entry_at(
                    old(self).packages@,
                    turbo_json.pipeline->Some_0@,
                    k,
                ) ==> fails_on_unknown(
                    r,
                    before_first(turbo_json.pipeline->Some_0@[k].0@, '#'),
                ),
    {
        self.migrate_pipeline(&turbo_json, None)?;
        let ghost after_pipeline = self.inner;
        let implicit_inputs = match Self::root_implicit_inputs(&turbo_json) {
            Ok(v) => v,
            Err(e) => {
                proof {
                    if let Some(pipeline) = turbo_json.pipeline {
                        assert forall|k: int|
                            0 <= k < pipeline@.len() && #[trigger] unknown_entry_at(
                                self.packages@,
                                pipeline@,
                                k,
                            ) implies fails_on_unknown(
                            Err::<(), MigrateError>(e),
                            before_first(pipeline@[k].0@, '#'),
                        ) by {
                            assert(entry_ok(self.packages@, pipeline@[k]));
                        }
                    }
                }
                return Err(e);
            },
        };
        if implicit_inputs.len() > 0 {
            let i = self.inner.load_tasks_platform_config();
            let ghost loaded_docs = self.inner.tasks_configs@;
            let (key, mut doc) = self.inner.tasks_configs.remove(i);
            let ghost before_doc = doc;
            let mut all = match doc.implicit_inputs.take() {
                Some(v) => v,
                None => Vec::new(),
            };
            let ghost prefix = all@;
            let ghost added = implicit_inputs@;
            let mut more = implicit_inputs;
            all.append(&mut more);
            proof {
                assert(input_views(all@) =~= input_views(prefix) + input_views(added));
                assert(input_views(all@).subrange(
                    input_views(all@).len() - input_views(added).len(),
                    input_views(all@).len() as int,
                ) =~= input_views(added));
            }
            doc.implicit_inputs = Some(all);
            self.inner.tasks_configs.insert(i, (key, doc));
            proof {
                assert(self.inner.tasks_configs@ =~= loaded_docs.update(i as int, (key, doc)));
                lemma_replace_at(loaded_docs, i as int, key, doc);
                lemma_lookup_at(loaded_docs, key@, i as int);
                let scope = platform_scope(after_pipeline.platform);
                assert(key@ == scope);
                if has_key(after_pipeline.tasks_configs@, scope) {
                    assert(loaded_docs == after_pipeline.tasks_configs@);
                } else {
                    lemma_lookup_absent(after_pipeline.tasks_configs@, scope);
                }
                assert(platform_tasks_doc(after_pipeline) == before_doc);
                assert(listed_inputs(before_doc.implicit_inputs) == input_views(prefix));
                assert forall|h: TaskHome, n: Seq<char>|
                    #[trigger] task_at(after_pipeline, h, n) is Some implies task_at(
                    self.inner,
                    h,
                    n,
                ) == task_at(after_pipeline, h, n) by {
                    if h is Global {
                        assert(has_key(after_pipeline.tasks_configs@, key@));
                        assert(loaded_docs == after_pipeline.tasks_configs@);
                    }
                }
            }
        }
        let ghost before_workspace = self.inner;
        proof {
            assert(keeps_tasks(after_pipeline, before_workspace));
        }
        self.inner.load_workspace_config();
        if let Some(mut workspace) = self.inner.workspace_config.take() {
            if workspace.projects.is_none() {
                let mut globs: Vec<String> = Vec::new();
                if self.package_globs.len() > 0 {
                    let mut i: usize = 0;
                    while i < self.package_globs.len()
                        invariant
                            i <= self.package_globs@.len(),
                            views(globs@) == views(self.package_globs@.subrange(0, i as int)),
                        decreases self.package_globs@.len() - i,
                    {
                        let ghost before = globs@;
                        globs.push(self.package_globs[i].clone());
                        proof {
                            assert(views(globs@) =~= views(before).push(self.package_globs@[i as int]@));
                            assert(views(self.package_globs@.subrange(0, i + 1)) =~= views(
                                self.package_globs@.subrange(0, i as int),
                            ).push(self.package_globs@[i as int]@));
                        }
                        i = i + 1;
                    }
                    assert(self.package_globs@.subrange(0, self.package_globs@.len() as int)
                        =~= self.package_globs@);
                } else {
                    globs.push(String::from_str("apps/*"));
                    globs.push(String::from_str("packages/*"));
                    proof {
                        assert(views(globs@) =~= default_globs());
                    }
                }
                workspace.projects = Some(WorkspaceProjects::Globs(globs));
            }
            self.inner.workspace_config = Some(workspace);
        }
        proof {
            assert(self.inner.tasks_configs == before_workspace.tasks_configs);
            assert(self.inner.project_configs == before_workspace.project_configs);
            assert forall|h: TaskHome, n: Seq<char>|
                #[trigger] task_at(after_pipeline, h, n) is Some implies task_at(self.inner, h, n)
                    == task_at(after_pipeline, h, n) by {
                assert(task_at(before_workspace, h, n) == task_at(after_pipeline, h, n));
                assert(task_at(self.inner, h, n) == task_at(before_workspace, h, n));
            }
            assert(opt_source(None) == None::<Seq<char>>);
            assert(self.packages == old(self).packages);
            assert(self.package_manager == old(self).package_manager);
            if turbo_json.pipeline is Some {
                let p = turbo_json.pipeline->Some_0@;
                assert forall|k: int|
                    0 <= k < p.len() && last_for_home(
                        self.packages@,
                        p,
                        None,
                        k,
                        p.len() as int,
                    ) implies #[trigger] placed(
                    self.inner,
                    self.packages@,
                    self.package_manager@,
                    p[k],
                    None,
                ) by {
                    lemma_placed_kept(
                        after_pipeline,
                        self.inner,
                        self.packages@,
                        self.package_manager@,
                        p[k],
                        None,
                    );
                }
                assert forall|k: int|
                    0 <= k < p.len() && #[trigger] unknown_entry_at(self.packages@, p, k)
                        implies fails_on_unknown(
                    Ok::<(), MigrateError>(()),
                    before_first(p[k].0@, '#'),
                ) by {
                    assert(entry_ok(self.packages@, p[k]));
                }
            }
        }
        Ok(())
    }

    /// Migrates the `turbo.json` of the project in `project_source`.
    pub fn migrate_project_config(&mut self, project_source: &str, turbo_json: TurboJson) -> (r:
        Result<(), MigrateError>)
        requires
            old(self).inner.wf(),
        ensures
            final(self).inner.wf(),
            r is Ok <==> pipeline_ok(old(self).packages@, turbo_json),
            err_kind(r, old(self).registry_from_graph),
            turbo_json.pipeline is Some ==> keeps_tasks_but(
                old(self).inner,
                final(self).inner,
                old(self).packages@,
                turbo_json.pipeline->Some_0@,
                Some(project_source@),
                turbo_json.pipeline->Some_0@.len() as int,
            ),
            r is Ok && turbo_json.pipeline is Some ==> forall|k: int|
                0 <= k < turbo_json.pipeline->Some_0@.len() && last_for_home(
                    old(self).packages@,
                    turbo_json.pipeline->Some_0@,
                    Some(project_source@),
                    k,
                    turbo_json.pipeline->Some_0@.len() as int,
                ) ==> #[trigger] placed(
                    final(self).inner,
                    old(self).packages@,
                    old(self).package_manager@,
                    turbo_json.pipeline->Some_0@[k],
                    Some(project_source@),
                ),
            turbo_json.pipeline is Some ==> forall|k: int|
                0 <= k < turbo_json.pipeline->Some_0@.len() && #[trigger] unknown_entry_at(
                    old(self).packages@,
                    turbo_json.pipeline->Some_0@,
                    k,
                ) ==> fails_on_unknown(
                    r,
                    before_first(turbo_json.pipeline->Some_0@[k].0@, '#'),
                ),
    {
        self.migrate_pipeline(&turbo_json, Some(project_source))
    }
}

/// A placed pipeline task stays placed where every task is kept.
proof fn lemma_placed_kept(
    a: Migrator,
    b: Migrator,
    ps: Seq<Project>,
    pm: Seq<char>,
    e: (String, TurboTask),
    from_source: Option<Seq<char>>,
)
    requires
        placed(a, ps, pm, e, from_source),
        forall|h: TaskHome, n: Seq<char>|
            #[trigger] task_at(a, h, n) is Some ==> task_at(b, h, n) == task_at(a, h, n),
    ensures
        placed(b, ps, pm, e, from_source),
{
    if let Some(h) = home_of(ps, e.0@, from_source) {
        assert(task_at(a, h.0, h.1) is Some);
    }
}

/// A name refers to one project at most.
pub proof fn lemma_resolves_unique(ps: Seq<Project>, name: Seq<char>, a: int, b: int)
    requires
        resolves_to(ps, name, a),
        resolves_to(ps, name, b),
    ensures
        a == b,
{
    if a < b {
        if ps[b].id@ == name {
            assert(ps[a].id@ != name);
        }
    } else if b < a {
        if ps[a].id@ == name {
            assert(ps[b].id@ != name);
        }
    }
}

/// A dependency written `$NAME` becomes an input on the environment
/// variable `NAME` and names no task, in either dialect.
pub proof fn lemma_env_markers_become_inputs(ps: Seq<Project>, dep: String)
    requires
        starts_with(dep@, "$"@),
    ensures
        turbo_dep_env(dep@) == seq![InputView::EnvVar(dep@.subrange(1, dep@.len() as int))],
        turbo_dep_targets(ps, dep@).len() == 0,
        turbo_dep_ok(ps, dep@),
        dep_env(NxDependsOn::String(dep)) == seq![
            InputView::EnvVar(dep@.subrange(1, dep@.len() as int)),
        ],
        dep_targets(NxDependsOn::String(dep)).len() == 0,
        dep_ok(NxDependsOn::String(dep)),
{
}

} // verus!

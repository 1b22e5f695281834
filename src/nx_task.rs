use vstd::prelude::*;

use crate::config::{
    lookup, non_empty, opt_input_views, opt_output_views, opt_views,
    input_views, output_views, EnvFile, InputPath, InputView, OutputView, PlatformType,
    TaskConfig, TaskOptions, Table,
};
use crate::error::MigrateError;
use crate::json::{convert_value_to_string_without_quotes, get_entry, unquoted_text, JsonValue};
use crate::nx_json::{NxDependsOn, NxInput, NxTargetOptions, StringOrList};
use crate::options::{migrate_options_to_args, options_args};
use crate::paths::{migrate_outputs, output_ok, outputs_of, path_input, path_input_of};
use crate::target::{ScopeView, Target, TargetView};
use crate::text::{
    after_first, before_first, concat, contains_char, has_char, has_prefix, join, same_text,
    split_first, starts_with, tail, views,
};
use crate::tokens::{is_path_or_glob, looks_like_path, rewrite};
use crate::validate::{file_path_is_valid, valid_file_path, valid_id, valid_input, valid_target};

verus! {

/// Whether the source input `s` reads as a path or glob: it looks like one
/// and does not point into other projects with a leading `^`.
pub open spec fn is_source_path(s: Seq<char>) -> bool {
    looks_like_path(s) && !starts_with(s, "^"@)
}

/// Whether moon accepts what the input `i` becomes.
pub open spec fn input_ok(i: NxInput) -> bool {
    match i {
        NxInput::Fileset { fileset } => valid_input(rewrite(fileset@, true)),
        NxInput::Source(s) => !is_source_path(s@) || valid_input(rewrite(s@, true)),
        _ => true,
    }
}

/// What the input `i` becomes; `for_groups` tells that it stands in a named
/// group, where group references are dropped.
pub open spec fn input_of(i: NxInput, for_groups: bool) -> Seq<InputView> {
    match i {
        NxInput::Env { env } => seq![InputView::EnvVar(env@)],
        NxInput::Fileset { fileset } => seq![path_input_of(fileset@)],
        NxInput::Source(s) => if is_source_path(s@) {
            seq![path_input_of(s@)]
        } else if !starts_with(s@, "^"@) && !for_groups {
            seq![InputView::TokenFunc("@group("@ + s@ + ")"@)]
        } else {
            Seq::empty()
        },
        _ => Seq::empty(),
    }
}

/// What the inputs `raw` become, in their order.
pub open spec fn inputs_of(raw: Seq<NxInput>, for_groups: bool) -> Seq<InputView>
    decreases raw.len(),
{
    if raw.len() == 0 {
        Seq::empty()
    } else {
        inputs_of(raw.subrange(0, raw.len() - 1), for_groups) + input_of(
            raw[raw.len() - 1],
            for_groups,
        )
    }
}

/// Translates Nx inputs into moon inputs: environment variables and paths
/// are kept, group references kept outside named groups, and the rest
/// dropped.
pub fn migrate_inputs(raw_inputs: &Vec<NxInput>, for_file_groups: bool) -> (r: Result<
    Vec<InputPath>,
    MigrateError,
>)
    ensures
        r is Ok <==> forall|k: int| 0 <= k < raw_inputs@.len() ==> input_ok(raw_inputs@[k]),
        r matches Ok(v) ==> input_views(v@) == inputs_of(raw_inputs@, for_file_groups),
        r matches Err(e) ==> e is InvalidInput,
{
    let mut inputs: Vec<InputPath> = Vec::new();
    let mut i: usize = 0;
    while i < raw_inputs.len()
        invariant
            i <= raw_inputs@.len(),
            forall|k: int| 0 <= k < i ==> input_ok(raw_inputs@[k]),
            input_views(inputs@) == inputs_of(raw_inputs@.subrange(0, i as int), for_file_groups),
        decreases raw_inputs@.len() - i,
    {
        let ghost before = inputs@;
        match &raw_inputs[i] {
            NxInput::Env { env } => {
                inputs.push(InputPath::EnvVar(env.clone()));
            },
            NxInput::Fileset { fileset } => {
                let p = path_input(fileset.as_str())?;
                inputs.push(p);
            },
            NxInput::Source(source) => {
                let s = source.as_str();
                if is_path_or_glob(s) && !has_prefix(s, "^") {
                    let p = path_input(s)?;
                    inputs.push(p);
                } else if !has_prefix(s, "^") && !for_file_groups {
                    let func = concat(concat("@group(", s).as_str(), ")");
                    inputs.push(InputPath::TokenFunc(func));
                }
            },
            _ => {},
        }
        proof {
            let next = raw_inputs@.subrange(0, i + 1);
            assert(next.subrange(0, i as int) =~= raw_inputs@.subrange(0, i as int));
            assert(input_views(inputs@) =~= input_views(before) + input_of(
                raw_inputs@[i as int],
                for_file_groups,
            ));
        }
        i = i + 1;
    }
    assert(raw_inputs@.subrange(0, raw_inputs@.len() as int) =~= raw_inputs@);
    Ok(inputs)
}

/// The values of a sequence of targets.
pub open spec fn target_views(v: Seq<Target>) -> Seq<TargetView> {
    v.map_values(|t: Target| t@)
}

/// Whether every target that the dependency `d` names is valid.
pub open spec fn dep_ok(d: NxDependsOn) -> bool {
    match d {
        NxDependsOn::Object { dependencies, target, projects, .. } => match projects {
            Some(StringOrList::List(ids)) => forall|k: int|
                0 <= k < ids@.len() ==> valid_id(ids@[k]@) && valid_id(target@),
            Some(StringOrList::String(scope)) => if scope@ == "self"@ {
                valid_target("~:"@ + target@)
            } else {
                valid_target("^:"@ + target@)
            },
            None => if dependencies == Some(true) {
                valid_target("^:"@ + target@)
            } else {
                valid_id(target@)
            },
        },
        NxDependsOn::String(s) => if starts_with(s@, "$"@) {
            true
        } else if starts_with(s@, "^"@) {
            valid_target("^:"@ + s@.subrange(1, s@.len() as int))
        } else {
            valid_id(s@)
        },
    }
}

/// The targets that the dependency `d` names.
pub open spec fn dep_targets(d: NxDependsOn) -> Seq<TargetView> {
    match d {
        NxDependsOn::Object { dependencies, target, projects, .. } => match projects {
            Some(StringOrList::List(ids)) => project_target_views(ids@, target@),
            Some(StringOrList::String(scope)) => seq![
                TargetView {
                    scope: if scope@ == "self"@ {
                        ScopeView::OwnSelf
                    } else {
                        ScopeView::Deps
                    },
                    task: target@,
                },
            ],
            None => if dependencies == Some(true) {
                seq![TargetView { scope: ScopeView::Deps, task: target@ }]
            } else {
                seq![TargetView { scope: ScopeView::OwnSelf, task: target@ }]
            },
        },
        NxDependsOn::String(s) => if starts_with(s@, "$"@) {
            Seq::empty()
        } else if starts_with(s@, "^"@) {
            seq![TargetView { scope: ScopeView::Deps, task: s@.subrange(1, s@.len() as int) }]
        } else {
            seq![TargetView { scope: ScopeView::OwnSelf, task: s@ }]
        },
    }
}

/// The environment variable inputs that the dependency `d` stands for.
pub open spec fn dep_env(d: NxDependsOn) -> Seq<InputView> {
    match d {
        NxDependsOn::String(s) => if starts_with(s@, "$"@) {
            seq![InputView::EnvVar(s@.subrange(1, s@.len() as int))]
        } else {
            Seq::empty()
        },
        _ => Seq::empty(),
    }
}

/// The targets that the dependencies `ds` name, in their order.
pub open spec fn deps_targets(ds: Seq<NxDependsOn>) -> Seq<TargetView>
    decreases ds.len(),
{
    if ds.len() == 0 {
        Seq::empty()
    } else {
        deps_targets(ds.subrange(0, ds.len() - 1)) + dep_targets(ds[ds.len() - 1])
    }
}

/// The environment variable inputs that the dependencies `ds` stand for.
pub open spec fn deps_env(ds: Seq<NxDependsOn>) -> Seq<InputView>
    decreases ds.len(),
{
    if ds.len() == 0 {
        Seq::empty()
    } else {
        deps_env(ds.subrange(0, ds.len() - 1)) + dep_env(ds[ds.len() - 1])
    }
}

/// The targets of `task` in each of the projects `ids`, in their order.
pub open spec fn project_target_views(ids: Seq<String>, task: Seq<char>) -> Seq<TargetView>
    decreases ids.len(),
{
    if ids.len() == 0 {
        Seq::empty()
    } else {
        project_target_views(ids.subrange(0, ids.len() - 1), task).push(
            TargetView { scope: ScopeView::Project(ids[ids.len() - 1]@), task },
        )
    }
}

/// The targets of `task` in each of the projects `ids`.
fn project_targets(ids: &Vec<String>, task: &str) -> (r: Result<Vec<Target>, MigrateError>)
    ensures
        r is Ok <==> forall|k: int| 0 <= k < ids@.len() ==> valid_id(ids@[k]@) && valid_id(task@),
        r matches Ok(v) ==> target_views(v@) == project_target_views(ids@, task@),
        r matches Err(e) ==> e is InvalidTarget,
{
    let mut out: Vec<Target> = Vec::new();
    let mut i: usize = 0;
    while i < ids.len()
        invariant
            i <= ids@.len(),
            forall|k: int| 0 <= k < i ==> valid_id(ids@[k]@) && valid_id(task@),
            target_views(out@) == project_target_views(ids@.subrange(0, i as int), task@),
        decreases ids@.len() - i,
    {
        let t = Target::new(ids[i].as_str(), task)?;
        out.push(t);
        proof {
            let next = ids@.subrange(0, i + 1);
            assert(next.subrange(0, i as int) =~= ids@.subrange(0, i as int));
            assert(target_views(out@) =~= target_views(out@.drop_last()).push(out@.last()@));
        }
        i = i + 1;
    }
    assert(ids@.subrange(0, ids@.len() as int) =~= ids@);
    Ok(out)
}

/// The target of `task` in the scope written `scope`.
fn scoped_target(scope: &str, task: &str) -> (r: Result<Target, MigrateError>)
    requires
        scope@ == "^"@ || scope@ == "~"@,
    ensures
        r is Ok <==> valid_target(
            if scope@ == "~"@ {
                "~:"@
            } else {
                "^:"@
            } + task@,
        ),
        r matches Ok(t) ==> t@ == (TargetView {
            scope: if scope@ == "~"@ {
                ScopeView::OwnSelf
            } else {
                ScopeView::Deps
            },
            task: task@,
        }),
        r matches Err(e) ==> e is InvalidTarget,
{
    let prefix = concat(scope, ":");
    let text = concat(prefix.as_str(), task);
    proof {
        reveal_strlit("^");
        reveal_strlit("~");
        reveal_strlit(":");
        reveal_strlit("^:");
        reveal_strlit("~:");
        assert("~"@[0] != "^"@[0]);
        assert(scope@ + ":"@ =~= if scope@ == "~"@ {
            "~:"@
        } else {
            "^:"@
        });
        assert(text@ =~= scope@ + ":"@ + task@);
        assert(!has_char(scope@, ':'));
        crate::target::lemma_target_of_joined_text(scope@, task@);
    }
    Target::parse(text.as_str())
}

/// Resolves Nx dependencies into moon targets; dependencies on environment
/// variables (`$NAME`) become inputs instead.
pub fn migrate_depends_on(depends_on: &Vec<NxDependsOn>) -> (r: Result<
    (Vec<Target>, Vec<InputPath>),
    MigrateError,
>)
    ensures
        r is Ok <==> forall|k: int| 0 <= k < depends_on@.len() ==> dep_ok(depends_on@[k]),
        r matches Ok(p) ==> target_views(p.0@) == deps_targets(depends_on@) && input_views(p.1@)
            == deps_env(depends_on@),
        r matches Err(e) ==> e is InvalidTarget,
{
    let mut deps: Vec<Target> = Vec::new();
    let mut env: Vec<InputPath> = Vec::new();
    let mut i: usize = 0;
    proof {
        reveal_strlit("self");
        reveal_strlit("$");
        reveal_strlit("^");
        reveal_strlit("~");
    }
    while i < depends_on.len()
        invariant
            i <= depends_on@.len(),
            forall|k: int| 0 <= k < i ==> dep_ok(depends_on@[k]),
            target_views(deps@) == deps_targets(depends_on@.subrange(0, i as int)),
            input_views(env@) == deps_env(depends_on@.subrange(0, i as int)),
        decreases depends_on@.len() - i,
    {
        let ghost before_deps = deps@;
        let ghost before_env = env@;
        proof {
            reveal_strlit("^");
            reveal_strlit("~");
            reveal_strlit("$");
            assert("~"@[0] != "^"@[0]);
        }
        match &depends_on[i] {
            NxDependsOn::Object { dependencies, target, projects, .. } => {
                match projects {
                    Some(StringOrList::List(ids)) => {
                        let mut more = project_targets(ids, target.as_str())?;
                        deps.append(&mut more);
                    },
                    Some(StringOrList::String(scope)) => {
                        let t = if same_text(scope.as_str(), "self") {
                            scoped_target("~", target.as_str())?
                        } else {
                            scoped_target("^", target.as_str())?
                        };
                        deps.push(t);
                    },
                    None => {
                        if *dependencies == Some(true) {
                            let t = scoped_target("^", target.as_str())?;
                            deps.push(t);
                        } else {
                            let t = Target::new_self(target.as_str())?;
                            deps.push(t);
                        }
                    },
                }
            },
            NxDependsOn::String(s) => {
                let s = s.as_str();
                if has_prefix(s, "$") {
                    env.push(InputPath::EnvVar(tail(s, 1)));
                } else if has_prefix(s, "^") {
                    let rest = tail(s, 1);
                    let t = scoped_target("^", rest.as_str())?;
                    deps.push(t);
                } else {
                    let t = Target::new_self(s)?;
                    deps.push(t);
                }
            },
        }
        proof {
            let next = depends_on@.subrange(0, i + 1);
            assert(next.subrange(0, i as int) =~= depends_on@.subrange(0, i as int));
            assert(target_views(deps@) =~= target_views(before_deps) + dep_targets(
                depends_on@[i as int],
            ));
            assert(input_views(env@) =~= input_views(before_env) + dep_env(depends_on@[i as int]));
        }
        i = i + 1;
    }
    assert(depends_on@.subrange(0, depends_on@.len() as int) =~= depends_on@);
    Ok((deps, env))
}

/// The command of a run-script target: the package manager running the
/// `script` option, when that option is a string.
pub open spec fn script_command(options: Option<Vec<(String, JsonValue)>>, pm: Seq<char>) -> Option<
    Seq<char>,
> {
    match options {
        Some(o) => match lookup(o@, "script"@) {
            Some(JsonValue::Str(script)) => Some(pm + " run "@ + script@),
            _ => None,
        },
        None => None,
    }
}

/// The command of a run-commands target: its `command` option when that is a
/// string, else its `commands` option joined with `&&`.
pub open spec fn run_commands_command(options: Option<Vec<(String, JsonValue)>>) -> Option<
    Seq<char>,
> {
    match options {
        Some(o) => match lookup(o@, "command"@) {
            Some(JsonValue::Str(c)) => Some(c@),
            _ => match lookup(o@, "commands"@) {
                Some(JsonValue::Array(items)) => Some(
                    join(items@.map_values(|v: JsonValue| unquoted_text(v)), " && "@),
                ),
                _ => None,
            },
        },
        None => None,
    }
}

/// The command of a target run by another executor: its package (without an
/// npm scope) and its target, or the target alone when the two are equal.
pub open spec fn executor_command(e: Seq<char>) -> Seq<char> {
    let full = before_first(e, ':');
    let target = after_first(e, ':');
    let package = if has_char(full, '/') {
        after_first(full, '/')
    } else {
        full
    };
    if package == target {
        target
    } else {
        package + " "@ + target
    }
}

/// The command that the target `t` names, if any.
pub open spec fn named_command(t: NxTargetOptions, pm: Seq<char>) -> Option<Seq<char>> {
    match t.executor {
        Some(e) => if e@ == "nx:noop"@ {
            Some("noop"@)
        } else if e@ == "nx:run-commands"@ {
            run_commands_command(t.options)
        } else if e@ == "nx:run-script"@ {
            script_command(t.options, pm)
        } else {
            Some(executor_command(e@))
        },
        None => match t.command {
            Some(c) => Some(c@),
            None => None,
        },
    }
}

/// The command of the task that `t` becomes: the one it names, or `noop`.
pub open spec fn command_of(t: NxTargetOptions, pm: Seq<char>) -> Seq<char> {
    match named_command(t, pm) {
        Some(c) => c,
        None => "noop"@,
    }
}

/// Whether `t` runs through `nx:run-commands`.
pub open spec fn runs_commands(t: NxTargetOptions) -> bool {
    t.executor matches Some(e) && e@ == "nx:run-commands"@
}

/// Whether the options of `t` are passed on as arguments: for every executor
/// but run-commands and run-script.
pub open spec fn passes_options(t: NxTargetOptions) -> bool {
    match t.executor {
        Some(e) => e@ != "nx:run-commands"@ && e@ != "nx:run-script"@,
        None => true,
    }
}

/// The arguments of the task that `t` becomes, if any.
pub open spec fn args_of(t: NxTargetOptions) -> Option<Seq<Seq<char>>> {
    if passes_options(t) && t.options is Some && options_args(t.options->Some_0@).len() > 0 {
        Some(options_args(t.options->Some_0@))
    } else {
        None
    }
}

/// The env file of a run-commands target, when its `envFile` option is a
/// string.
pub open spec fn env_file_of(t: NxTargetOptions) -> Option<Seq<char>> {
    match t.options {
        Some(o) => match lookup(o@, "envFile"@) {
            Some(JsonValue::Str(f)) => Some(f@),
            _ => None,
        },
        None => None,
    }
}

/// The inputs of the task that `t` becomes: the environment variables of its
/// dependencies, then its own inputs.
pub open spec fn task_inputs_of(t: NxTargetOptions) -> Seq<InputView> {
    (match t.depends_on {
        Some(ds) => deps_env(ds@),
        None => Seq::empty(),
    }) + (match t.inputs {
        Some(i) => inputs_of(i@, false),
        None => Seq::empty(),
    })
}

/// Whether `t` can be translated: every dependency, input and output is valid,
/// and so is the env file of a run-commands target.
pub open spec fn task_ok(t: NxTargetOptions) -> bool {
    &&& (runs_commands(t) && env_file_of(t) is Some ==> valid_file_path(env_file_of(t)->Some_0))
    &&& (t.depends_on matches Some(ds) ==> forall|k: int| 0 <= k < ds@.len() ==> dep_ok(ds@[k]))
    &&& (t.inputs matches Some(i) ==> forall|k: int| 0 <= k < i@.len() ==> input_ok(i@[k]))
    &&& (t.outputs matches Some(o) ==> forall|k: int| 0 <= k < o@.len() ==> output_ok(o@[k]@))
}

/// The values of an optional sequence of targets.
pub open spec fn opt_target_views(v: Option<Vec<Target>>) -> Option<Seq<TargetView>> {
    match v {
        Some(v) => Some(target_views(v@)),
        None => None,
    }
}

/// The dependencies of the task that `t` becomes, if it names any.
pub open spec fn deps_of(t: NxTargetOptions) -> Option<Seq<TargetView>> {
    match t.depends_on {
        Some(ds) => non_empty(deps_targets(ds@)),
        None => None,
    }
}

/// The outputs of the task that `t` becomes, if it declares any.
pub open spec fn task_outputs_of(t: NxTargetOptions) -> Option<Seq<OutputView>> {
    match t.outputs {
        Some(o) => non_empty(outputs_of(o@)),
        None => None,
    }
}

/// The view of an optional string.
pub open spec fn str_view(v: Option<String>) -> Option<Seq<char>> {
    match v {
        Some(s) => Some(s@),
        None => None,
    }
}

/// The value of key `k` in an optional table.
pub open spec fn opt_lookup(t: Option<Table<String>>, k: Seq<char>) -> Option<String> {
    match t {
        Some(t) => lookup(t.view(), k),
        None => None,
    }
}

/// The text of the last entry of `entries` under key `k`, if any.
pub open spec fn last_value(entries: Seq<(String, JsonValue)>, k: Seq<char>) -> Option<Seq<char>>
    decreases entries.len(),
{
    if entries.len() == 0 {
        None
    } else if entries[entries.len() - 1].0@ == k {
        Some(unquoted_text(entries[entries.len() - 1].1))
    } else {
        last_value(entries.subrange(0, entries.len() - 1), k)
    }
}

/// The working directory of a run-commands target, under `CWD`, when its
/// `cwd` option is a string.
pub open spec fn cwd_value(options: Seq<(String, JsonValue)>, k: Seq<char>) -> Option<Seq<char>> {
    match lookup(options, "cwd"@) {
        Some(JsonValue::Str(c)) => if k == "CWD"@ {
            Some(c@)
        } else {
            None
        },
        _ => None,
    }
}

/// The entries of the `env` option, when it is an object.
pub open spec fn env_entries(options: Seq<(String, JsonValue)>) -> Option<Seq<(String, JsonValue)>> {
    match lookup(options, "env"@) {
        Some(JsonValue::Object(es)) => Some(es@),
        _ => None,
    }
}

/// Whether `env` is the environment of a run-commands target with `options`:
/// its `CWD` from the `cwd` option, then the entries of the `env` option as
/// text, a later entry replacing an earlier one.
pub open spec fn env_matches(env: Option<Table<String>>, options: Option<Vec<(String, JsonValue)>>) -> bool {
    match options {
        None => env is None,
        Some(o) => {
            &&& (env is Some <==> (cwd_value(o@, "CWD"@) is Some || env_entries(o@) is Some))
            &&& forall|k: Seq<char>|
                #[trigger] str_view(opt_lookup(env, k)) == match env_entries(o@) {
                    Some(es) => match last_value(es, k) {
                        Some(v) => Some(v),
                        None => cwd_value(o@, k),
                    },
                    None => cwd_value(o@, k),
                }
        },
    }
}

/// Whether `options` carry the env file that `t` asks for: the `envFile`
/// option of a run-commands target, and nothing otherwise.
pub open spec fn env_file_set(options: Option<TaskOptions>, t: NxTargetOptions) -> bool {
    let wanted = runs_commands(t) && env_file_of(t) is Some;
    match options {
        Some(o) => if wanted {
            o.env_file matches Some(EnvFile::File(x)) && x@ == env_file_of(t)->Some_0
        } else {
            o.env_file is None
        },
        None => !wanted,
    }
}

/// Whether `c` is the moon task that the Nx target `t` becomes, with the
/// package manager `pm`.
pub open spec fn nx_task_spec(c: TaskConfig, t: NxTargetOptions, pm: Seq<char>) -> bool {
    &&& c.command matches Some(x) && x@ == command_of(t, pm)
    &&& opt_views(c.args) == args_of(t)
    &&& opt_target_views(c.deps) == deps_of(t)
    &&& opt_input_views(c.inputs) == non_empty(task_inputs_of(t))
    &&& opt_output_views(c.outputs) == task_outputs_of(t)
    &&& (c.options matches Some(o) ==> o.cache == (if t.cache == Some(true) {
        Some(true)
    } else {
        None
    }) && o.output_style is None)
    &&& (t.cache == Some(true) ==> c.options is Some)
    &&& env_file_set(c.options, t)
    &&& (runs_commands(t) ==> env_matches(c.env, t.options))
    &&& (!runs_commands(t) ==> c.env is None)
    &&& (runs_commands(t) <==> c.platform == Some(PlatformType::System))
    &&& c.local is None && c.extends is None
}

/// Sets the arguments of `config` from the options of `nx_target`, when they
/// give any; the other fields stay as they were.
fn inject_args_into_task(nx_target: &NxTargetOptions, config: &mut TaskConfig)
    requires
        passes_options(*nx_target),
        old(config).args is None,
    ensures
        opt_views(final(config).args) == args_of(*nx_target),
        final(config).command == old(config).command,
        final(config).deps == old(config).deps,
        final(config).inputs == old(config).inputs,
        final(config).outputs == old(config).outputs,
        final(config).env == old(config).env,
        final(config).options == old(config).options,
        final(config).platform == old(config).platform,
        final(config).local == old(config).local,
        final(config).extends == old(config).extends,
{
    if let Some(options) = &nx_target.options {
        let args = migrate_options_to_args(options);
        if args.len() > 0 {
            config.args = Some(args);
        } else {
            proof {
                assert(views(args@).len() == 0);
            }
        }
    }
}

/// The task of a target run by `nx:noop`: the `noop` command and its options
/// as arguments.
fn migrate_noop_task(nx_target: &NxTargetOptions) -> (r: TaskConfig)
    requires
        nx_target.executor matches Some(e) && e@ == "nx:noop"@,
    ensures
        r.command matches Some(c) && c@ == "noop"@,
        opt_views(r.args) == args_of(*nx_target),
        r.deps is None && r.inputs is None && r.outputs is None && r.env is None,
        r.options is None && r.platform is None && r.local is None && r.extends is None,
{
    let mut config = TaskConfig::new();
    config.command = Some(String::from_str("noop"));
    proof {
        reveal_strlit("nx:noop");
        reveal_strlit("nx:run-commands");
        reveal_strlit("nx:run-script");
        assert("nx:noop"@[3] != "nx:run-commands"@[3]);
        assert("nx:noop"@[3] != "nx:run-script"@[3]);
    }
    inject_args_into_task(nx_target, &mut config);
    config
}

/// The task of a target run by `nx:run-commands`: its command or commands,
/// its working directory and environment, and its env file, on the system
/// platform.
fn migrate_run_commands_task(nx_target: &NxTargetOptions) -> (r: Result<TaskConfig, MigrateError>)
    ensures
        r is Ok <==> (env_file_of(*nx_target) is Some ==> valid_file_path(
            env_file_of(*nx_target)->Some_0,
        )),
        r matches Err(e) ==> e is InvalidFilePath,
        r matches Ok(c) ==> {
            &&& c.command matches Some(x) && x@ == match run_commands_command(nx_target.options) {
                Some(cmd) => cmd,
                None => "noop"@,
            }
            &&& c.platform == Some(PlatformType::System)
            &&& (env_file_of(*nx_target) matches Some(f) ==> c.options matches Some(o)
                && o.env_file matches Some(EnvFile::File(x)) && x@ == f && o.cache is None
                && o.output_style is None)
            &&& (env_file_of(*nx_target) is None ==> c.options is None)
            &&& env_matches(c.env, nx_target.options)
            &&& c.args is None && c.deps is None && c.inputs is None && c.outputs is None
            &&& c.local is None && c.extends is None
        },
{
    let mut config = TaskConfig::new();
    config.platform = Some(PlatformType::System);
    proof {
        reveal_strlit("cwd");
        reveal_strlit("env");
        reveal_strlit("CWD");
    }
    proof {
        reveal_strlit("command");
        reveal_strlit("commands");
    }
    if let Some(options) = &nx_target.options {
        match get_entry(options, "command") {
            Some(JsonValue::Str(command)) => {
                config.command = Some(command.clone());
            },
            _ => match get_entry(options, "commands") {
                Some(JsonValue::Array(commands)) => {
                    let mut joined = String::new();
                    let mut i: usize = 0;
                    while i < commands.len()
                        invariant
                            i <= commands@.len(),
                            joined@ == join(
                                commands@.subrange(0, i as int).map_values(
                                    |v: JsonValue| unquoted_text(v),
                                ),
                                " && "@,
                            ),
                        decreases commands@.len() - i,
                    {
                        let one = convert_value_to_string_without_quotes(&commands[i]);
                        if i > 0 {
                            joined = concat(joined.as_str(), " && ");
                        }
                        joined = concat(joined.as_str(), one.as_str());
                        proof {
                            let f = |v: JsonValue| unquoted_text(v);
                            let next = commands@.subrange(0, i + 1).map_values(f);
                            assert(next.subrange(0, i as int) =~= commands@.subrange(
                                0,
                                i as int,
                            ).map_values(f));
                            if i == 0 {
                                assert(next.len() == 1);
                            }
                        }
                        i = i + 1;
                    }
                    assert(commands@.subrange(0, commands@.len() as int) =~= commands@);
                    config.command = Some(joined);
                },
                _ => {},
            },
        }
        if let Some(JsonValue::Str(cwd)) = get_entry(options, "cwd") {
            let mut env = Table::new();
            env.insert(String::from_str("CWD"), cwd.clone());
            config.env = Some(env);
        }
        proof {
            assert forall|k: Seq<char>| #[trigger] str_view(opt_lookup(config.env, k)) == cwd_value(
                options@,
                k,
            ) by {}
        }
        if let Some(JsonValue::Object(envs)) = get_entry(options, "env") {
            let mut env = match config.env {
                Some(e) => e,
                None => Table::new(),
            };
            let mut i: usize = 0;
            while i < envs.len()
                invariant
                    i <= envs@.len(),
                    forall|k: Seq<char>|
                        #[trigger] str_view(lookup(env.view(), k)) == match last_value(
                            envs@.subrange(0, i as int),
                            k,
                        ) {
                            Some(v) => Some(v),
                            None => cwd_value(options@, k),
                        },
                decreases envs@.len() - i,
            {
                let value = convert_value_to_string_without_quotes(&envs[i].1);
                let key = envs[i].0.clone();
                let ghost kv = (key, value);
                env.insert(key, value);
                proof {
                    let next = envs@.subrange(0, i + 1);
                    assert(next.subrange(0, i as int) =~= envs@.subrange(0, i as int));
                    assert(next[i as int] == envs@[i as int]);
                }
                i = i + 1;
            }
            assert(envs@.subrange(0, envs@.len() as int) =~= envs@);
            config.env = Some(env);
        }
        if let Some(JsonValue::Str(env_file)) = get_entry(options, "envFile") {
            if !file_path_is_valid(env_file.as_str()) {
                return Err(MigrateError::InvalidFilePath(env_file.clone()));
            }
            let mut task_options = TaskOptions::new();
            task_options.env_file = Some(EnvFile::File(env_file.clone()));
            config.options = Some(task_options);
        }
    }
    if config.command.is_none() {
        config.command = Some(String::from_str("noop"));
    }
    Ok(config)
}

/// The task of a target run by `nx:run-script`: the package manager running
/// the script.
fn migrate_run_script_task(nx_target: &NxTargetOptions, package_manager: &str) -> (r: TaskConfig)
    ensures
        script_command(nx_target.options, package_manager@) matches Some(c) ==> r.command matches Some(
            x,
        ) && x@ == c,
        script_command(nx_target.options, package_manager@) is None ==> r.command is None,
        r.args is None && r.deps is None && r.inputs is None && r.outputs is None && r.env is None,
        r.options is None && r.platform is None && r.local is None && r.extends is None,
{
    let mut config = TaskConfig::new();
    proof {
        reveal_strlit("script");
    }
    if let Some(options) = &nx_target.options {
        if let Some(JsonValue::Str(script)) = get_entry(options, "script") {
            let head = concat(package_manager, " run ");
            config.command = Some(concat(head.as_str(), script.as_str()));
        }
    }
    config
}

/// The command of a target run by an executor that moon does not know.
fn executor_task_command(executor: &str) -> (r: String)
    ensures
        r@ == executor_command(executor@),
{
    let (full, target) = split_first(executor, ':');
    let package = if contains_char(full.as_str(), '/') {
        split_first(full.as_str(), '/').1
    } else {
        full
    };
    if same_text(package.as_str(), target.as_str()) {
        target
    } else {
        concat(concat(package.as_str(), " ").as_str(), target.as_str())
    }
}

/// Translates one Nx target into a moon task: its command by executor, its
/// options as arguments, its dependencies, inputs and outputs, and caching
/// when the target turns it on.
pub fn migrate_task(nx_target: &NxTargetOptions, package_manager: &str) -> (r: Result<
    TaskConfig,
    MigrateError,
>)
    ensures
        r is Ok <==> task_ok(*nx_target),
        r matches Ok(c) ==> nx_task_spec(c, *nx_target, package_manager@),
{
    proof {
        reveal_strlit("nx:noop");
        reveal_strlit("nx:run-commands");
        reveal_strlit("nx:run-script");
        assert("nx:noop"@[3] != "nx:run-commands"@[3]);
        assert("nx:noop"@[3] != "nx:run-script"@[3]);
        assert("nx:run-commands"@[7] != "nx:run-script"@[7]);
    }
    let mut inject_args = false;
    let mut config = match &nx_target.executor {
        Some(executor) => {
            if same_text(executor.as_str(), "nx:noop") {
                migrate_noop_task(nx_target)
            } else if same_text(executor.as_str(), "nx:run-commands") {
                migrate_run_commands_task(nx_target)?
            } else if same_text(executor.as_str(), "nx:run-script") {
                migrate_run_script_task(nx_target, package_manager)
            } else {
                let mut config = TaskConfig::new();
                config.command = Some(executor_task_command(executor.as_str()));
                inject_args = true;
                config
            }
        },
        None => {
            let mut config = TaskConfig::new();
            if let Some(command) = &nx_target.command {
                config.command = Some(command.clone());
            }
            inject_args = true;
            config
        },
    };
    if inject_args {
        inject_args_into_task(nx_target, &mut config);
    }
    let mut inputs: Vec<InputPath> = Vec::new();
    if let Some(depends_on) = &nx_target.depends_on {
        let (deps, mut env) = migrate_depends_on(depends_on)?;
        if deps.len() > 0 {
            config.deps = Some(deps);
        } else {
            proof {
                assert(target_views(deps@).len() == 0);
            }
        }
        inputs.append(&mut env);
    }
    if let Some(raw_inputs) = &nx_target.inputs {
        let mut more = migrate_inputs(raw_inputs, false)?;
        inputs.append(&mut more);
    }
    proof {
        assert(input_views(inputs@) =~= task_inputs_of(*nx_target));
    }
    if inputs.len() > 0 {
        config.inputs = Some(inputs);
    }
    if let Some(raw_outputs) = &nx_target.outputs {
        let outputs = migrate_outputs(raw_outputs)?;
        if outputs.len() > 0 {
            config.outputs = Some(outputs);
        }
    }
    if nx_target.cache == Some(true) {
        let mut options = match config.options {
            Some(o) => o,
            None => TaskOptions::new(),
        };
        options.cache = Some(true);
        config.options = Some(options);
    }
    if config.command.is_none() {
        config.command = Some(String::from_str("noop"));
    }
    Ok(config)
}

/// A declared output whose rewritten text ends in `/**` becomes, in the task
/// that a target becomes, a glob over the project's directory tree at the
/// same place, never a plain path.
pub proof fn lemma_task_recursive_glob_output(
    c: TaskConfig,
    t: NxTargetOptions,
    pm: Seq<char>,
    i: int,
)
    requires
        nx_task_spec(c, t, pm),
        t.outputs is Some,
        0 <= i < t.outputs->Some_0@.len(),
        crate::text::ends_with(rewrite(t.outputs->Some_0@[i]@, true), "/**"@),
    ensures
        c.outputs is Some,
        output_views(c.outputs->Some_0@)[i] is ProjectGlob,
{
    let o = t.outputs->Some_0@;
    assert(outputs_of(o).len() > 0);
    assert(outputs_of(o)[i] == crate::paths::output_of(o[i]@));
}

} // verus!

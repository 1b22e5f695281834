use vstd::prelude::*;

use crate::config::{
    InheritedTasksConfig, has_key, input_views, lookup, opt_views, table_insert, FileGroups, InputPath, PlatformType,
    ProjectConfig, ProjectType, Table, TaskConfig, Tasks, WorkspaceProjects,
};
use crate::error::MigrateError;
use crate::json::JsonValue;
use crate::nx_json::{
    NxInput, NxJson, NxNamedInputs, NxProjectJson, NxTargetOptions, NxWorkspaceJson, PackageJsonWithNx,
};
use crate::nx_task::{
    input_ok, inputs_of, migrate_inputs, migrate_task, nx_task_spec, task_ok,
};
use crate::options::{migrate_options_to_args, options_args};
use crate::nx_json::NxWorkspaceLayout;
use crate::store::{
    initial_tasks, loaded,
    detect_package_manager, initial_project, lemma_lookup_at, lemma_replace_at, package_manager_of,
    platform_scope, platform_tasks_doc, project_doc, workspace_doc, Migrator,
};
use crate::text::{concat, same_text, views};
use crate::validate::{create_id, valid_id};

verus! {

/// Migrates an Nx workspace: `workspace.json`, `nx.json` and each project's
/// `project.json`, into moon documents.
pub struct NxMigrator {
    pub inner: Migrator,
    pub package_manager: String,
}

/// The task of a per-configuration variant of task `task_id`: it extends the
/// base task and carries only the variant's options as arguments.
pub fn migrate_configuration(task_id: &str, options: &Vec<(String, JsonValue)>) -> (r: TaskConfig)
    ensures
        r.extends matches Some(e) && e@ == task_id@,
        opt_views(r.args) == Some(options_args(options@)),
        r.command is None && r.deps is None && r.inputs is None && r.outputs is None,
        r.env is None && r.options is None && r.platform is None && r.local is None,
{
    let mut config = TaskConfig::new();
    config.extends = Some(String::from_str(task_id));
    config.args = Some(migrate_options_to_args(options));
    config
}

/// Whether the named input group `e` can be migrated: its inputs are valid,
/// and its name is a valid identifier when the group is not left empty.
pub open spec fn group_ok(e: (String, Vec<NxInput>)) -> bool {
    &&& forall|j: int| 0 <= j < e.1@.len() ==> input_ok(#[trigger] e.1@[j])
    &&& inputs_of(e.1@, true).len() > 0 ==> valid_id(e.0@)
}

/// Whether every named input group of `ni` can be migrated.
pub open spec fn named_inputs_ok(ni: Seq<(String, Vec<NxInput>)>) -> bool {
    forall|k: int| 0 <= k < ni.len() ==> group_ok(#[trigger] ni[k])
}

/// Whether no entry of `ni` after `k` has the name of entry `k`.
pub open spec fn last_named<T>(ni: Seq<(String, T)>, k: int) -> bool {
    forall|j: int| k < j < ni.len() ==> (#[trigger] ni[j]).0@ != ni[k].0@
}

/// Whether no entry of `ni` has the name `n`.
pub open spec fn unnamed<T>(ni: Seq<(String, T)>, n: Seq<char>) -> bool {
    forall|j: int| 0 <= j < ni.len() ==> (#[trigger] ni[j]).0@ != n
}

/// The inputs of an optional group.
pub open spec fn group_views(g: Option<Vec<InputPath>>) -> Option<Seq<crate::config::InputView>> {
    match g {
        Some(g) => Some(input_views(g@)),
        None => None,
    }
}

/// Adds the named input groups of `named_inputs` to `groups`; a group that
/// is left empty once its inputs are migrated is not added.
fn migrate_named_inputs(groups: &mut FileGroups, named_inputs: &NxNamedInputs) -> (r: Result<
    (),
    MigrateError,
>)
    ensures
        r is Ok <==> named_inputs_ok(named_inputs@),
        r is Ok ==> forall|k: int|
            0 <= k < named_inputs@.len() && inputs_of(named_inputs@[k].1@, true).len() > 0
                && last_named(named_inputs@, k) ==> group_views(
                lookup(final(groups).view(), #[trigger] named_inputs@[k].0@),
            ) == Some(inputs_of(named_inputs@[k].1@, true)),
        r is Ok ==> forall|n: Seq<char>|
            has_key(old(groups).view(), n) ==> #[trigger] has_key(final(groups).view(), n),
        r is Ok ==> forall|n: Seq<char>|
            unnamed(named_inputs@, n) ==> #[trigger] lookup(final(groups).view(), n) == lookup(
                old(groups).view(),
                n,
            ),
{
    let mut i: usize = 0;
    while i < named_inputs.len()
        invariant
            i <= named_inputs@.len(),
            forall|k: int| 0 <= k < i ==> group_ok(#[trigger] named_inputs@[k]),
            forall|k: int|
                0 <= k < i && inputs_of(named_inputs@[k].1@, true).len() > 0 && (forall|j: int|
                    k < j < i ==> (#[trigger] named_inputs@[j]).0@ != named_inputs@[k].0@)
                    ==> group_views(lookup(groups.view(), #[trigger] named_inputs@[k].0@)) == Some(
                    inputs_of(named_inputs@[k].1@, true),
                ),
            forall|n: Seq<char>| has_key(old(groups).view(), n) ==> #[trigger] has_key(groups.view(), n),
            forall|n: Seq<char>|
                (forall|j: int| 0 <= j < i ==> (#[trigger] named_inputs@[j]).0@ != n)
                    ==> #[trigger] lookup(groups.view(), n) == lookup(old(groups).view(), n),
        decreases named_inputs@.len() - i,
    {
        let group = match migrate_inputs(&named_inputs[i].1, true) {
            Ok(g) => g,
            Err(e) => {
                proof {
                    assert(!group_ok(named_inputs@[i as int]));
                }
                return Err(e);
            },
        };
        let ghost before = groups.view();
        if group.len() > 0 {
            let id = match create_id(named_inputs[i].0.as_str()) {
                Ok(id) => id,
                Err(e) => {
                    proof {
                        assert(!group_ok(named_inputs@[i as int]));
                    }
                    return Err(e);
                },
            };
            let ghost g = group;
            groups.insert(id, group);
            proof {
                assert(group_views(Some(g)) == Some(inputs_of(named_inputs@[i as int].1@, true)));
            }
        } else {
            proof {
                assert(input_views(group@).len() == 0);
            }
        }
        proof {
            assert(group_ok(named_inputs@[i as int]));
            assert forall|k: int|
                0 <= k < i + 1 && inputs_of(named_inputs@[k].1@, true).len() > 0 && (forall|j: int|
                    k < j < i + 1 ==> (#[trigger] named_inputs@[j]).0@ != named_inputs@[k].0@)
                    implies group_views(lookup(groups.view(), #[trigger] named_inputs@[k].0@)) == Some(
                    inputs_of(named_inputs@[k].1@, true),
                ) by {
                if k < i {
                    assert(named_inputs@[i as int].0@ != named_inputs@[k].0@);
                    assert(lookup(groups.view(), named_inputs@[k].0@) == lookup(before, named_inputs@[k].0@));
                }
            }
        }
        i = i + 1;
    }
    Ok(())
}

/// Inserting into a table keeps its keys and adds the new one.
pub proof fn lemma_insert_keeps_keys<V>(
    before: Seq<(String, V)>,
    after: Seq<(String, V)>,
    key: String,
    v: V,
)
    requires
        after == table_insert(before, key, v),
    ensures
        has_key(after, key@),
        forall|n: Seq<char>| has_key(before, n) ==> has_key(after, n),
{
    if has_key(before, key@) {
        crate::config::lemma_first_key_exists(before, key@);
        let j = choose|j: int| crate::config::first_key_at(before, key@, j);
        assert(after[j].0@ == key@);
        assert forall|n: Seq<char>| has_key(before, n) implies has_key(after, n) by {
            let i = choose|i: int| 0 <= i < before.len() && before[i].0@ == n;
            if i == j {
                assert(after[j].0@ == n);
            } else {
                assert(after[i].0@ == n);
            }
        }
    } else {
        assert(after[before.len() as int].0@ == key@);
        assert forall|n: Seq<char>| has_key(before, n) implies has_key(after, n) by {
            let i = choose|i: int| 0 <= i < before.len() && before[i].0@ == n;
            assert(after[i].0@ == n);
        }
    }
}

/// The kind that an Nx project type names, if any.
pub open spec fn project_type_of(t: Seq<char>) -> Option<ProjectType> {
    if t == "library"@ || t == "lib"@ {
        Some(ProjectType::Library)
    } else if t == "application"@ || t == "app"@ {
        Some(ProjectType::Application)
    } else {
        None
    }
}

/// The strings of an optional list, or nothing.
pub open spec fn listed(v: Option<Vec<String>>) -> Seq<Seq<char>> {
    match v {
        Some(v) => views(v@),
        None => Seq::empty(),
    }
}

/// The project dependencies that `json` adds, if any.
pub open spec fn added_deps(json: NxProjectJson) -> Option<Seq<Seq<char>>> {
    match json.implicit_dependencies {
        Some(ds) => if ds@.len() > 0 {
            Some(views(ds@))
        } else {
            None
        },
        None => None,
    }
}

/// The kind of project that `json` names, if any.
pub open spec fn named_type(json: NxProjectJson) -> Option<ProjectType> {
    match json.project_type {
        Some(t) => project_type_of(t@),
        None => None,
    }
}

/// Whether `after` is `before` with the settings of `json` merged in: the
/// fields that `json` sets are set or extended, and all others are kept.
pub open spec fn merged_project(before: ProjectConfig, after: ProjectConfig, json: NxProjectJson) -> bool {
    &&& (json.name matches Some(n) ==> after.id matches Some(id) && id@ == n@)
    &&& (json.name is None ==> after.id == before.id)
    &&& (added_deps(json) matches Some(ds) ==> opt_views(after.depends_on) == Some(
        listed(before.depends_on) + ds,
    ))
    &&& (added_deps(json) is None ==> after.depends_on == before.depends_on)
    &&& (json.tags matches Some(ts) ==> opt_views(after.tags) == Some(
        listed(before.tags) + views(ts@),
    ))
    &&& (json.tags is None ==> after.tags == before.tags)
    &&& (named_type(json) is Some ==> after.type_of == named_type(json))
    &&& (named_type(json) is None ==> after.type_of == before.type_of)
    &&& (json.named_inputs is None ==> after.file_groups == before.file_groups)
    &&& (json.named_inputs matches Some(ni) ==> groups_merged(before.file_groups, after.file_groups, ni@))
    &&& (json.named_inputs matches Some(ni) ==> (ni@.len() == 0 ==> after.file_groups
        == before.file_groups))
    &&& (json.targets is None ==> after.tasks == before.tasks)
    &&& (json.targets matches Some(ts) ==> after.tasks matches Some(tasks) && forall|k: int|
        0 <= k < ts@.len() ==> has_key(tasks.view(), ts@[k].0@))
    &&& (json.targets is Some ==> keys_kept(before.tasks, after.tasks))
    &&& after.language == before.language
    &&& after.platform == before.platform
}

/// Whether the tasks `tasks` hold every target of `json` as the task it
/// becomes, with its variants, when the ids the targets write are apart.
pub open spec fn targets_placed(tasks: Option<Tasks>, json: NxProjectJson, pm: Seq<char>) -> bool {
    match json.targets {
        Some(ts) => ids_apart(ts@) ==> match tasks {
            Some(t) => forall|k: int|
                0 <= k < ts@.len() ==> placed_target(t.view(), #[trigger] ts@[k], pm),
            None => false,
        },
        None => true,
    }
}

/// Whether the document of the project in `source` holds the targets of
/// `json` as `targets_placed` says.
pub open spec fn project_targets_placed(m: Migrator, source: Seq<char>, json: NxProjectJson, pm: Seq<
    char,
>) -> bool {
    match lookup(m.project_configs@, source) {
        Some(doc) => targets_placed(doc.tasks, json, pm),
        None => false,
    }
}

/// Whether `project_json` can be migrated: every identifier it names is
/// valid, and so is every input and target.
pub open spec fn project_json_ok(json: NxProjectJson) -> bool {
    &&& (json.name matches Some(n) ==> valid_id(n@))
    &&& (json.implicit_dependencies matches Some(ds) ==> forall|k: int|
        0 <= k < ds@.len() ==> valid_id(#[trigger] ds@[k]@))
    &&& (json.named_inputs matches Some(ni) ==> named_inputs_ok(ni@))
    &&& (json.tags matches Some(ts) ==> forall|k: int|
        0 <= k < ts@.len() ==> valid_id(#[trigger] ts@[k]@))
    &&& (json.targets matches Some(ts) ==> targets_ok(ts@))
}

/// Whether every key of the optional table `before` is in `after`.
pub open spec fn keys_kept<V>(before: Option<Table<V>>, after: Option<Table<V>>) -> bool {
    match before {
        Some(b) => match after {
            Some(a) => forall|n: Seq<char>| has_key(b.view(), n) ==> #[trigger] has_key(a.view(), n),
            None => false,
        },
        None => true,
    }
}

/// Whether the input groups `after` are `before` with the named groups `ni`
/// merged in: each non-empty group under its name, the last of a name
/// winning, and every other group kept as it was.
pub open spec fn groups_merged(
    before: Option<FileGroups>,
    after: Option<FileGroups>,
    ni: Seq<(String, Vec<NxInput>)>,
) -> bool {
    ni.len() > 0 ==> {
        &&& after is Some
        &&& keys_kept(before, after)
        &&& forall|k: int|
            0 <= k < ni.len() && inputs_of(ni[k].1@, true).len() > 0 && last_named(ni, k)
                ==> group_views(lookup(after->Some_0.view(), #[trigger] ni[k].0@)) == Some(
                inputs_of(ni[k].1@, true),
            )
        &&& forall|n: Seq<char>|
            unnamed(ni, n) ==> #[trigger] lookup(after->Some_0.view(), n) == match before {
                Some(b) => lookup(b.view(), n),
                None => None,
            }
    }
}

/// Whether the document of the project in `source` is, in `after`, the one
/// of `before` with the settings of `json` merged in.
pub open spec fn project_merged(before: Migrator, after: Migrator, source: Seq<char>, json: NxProjectJson) -> bool {
    match lookup(after.project_configs@, source) {
        Some(doc) => merged_project(project_doc(before, source), doc, json),
        None => false,
    }
}

/// The ids of `raw` appended to `list`.
fn push_ids(list: &mut Vec<String>, raw: &Vec<String>) -> (r: Result<(), MigrateError>)
    ensures
        r is Ok ==> views(final(list)@) == views(old(list)@) + views(raw@),
        r is Ok <==> forall|k: int| 0 <= k < raw@.len() ==> valid_id(raw@[k]@),
{
    let mut i: usize = 0;
    while i < raw.len()
        invariant
            i <= raw@.len(),
            views(list@) == views(old(list)@) + views(raw@.subrange(0, i as int)),
            forall|k: int| 0 <= k < i ==> valid_id(raw@[k]@),
        decreases raw@.len() - i,
    {
        let id = create_id(raw[i].as_str())?;
        let ghost before = list@;
        list.push(id);
        proof {
            assert(views(list@) =~= views(before).push(id@));
            assert(views(raw@.subrange(0, i + 1)) =~= views(raw@.subrange(0, i as int)).push(
                raw@[i as int]@,
            ));
        }
        i = i + 1;
    }
    assert(raw@.subrange(0, raw@.len() as int) =~= raw@);
    Ok(())
}

/// Merges the settings of `project_json` into the project document `config`.
fn apply_project_json(
    config: &mut ProjectConfig,
    project_json: &NxProjectJson,
    package_manager: &str,
) -> (r: Result<(), MigrateError>)
    ensures
        r is Ok <==> project_json_ok(*project_json),
        r is Ok ==> merged_project(*old(config), *final(config), *project_json),
        r is Ok ==> targets_placed(final(config).tasks, *project_json, package_manager@),
{
    if let Some(name) = &project_json.name {
        config.id = Some(create_id(name.as_str())?);
    }
    if let Some(implicit_dependencies) = &project_json.implicit_dependencies {
        if implicit_dependencies.len() > 0 {
            let mut depends_on = match config.depends_on.take() {
                Some(d) => d,
                None => Vec::new(),
            };
            let res = push_ids(&mut depends_on, implicit_dependencies);
            config.depends_on = Some(depends_on);
            res?;
        }
    }
    if let Some(named_inputs) = &project_json.named_inputs {
        if named_inputs.len() > 0 {
            let mut groups = match config.file_groups.take() {
                Some(g) => g,
                None => Table::new(),
            };
            let res = migrate_named_inputs(&mut groups, named_inputs);
            config.file_groups = Some(groups);
            res?;
        }
    }
    if let Some(project_type) = &project_json.project_type {
        let t = project_type.as_str();
        proof {
            reveal_strlit("library");
            reveal_strlit("lib");
            reveal_strlit("application");
            reveal_strlit("app");
        }
        if same_text(t, "library") || same_text(t, "lib") {
            config.type_of = Some(ProjectType::Library);
        } else if same_text(t, "application") || same_text(t, "app") {
            config.type_of = Some(ProjectType::Application);
        }
    }
    if let Some(raw_tags) = &project_json.tags {
        let mut tags = match config.tags.take() {
            Some(t) => t,
            None => Vec::new(),
        };
        let res = push_ids(&mut tags, raw_tags);
        config.tags = Some(tags);
        res?;
    }
    if let Some(targets) = &project_json.targets {
        let mut tasks = match config.tasks.take() {
            Some(t) => t,
            None => Table::new(),
        };
        let res = migrate_targets(&mut tasks, targets, package_manager);
        config.tasks = Some(tasks);
        res?;
    }
    Ok(())
}

/// Whether `o` is the task that the Nx target `t` becomes.
pub open spec fn task_is(o: Option<TaskConfig>, t: NxTargetOptions, pm: Seq<char>) -> bool {
    match o {
        Some(c) => nx_task_spec(c, t, pm),
        None => false,
    }
}

/// Whether the target defaults entry `e` can be migrated.
pub open spec fn default_ok(e: (String, NxTargetOptions)) -> bool {
    valid_id(e.0@) && task_ok(e.1)
}

/// Whether every target defaults entry of `ts` can be migrated.
pub open spec fn defaults_ok(ts: Seq<(String, NxTargetOptions)>) -> bool {
    forall|k: int| 0 <= k < ts.len() ==> default_ok(#[trigger] ts[k])
}

/// The ids of the per-configuration variants of the target `e`.
pub open spec fn variants_of(e: (String, NxTargetOptions)) -> Seq<Seq<char>> {
    match e.1.configurations {
        Some(cs) => cs@.map_values(|c: (String, Vec<(String, JsonValue)>)| e.0@ + "."@ + c.0@),
        None => Seq::empty(),
    }
}

/// Whether the target `e` can be migrated: its name, its task, and the ids of
/// its variants are valid.
pub open spec fn target_ok(e: (String, NxTargetOptions)) -> bool {
    &&& default_ok(e)
    &&& forall|c: int| 0 <= c < variants_of(e).len() ==> valid_id(#[trigger] variants_of(e)[c])
}

/// Whether every target of `ts` can be migrated.
pub open spec fn targets_ok(ts: Seq<(String, NxTargetOptions)>) -> bool {
    forall|k: int| 0 <= k < ts.len() ==> target_ok(#[trigger] ts[k])
}

/// Whether no variant of the targets of `ts` before `end` has the id `n`.
pub open spec fn no_variant_named(ts: Seq<(String, NxTargetOptions)>, n: Seq<char>, end: int) -> bool {
    forall|j: int, c: int|
        0 <= j < end && 0 <= c < variants_of(ts[j]).len() ==> #[trigger] variants_of(ts[j])[c] != n
}

/// Adds a task for each of `targets` to `tasks`, with no variants.
fn migrate_targets_without_variants(
    tasks: &mut Tasks,
    targets: &Vec<(String, NxTargetOptions)>,
    package_manager: &str,
) -> (r: Result<(), MigrateError>)
    ensures
        r is Ok <==> defaults_ok(targets@),
        r is Ok ==> forall|k: int|
            0 <= k < targets@.len() ==> has_key(final(tasks).view(), #[trigger] targets@[k].0@),
        r is Ok ==> forall|k: int|
            0 <= k < targets@.len() && last_named(targets@, k) ==> task_is(
                lookup(final(tasks).view(), #[trigger] targets@[k].0@),
                targets@[k].1,
                package_manager@,
            ),
        r is Ok ==> forall|n: Seq<char>|
            has_key(old(tasks).view(), n) ==> #[trigger] has_key(final(tasks).view(), n),
        r is Ok ==> forall|n: Seq<char>|
            unnamed(targets@, n) ==> #[trigger] lookup(final(tasks).view(), n) == lookup(
                old(tasks).view(),
                n,
            ),
{
    let mut i: usize = 0;
    while i < targets.len()
        invariant
            i <= targets@.len(),
            forall|k: int| 0 <= k < i ==> default_ok(#[trigger] targets@[k]),
            forall|k: int| 0 <= k < i ==> has_key(tasks.view(), #[trigger] targets@[k].0@),
            forall|k: int|
                0 <= k < i && (forall|j: int|
                    k < j < i ==> (#[trigger] targets@[j]).0@ != targets@[k].0@) ==> task_is(
                    lookup(tasks.view(), #[trigger] targets@[k].0@),
                    targets@[k].1,
                    package_manager@,
                ),
            forall|n: Seq<char>| has_key(old(tasks).view(), n) ==> #[trigger] has_key(tasks.view(), n),
            forall|n: Seq<char>|
                (forall|j: int| 0 <= j < i ==> (#[trigger] targets@[j]).0@ != n)
                    ==> #[trigger] lookup(tasks.view(), n) == lookup(old(tasks).view(), n),
        decreases targets@.len() - i,
    {
        let task_id = match create_id(targets[i].0.as_str()) {
            Ok(id) => id,
            Err(e) => {
                proof {
                    assert(!default_ok(targets@[i as int]));
                }
                return Err(e);
            },
        };
        let task = match migrate_task(&targets[i].1, package_manager) {
            Ok(t) => t,
            Err(e) => {
                proof {
                    assert(!default_ok(targets@[i as int]));
                }
                return Err(e);
            },
        };
        let ghost before = tasks.view();
        tasks.insert(task_id, task);
        proof {
            assert(default_ok(targets@[i as int]));
            assert forall|k: int|
                0 <= k < i + 1 && (forall|j: int|
                    k < j < i + 1 ==> (#[trigger] targets@[j]).0@ != targets@[k].0@) implies task_is(
                lookup(tasks.view(), #[trigger] targets@[k].0@),
                targets@[k].1,
                package_manager@,
            ) by {
                if k < i {
                    assert(targets@[i as int].0@ != targets@[k].0@);
                }
            }
        }
        i = i + 1;
    }
    Ok(())
}

/// Whether `o` is the task of a per-configuration variant of the task `base`
/// with the options `opts`: it extends the base task and carries only the
/// options as arguments.
pub open spec fn variant_is(o: Option<TaskConfig>, base: Seq<char>, opts: Vec<(String, JsonValue)>) -> bool {
    match o {
        Some(t) => {
            &&& t.extends matches Some(x) && x@ == base
            &&& opt_views(t.args) == Some(options_args(opts@))
            &&& t.command is None && t.deps is None && t.inputs is None && t.outputs is None
            &&& t.env is None && t.options is None && t.platform is None && t.local is None
        },
        None => false,
    }
}

/// The configurations of the target `e`.
pub open spec fn configs_of(e: (String, NxTargetOptions)) -> Seq<(String, Vec<(String, JsonValue)>)> {
    match e.1.configurations {
        Some(cs) => cs@,
        None => Seq::empty(),
    }
}

/// Whether the tasks `v` hold the target `e` as the task it becomes, and each
/// of its configurations as a variant of it.
pub open spec fn placed_target(v: Seq<(String, TaskConfig)>, e: (String, NxTargetOptions), pm: Seq<char>) -> bool {
    &&& task_is(lookup(v, e.0@), e.1, pm)
    &&& forall|c: int|
        0 <= c < configs_of(e).len() && last_named(configs_of(e), c) ==> variant_is(
            lookup(v, e.0@ + "."@ + (#[trigger] configs_of(e)[c]).0@),
            e.0@,
            configs_of(e)[c].1,
        )
}

/// Whether the ids that the targets `ts` write are apart: no two targets
/// share a name, and no variant id is a target's name or another target's
/// variant id.
pub open spec fn ids_apart(ts: Seq<(String, NxTargetOptions)>) -> bool {
    &&& forall|a: int, b: int|
        0 <= a < ts.len() && 0 <= b < ts.len() && a != b ==> (#[trigger] ts[a]).0@ != (
        #[trigger] ts[b]).0@
    &&& forall|a: int, b: int, c: int|
        0 <= a < ts.len() && 0 <= b < ts.len() && 0 <= c < variants_of(ts[b]).len() ==> #[trigger] variants_of(
            ts[b],
        )[c] != (#[trigger] ts[a]).0@
    &&& forall|a: int, b: int, c: int, d: int|
        0 <= a < ts.len() && 0 <= b < ts.len() && a != b && 0 <= c < variants_of(ts[a]).len() && 0
            <= d < variants_of(ts[b]).len() ==> #[trigger] variants_of(ts[a])[c]
            != #[trigger] variants_of(ts[b])[d]
}

/// Equal texts after a common prefix are equal.
proof fn lemma_concat_cancel(p: Seq<char>, x: Seq<char>, y: Seq<char>)
    requires
        p + x == p + y,
    ensures
        x == y,
{
    assert((p + x).subrange(p.len() as int, (p + x).len() as int) =~= x);
    assert((p + y).subrange(p.len() as int, (p + y).len() as int) =~= y);
}

/// A target stays placed where none of its ids changed value.
proof fn lemma_target_kept(
    v1: Seq<(String, TaskConfig)>,
    v2: Seq<(String, TaskConfig)>,
    e: (String, NxTargetOptions),
    pm: Seq<char>,
)
    requires
        placed_target(v1, e, pm),
        lookup(v2, e.0@) == lookup(v1, e.0@),
        forall|c: int|
            0 <= c < configs_of(e).len() ==> lookup(
                v2,
                e.0@ + "."@ + (#[trigger] configs_of(e)[c]).0@,
            ) == lookup(v1, e.0@ + "."@ + configs_of(e)[c].0@),
    ensures
        placed_target(v2, e, pm),
{
    assert forall|c: int|
        0 <= c < configs_of(e).len() && last_named(configs_of(e), c) implies variant_is(
        lookup(v2, e.0@ + "."@ + (#[trigger] configs_of(e)[c]).0@),
        e.0@,
        configs_of(e)[c].1,
    ) by {
        assert(lookup(v2, e.0@ + "."@ + configs_of(e)[c].0@) == lookup(
            v1,
            e.0@ + "."@ + configs_of(e)[c].0@,
        ));
    }
}

/// Adds the per-configuration variants `configurations` of task `task_id`
/// to `tasks`, each extending the task.
fn add_variants(
    tasks: &mut Tasks,
    task_id: &String,
    configurations: &Vec<(String, Vec<(String, JsonValue)>)>,
) -> (r: Result<(), MigrateError>)
    ensures
        r is Ok <==> forall|c: int|
            0 <= c < configurations@.len() ==> valid_id(
                task_id@ + "."@ + (#[trigger] configurations@[c]).0@,
            ),
        r is Ok ==> forall|c: int|
            0 <= c < configurations@.len() ==> has_key(
                final(tasks).view(),
                task_id@ + "."@ + (#[trigger] configurations@[c]).0@,
            ),
        r is Ok ==> forall|n: Seq<char>|
            (forall|c: int|
                0 <= c < configurations@.len() ==> task_id@ + "."@ + (
                #[trigger] configurations@[c]).0@ != n) ==> #[trigger] lookup(final(tasks).view(), n)
                == lookup(old(tasks).view(), n),
        r is Ok ==> forall|n: Seq<char>|
            has_key(old(tasks).view(), n) ==> #[trigger] has_key(final(tasks).view(), n),
        r is Ok ==> forall|c: int|
            0 <= c < configurations@.len() && last_named(configurations@, c) ==> variant_is(
                lookup(final(tasks).view(), task_id@ + "."@ + (#[trigger] configurations@[c]).0@),
                task_id@,
                configurations@[c].1,
            ),
{
    let mut j: usize = 0;
    while j < configurations.len()
        invariant
            j <= configurations@.len(),
            forall|c: int|
                0 <= c < j && (forall|d: int|
                    c < d < j ==> (#[trigger] configurations@[d]).0@ != configurations@[c].0@)
                    ==> variant_is(
                    lookup(tasks.view(), task_id@ + "."@ + (#[trigger] configurations@[c]).0@),
                    task_id@,
                    configurations@[c].1,
                ),
            forall|c: int|
                0 <= c < j ==> valid_id(task_id@ + "."@ + (#[trigger] configurations@[c]).0@),
            forall|c: int|
                0 <= c < j ==> has_key(tasks.view(), task_id@ + "."@ + (
                #[trigger] configurations@[c]).0@),
            forall|n: Seq<char>|
                (forall|c: int|
                    0 <= c < j ==> task_id@ + "."@ + (#[trigger] configurations@[c]).0@ != n)
                    ==> #[trigger] lookup(tasks.view(), n) == lookup(old(tasks).view(), n),
            forall|n: Seq<char>| has_key(old(tasks).view(), n) ==> #[trigger] has_key(tasks.view(), n),
        decreases configurations@.len() - j,
    {
        let name = concat(concat(task_id.as_str(), ".").as_str(), configurations[j].0.as_str());
        let variant_id = create_id(name.as_str())?;
        let variant = migrate_configuration(task_id.as_str(), &configurations[j].1);
        proof {
            reveal_strlit(".");
        }
        let ghost before = tasks.view();
        let ghost vv = variant;
        tasks.insert(variant_id, variant);
        proof {
            assert(variant_is(Some(vv), task_id@, configurations@[j as int].1));
            assert forall|c: int|
                0 <= c < j + 1 && (forall|d: int|
                    c < d < j + 1 ==> (#[trigger] configurations@[d]).0@ != configurations@[c].0@)
                    implies variant_is(
                lookup(tasks.view(), task_id@ + "."@ + (#[trigger] configurations@[c]).0@),
                task_id@,
                configurations@[c].1,
            ) by {
                if c < j {
                    assert(configurations@[j as int].0@ != configurations@[c].0@);
                    if task_id@ + "."@ + configurations@[c].0@ == task_id@ + "."@
                        + configurations@[j as int].0@ {
                        assert(task_id@ + "."@ + configurations@[c].0@ == (task_id@ + "."@)
                            + configurations@[c].0@);
                        lemma_concat_cancel(
                            task_id@ + "."@,
                            configurations@[c].0@,
                            configurations@[j as int].0@,
                        );
                    }
                }
            }
        }
        j = j + 1;
    }
    Ok(())
}

/// After target `i` of `ts` is written, the targets before it are still
/// placed, and so is target `i`.
proof fn lemma_step_placed(
    before: Seq<(String, TaskConfig)>,
    after_base: Seq<(String, TaskConfig)>,
    after: Seq<(String, TaskConfig)>,
    ts: Seq<(String, NxTargetOptions)>,
    i: int,
    pm: Seq<char>,
)
    requires
        0 <= i < ts.len(),
        ids_apart(ts),
        forall|k: int| 0 <= k < i ==> placed_target(before, #[trigger] ts[k], pm),
        task_is(lookup(after_base, ts[i].0@), ts[i].1, pm),
        forall|n: Seq<char>| n != ts[i].0@ ==> #[trigger] lookup(after_base, n) == lookup(before, n),
        forall|n: Seq<char>|
            (forall|c: int| 0 <= c < variants_of(ts[i]).len() ==> #[trigger] variants_of(ts[i])[c] != n)
                ==> #[trigger] lookup(after, n) == lookup(after_base, n),
        forall|c: int|
            0 <= c < configs_of(ts[i]).len() && last_named(configs_of(ts[i]), c) ==> variant_is(
                lookup(after, ts[i].0@ + "."@ + (#[trigger] configs_of(ts[i])[c]).0@),
                ts[i].0@,
                configs_of(ts[i])[c].1,
            ),
    ensures
        forall|k: int| 0 <= k < i + 1 ==> placed_target(after, #[trigger] ts[k], pm),
{
    let e = ts[i];
    assert forall|c: int| 0 <= c < variants_of(e).len() implies #[trigger] variants_of(e)[c]
        == e.0@ + "."@ + configs_of(e)[c].0@ by {}
    assert(lookup(after, e.0@) == lookup(after_base, e.0@)) by {
        assert forall|c: int| 0 <= c < variants_of(e).len() implies #[trigger] variants_of(e)[c]
            != e.0@ by {
            assert(variants_of(ts[i])[c] != ts[i].0@);
        }
    }
    assert forall|k: int| 0 <= k < i + 1 implies placed_target(after, #[trigger] ts[k], pm) by {
        if k < i {
            let f = ts[k];
            assert(f.0@ != e.0@);
            assert forall|c: int| 0 <= c < variants_of(e).len() implies #[trigger] variants_of(e)[c]
                != f.0@ by {
                assert(variants_of(ts[i])[c] != ts[k].0@);
            }
            assert(lookup(after, f.0@) == lookup(before, f.0@));
            assert forall|c: int| 0 <= c < configs_of(f).len() implies lookup(
                after,
                f.0@ + "."@ + (#[trigger] configs_of(f)[c]).0@,
            ) == lookup(before, f.0@ + "."@ + configs_of(f)[c].0@) by {
                let n = f.0@ + "."@ + configs_of(f)[c].0@;
                assert(variants_of(f)[c] == n);
                assert(variants_of(ts[k])[c] != ts[i].0@);
                assert forall|d: int| 0 <= d < variants_of(e).len() implies #[trigger] variants_of(
                    e,
                )[d] != n by {
                    assert(variants_of(ts[i])[d] != variants_of(ts[k])[c]);
                }
            }
            lemma_target_kept(before, after, f, pm);
        }
    }
}

/// Adds a task for each of `targets` to `tasks`, and one for each of their
/// per-configuration variants, named `<task>.<configuration>`.
fn migrate_targets(
    tasks: &mut Tasks,
    targets: &Vec<(String, NxTargetOptions)>,
    package_manager: &str,
) -> (r: Result<(), MigrateError>)
    ensures
        r is Ok <==> targets_ok(targets@),
        r is Ok ==> forall|k: int|
            0 <= k < targets@.len() ==> has_key(final(tasks).view(), #[trigger] targets@[k].0@),
        r is Ok ==> forall|n: Seq<char>|
            has_key(old(tasks).view(), n) ==> #[trigger] has_key(final(tasks).view(), n),
        r is Ok && ids_apart(targets@) ==> forall|k: int|
            0 <= k < targets@.len() ==> placed_target(
                final(tasks).view(),
                #[trigger] targets@[k],
                package_manager@,
            ),
{
    let mut i: usize = 0;
    while i < targets.len()
        invariant
            i <= targets@.len(),
            forall|k: int| 0 <= k < i ==> target_ok(#[trigger] targets@[k]),
            forall|k: int| 0 <= k < i ==> has_key(tasks.view(), #[trigger] targets@[k].0@),
            forall|n: Seq<char>| has_key(old(tasks).view(), n) ==> #[trigger] has_key(tasks.view(), n),
            ids_apart(targets@) ==> forall|k: int|
                0 <= k < i ==> placed_target(tasks.view(), #[trigger] targets@[k], package_manager@),
        decreases targets@.len() - i,
    {
        let target = &targets[i].1;
        let ghost e = targets@[i as int];
        let task_id = match create_id(targets[i].0.as_str()) {
            Ok(id) => id,
            Err(err) => {
                proof {
                    assert(!target_ok(e));
                }
                return Err(err);
            },
        };
        let task = match migrate_task(target, package_manager) {
            Ok(t) => t,
            Err(err) => {
                proof {
                    assert(!target_ok(e));
                }
                return Err(err);
            },
        };
        let ghost before = tasks.view();
        tasks.insert(task_id.clone(), task);
        let ghost after_base = tasks.view();
        let ghost base_task = task;
        if let Some(configurations) = &target.configurations {
            match add_variants(tasks, &task_id, configurations) {
                Ok(()) => {},
                Err(err) => {
                    proof {
                        let c = choose|c: int|
                            0 <= c < configurations@.len() && !valid_id(
                                task_id@ + "."@ + (#[trigger] configurations@[c]).0@,
                            );
                        assert(variants_of(e)[c] == task_id@ + "."@ + configurations@[c].0@);
                        assert(!target_ok(e));
                    }
                    return Err(err);
                },
            }
            proof {
                assert forall|c: int| 0 <= c < variants_of(e).len() implies valid_id(
                    #[trigger] variants_of(e)[c],
                ) by {
                    assert(variants_of(e)[c] == task_id@ + "."@ + configurations@[c].0@);
                }
                assert forall|k: int| 0 <= k < i implies has_key(
                    tasks.view(),
                    #[trigger] targets@[k].0@,
                ) by {
                    assert(has_key(after_base, targets@[k].0@));
                }
                assert(has_key(tasks.view(), e.0@));
                assert(configs_of(e) == configurations@);
                assert forall|n: Seq<char>|
                    (forall|c: int| 0 <= c < variants_of(e).len() ==> #[trigger] variants_of(e)[c]
                        != n) implies #[trigger] lookup(tasks.view(), n) == lookup(after_base, n) by {
                    assert forall|c: int| 0 <= c < configurations@.len() implies task_id@ + "."@ + (
                    #[trigger] configurations@[c]).0@ != n by {
                        assert(variants_of(e)[c] == task_id@ + "."@ + configurations@[c].0@);
                    }
                }
            }
        }
        proof {
            assert(target_ok(e));
            if ids_apart(targets@) {
                lemma_step_placed(before, after_base, tasks.view(), targets@, i as int, package_manager@);
            }
        }
        i = i + 1;
    }
    Ok(())
}

/// Whether each target default of `ts` that no later entry replaces stands
/// among the platform's inherited tasks as the task it becomes.
pub open spec fn defaults_placed(m: Migrator, ts: Seq<(String, NxTargetOptions)>, pm: Seq<char>) -> bool {
    match lookup(m.tasks_configs@, platform_scope(m.platform)) {
        Some(doc) => match doc.tasks {
            Some(tasks) => forall|k: int|
                0 <= k < ts.len() && last_named(ts, k) ==> task_is(
                    lookup(tasks.view(), #[trigger] ts[k].0@),
                    ts[k].1,
                    pm,
                ),
            None => false,
        },
        None => false,
    }
}

/// The document that loading the platform's inherited tasks gives at index
/// `i` is the one `platform_tasks_doc` describes.
proof fn lemma_platform_doc_loaded(m: Migrator, loaded_docs: Seq<(String, InheritedTasksConfig)>, i: int)
    requires
        loaded(
            m.tasks_configs@,
            loaded_docs,
            platform_scope(m.platform),
            initial_tasks(m, platform_scope(m.platform)),
            i,
        ),
    ensures
        loaded_docs[i].1 == platform_tasks_doc(m),
{
    let scope = platform_scope(m.platform);
    lemma_lookup_at(loaded_docs, scope, i);
    if has_key(m.tasks_configs@, scope) {
        assert(loaded_docs == m.tasks_configs@);
    }
}

/// Whether `nx.json` sets the workspace's default branch.
pub open spec fn sets_default_branch(nx_json: NxJson) -> bool {
    nx_json.affected matches Some(a) && a.default_base is Some
}

/// Whether `nx.json` has named input groups to add.
pub open spec fn adds_named_inputs(nx_json: NxJson) -> bool {
    nx_json.named_inputs matches Some(ni) && ni@.len() > 0
}

/// Whether `nx.json` can be migrated: its named input groups and its target
/// defaults are valid.
pub open spec fn root_ok(nx_json: NxJson) -> bool {
    &&& (nx_json.named_inputs matches Some(ni) ==> named_inputs_ok(ni@))
    &&& (nx_json.target_defaults matches Some(td) ==> defaults_ok(td@))
}

/// The globs of the application and library directories of `layout`.
pub open spec fn layout_globs(layout: NxWorkspaceLayout) -> Seq<Seq<char>> {
    seq![
        (match layout.apps_dir {
            Some(d) => d@,
            None => "apps"@,
        }) + "/*"@,
        (match layout.libs_dir {
            Some(d) => d@,
            None => "libs"@,
        }) + "/*"@,
    ]
}

/// Whether `groups` holds the default input groups.
pub open spec fn has_default_groups(groups: Option<FileGroups>) -> bool {
    match groups {
        Some(g) => {
            &&& group_views(lookup(g.view(), "default"@)) == Some(
                seq![crate::config::InputView::Path("**/*"@)],
            )
            &&& group_views(lookup(g.view(), "production"@)) == Some(
                Seq::<crate::config::InputView>::empty(),
            )
            &&& group_views(lookup(g.view(), "sharedGlobals"@)) == Some(
                Seq::<crate::config::InputView>::empty(),
            )
        },
        None => false,
    }
}

/// The globs of where projects conventionally live.
pub open spec fn default_globs() -> Seq<Seq<char>> {
    seq!["apps/*"@, "packages/*"@]
}

/// The globs of a workspace's projects, when it lists them by glob.
pub open spec fn project_globs(p: Option<WorkspaceProjects>) -> Option<Seq<Seq<char>>> {
    match p {
        Some(WorkspaceProjects::Globs(g)) => Some(views(g@)),
        _ => None,
    }
}

/// `dir`, or `fallback` when it is absent, followed by `/*`.
fn dir_glob(dir: &Option<String>, fallback: &str) -> (r: String)
    ensures
        r@ == (match dir {
            Some(d) => d@,
            None => fallback@,
        }) + "/*"@,
{
    match dir {
        Some(d) => concat(d.as_str(), "/*"),
        None => concat(fallback, "/*"),
    }
}

/// The default input groups: everything, and empty production and shared
/// groups.
fn default_file_groups() -> (r: FileGroups)
    ensures
        has_default_groups(Some(r)),
{
    let mut groups = Table::new();
    let mut all: Vec<InputPath> = Vec::new();
    all.push(InputPath::Path(String::from_str("**/*")));
    let k1 = String::from_str("default");
    let k2 = String::from_str("production");
    let k3 = String::from_str("sharedGlobals");
    let ghost g0 = groups.view();
    let ghost (ka, kb, kc) = (k1, k2, k3);
    let ghost v1 = all;
    groups.insert(k1, all);
    let ghost g1 = groups.view();
    let v2: Vec<InputPath> = Vec::new();
    let ghost w2 = v2;
    groups.insert(k2, v2);
    let ghost g2 = groups.view();
    let v3: Vec<InputPath> = Vec::new();
    let ghost w3 = v3;
    groups.insert(k3, v3);
    proof {
        reveal_strlit("default");
        reveal_strlit("production");
        reveal_strlit("sharedGlobals");
        reveal_strlit("**/*");
        assert("default"@[0] != "production"@[0]);
        assert("default"@[0] != "sharedGlobals"@[0]);
        assert("production"@[0] != "sharedGlobals"@[0]);
        assert(input_views(v1@) =~= seq![crate::config::InputView::Path("**/*"@)]);
        assert(input_views(w2@) =~= Seq::empty());
        assert(input_views(w3@) =~= Seq::empty());
    }
    groups
}

impl NxMigrator {
    /// A migration on bun when `bun` is set, else on node, with the package
    /// manager that the flag and the lockfiles give.
    pub fn new(bun: bool, bun_lock: bool, pnpm_lock: bool, yarn_lock: bool) -> (r: NxMigrator)
        ensures
            r.inner.wf(),
            r.inner.platform == (if bun {
                PlatformType::Bun
            } else {
                PlatformType::Node
            }),
            r.inner.project_configs@.len() == 0,
            r.inner.tasks_configs@.len() == 0,
            r.inner.workspace_config is None,
            r.package_manager@ == package_manager_of(bun, bun_lock, pnpm_lock, yarn_lock),
    {
        let platform = if bun {
            PlatformType::Bun
        } else {
            PlatformType::Node
        };
        NxMigrator {
            inner: Migrator::new(platform),
            package_manager: detect_package_manager(bun, bun_lock, pnpm_lock, yarn_lock),
        }
    }

    /// Merges the settings of a project's `project.json`, found in
    /// `project_source`, into that project's document.
    pub fn migrate_project_config(&mut self, project_source: &str, project_json: NxProjectJson) -> (r:
        Result<(), MigrateError>)
        requires
            old(self).inner.wf(),
        ensures
            final(self).inner.wf(),
            r is Ok <==> project_json_ok(project_json),
            r is Ok ==> project_targets_placed(
                final(self).inner,
                project_source@,
                project_json,
                old(self).package_manager@,
            ),
            r is Ok ==> {
                let before = match lookup(old(self).inner.project_configs@, project_source@) {
                    Some(d) => d,
                    None => initial_project(old(self).inner, project_source@),
                };
                lookup(final(self).inner.project_configs@, project_source@) matches Some(after)
                    && merged_project(before, after, project_json)
            },
            final(self).inner.tasks_configs == old(self).inner.tasks_configs,
            final(self).inner.workspace_config == old(self).inner.workspace_config,
            final(self).inner.platform == old(self).inner.platform,
            final(self).package_manager == old(self).package_manager,
    {
        let ghost start = self.inner.project_configs@;
        let i = self.inner.load_project_config(project_source);
        let ghost loaded_docs = self.inner.project_configs@;
        let (key, mut config) = self.inner.project_configs.remove(i);
        let res = apply_project_json(&mut config, &project_json, self.package_manager.as_str());
        let ghost after = config;
        self.inner.project_configs.insert(i, (key, config));
        proof {
            assert(self.inner.project_configs@ =~= loaded_docs.update(i as int, (key, after)));
            assert(crate::config::first_key_at(self.inner.project_configs@, project_source@, i as int));
            crate::store::lemma_lookup_at(self.inner.project_configs@, project_source@, i as int);
            crate::store::lemma_lookup_at(loaded_docs, project_source@, i as int);
            if has_key(start, project_source@) {
                assert(loaded_docs == start);
            }
        }
        res
    }

    /// Merges the Nx settings of a project's `package.json`, if it holds any.
    pub fn migrate_project_package_config(
        &mut self,
        project_source: &str,
        nx_package_json: PackageJsonWithNx,
    ) -> (r: Result<(), MigrateError>)
        requires
            old(self).inner.wf(),
        ensures
            final(self).inner.wf(),
            nx_package_json.nx is None ==> *final(self) == *old(self) && r is Ok,
            nx_package_json.nx is Some ==> (r is Ok <==> project_json_ok(
                nx_package_json.nx->Some_0,
            )),
            nx_package_json.nx is Some && r is Ok ==> project_targets_placed(
                final(self).inner,
                project_source@,
                nx_package_json.nx->Some_0,
                old(self).package_manager@,
            ),
            nx_package_json.nx is Some && r is Ok ==> project_merged(
                old(self).inner,
                final(self).inner,
                project_source@,
                nx_package_json.nx->Some_0,
            ),
    {
        if let Some(nx) = nx_package_json.nx {
            self.migrate_project_config(project_source, nx)?;
        }
        Ok(())
    }

    /// Fills in what moon needs and the migration left unset: default input
    /// groups, and the conventional project globs.
    pub fn use_default_settings(&mut self)
        requires
            old(self).inner.wf(),
        ensures
            final(self).inner.wf(),
            lookup(final(self).inner.tasks_configs@, platform_scope(final(self).inner.platform)) matches Some(
                doc,
            ) && {
                let before = platform_tasks_doc(old(self).inner);
                &&& (before.file_groups is Some ==> doc.file_groups == before.file_groups)
                &&& (before.file_groups is None ==> has_default_groups(doc.file_groups))
                &&& doc.tasks == before.tasks
                &&& doc.implicit_inputs == before.implicit_inputs
            },
            final(self).inner.workspace_config matches Some(w) && {
                let before = workspace_doc(old(self).inner);
                &&& (before.projects is Some ==> w.projects == before.projects)
                &&& (before.projects is None ==> project_globs(w.projects) == Some(default_globs()))
                &&& w.vcs_default_branch == before.vcs_default_branch
            },
            final(self).inner.project_configs == old(self).inner.project_configs,
            final(self).inner.platform == old(self).inner.platform,
    {
        let i = self.inner.load_tasks_platform_config();
        let ghost loaded_docs = self.inner.tasks_configs@;
        let (key, mut doc) = self.inner.tasks_configs.remove(i);
        if doc.file_groups.is_none() {
            doc.file_groups = Some(default_file_groups());
        }
        self.inner.tasks_configs.insert(i, (key, doc));
        proof {
            assert(self.inner.tasks_configs@ =~= loaded_docs.update(i as int, (key, doc)));
            lemma_replace_at(loaded_docs, i as int, key, doc);
            lemma_lookup_at(loaded_docs, key@, i as int);
        }
        self.inner.load_workspace_config();
        if let Some(mut workspace) = self.inner.workspace_config.take() {
            if workspace.projects.is_none() {
                let mut globs: Vec<String> = Vec::new();
                globs.push(String::from_str("apps/*"));
                globs.push(String::from_str("packages/*"));
                proof {
                    assert(views(globs@) =~= default_globs());
                }
                workspace.projects = Some(WorkspaceProjects::Globs(globs));
            }
            self.inner.workspace_config = Some(workspace);
        }
    }

    /// Sets the workspace's default branch.
    fn set_default_branch(&mut self, default_branch: &String)
        requires
            old(self).inner.wf(),
        ensures
            final(self).inner.wf(),
            final(self).inner.workspace_config matches Some(w) && w.vcs_default_branch matches Some(
                b,
            ) && b@ == default_branch@,
            workspace_doc(final(self).inner).projects == workspace_doc(old(self).inner).projects,
            final(self).inner.project_configs == old(self).inner.project_configs,
            final(self).inner.tasks_configs == old(self).inner.tasks_configs,
            final(self).inner.disk_tasks == old(self).inner.disk_tasks,
            final(self).inner.platform == old(self).inner.platform,
            final(self).package_manager == old(self).package_manager,
    {
        self.inner.load_workspace_config();
        if let Some(mut workspace) = self.inner.workspace_config.take() {
            workspace.vcs_default_branch = Some(default_branch.clone());
            self.inner.workspace_config = Some(workspace);
        }
    }

    /// Adds named input groups to the inherited tasks of the platform.
    fn merge_named_inputs(&mut self, named_inputs: &NxNamedInputs) -> (r: Result<(), MigrateError>)
        requires
            old(self).inner.wf(),
        ensures
            final(self).inner.wf(),
            r is Ok <==> named_inputs_ok(named_inputs@),
            r is Ok ==> groups_merged(
                platform_tasks_doc(old(self).inner).file_groups,
                platform_tasks_doc(final(self).inner).file_groups,
                named_inputs@,
            ),
            platform_tasks_doc(final(self).inner).tasks == platform_tasks_doc(old(self).inner).tasks,
            platform_tasks_doc(final(self).inner).implicit_inputs == platform_tasks_doc(
                old(self).inner,
            ).implicit_inputs,
            final(self).inner.workspace_config == old(self).inner.workspace_config,
            final(self).inner.disk_workspace == old(self).inner.disk_workspace,
            final(self).inner.project_configs == old(self).inner.project_configs,
            final(self).inner.platform == old(self).inner.platform,
            final(self).package_manager == old(self).package_manager,
    {
        let i = self.inner.load_tasks_platform_config();
        let ghost loaded_docs = self.inner.tasks_configs@;
        let (key, mut doc) = self.inner.tasks_configs.remove(i);
        let mut groups = match doc.file_groups.take() {
            Some(g) => g,
            None => Table::new(),
        };
        let res = migrate_named_inputs(&mut groups, named_inputs);
        doc.file_groups = Some(groups);
        self.inner.tasks_configs.insert(i, (key, doc));
        proof {
            assert(self.inner.tasks_configs@ =~= loaded_docs.update(i as int, (key, doc)));
            lemma_replace_at(loaded_docs, i as int, key, doc);
            lemma_platform_doc_loaded(old(self).inner, loaded_docs, i as int);
        }
        res
    }

    /// Adds the target defaults as inherited tasks of the platform.
    fn merge_target_defaults(&mut self, target_defaults: &Vec<(String, NxTargetOptions)>) -> (r:
        Result<(), MigrateError>)
        requires
            old(self).inner.wf(),
        ensures
            final(self).inner.wf(),
            r is Ok <==> defaults_ok(target_defaults@),
            r is Ok ==> (lookup(
                final(self).inner.tasks_configs@,
                platform_scope(final(self).inner.platform),
            ) matches Some(doc) && doc.tasks matches Some(tasks) && forall|k: int|
                0 <= k < target_defaults@.len() ==> has_key(tasks.view(), target_defaults@[k].0@)),
            r is Ok ==> defaults_placed(final(self).inner, target_defaults@, final(self).package_manager@),
            platform_tasks_doc(final(self).inner).file_groups == platform_tasks_doc(
                old(self).inner,
            ).file_groups,
            platform_tasks_doc(final(self).inner).implicit_inputs == platform_tasks_doc(
                old(self).inner,
            ).implicit_inputs,
            final(self).inner.workspace_config == old(self).inner.workspace_config,
            final(self).inner.disk_workspace == old(self).inner.disk_workspace,
            final(self).inner.project_configs == old(self).inner.project_configs,
            final(self).inner.platform == old(self).inner.platform,
            final(self).package_manager == old(self).package_manager,
    {
        let i = self.inner.load_tasks_platform_config();
        let ghost loaded_docs = self.inner.tasks_configs@;
        let (key, mut doc) = self.inner.tasks_configs.remove(i);
        let mut tasks = match doc.tasks.take() {
            Some(t) => t,
            None => Table::new(),
        };
        let res = migrate_targets_without_variants(
            &mut tasks,
            target_defaults,
            self.package_manager.as_str(),
        );
        doc.tasks = Some(tasks);
        self.inner.tasks_configs.insert(i, (key, doc));
        proof {
            assert(self.inner.tasks_configs@ =~= loaded_docs.update(i as int, (key, doc)));
            lemma_replace_at(loaded_docs, i as int, key, doc);
            lemma_platform_doc_loaded(old(self).inner, loaded_docs, i as int);
        }
        res
    }

    /// Lists the layout's application and library directories as the
    /// workspace's project globs, unless the workspace already lists projects.
    fn apply_layout(&mut self, layout: &NxWorkspaceLayout)
        requires
            old(self).inner.wf(),
        ensures
            final(self).inner.wf(),
            final(self).inner.workspace_config matches Some(w) && {
                let before = workspace_doc(old(self).inner);
                &&& (before.projects is None ==> project_globs(w.projects) == Some(
                    layout_globs(*layout),
                ))
                &&& (before.projects is Some ==> w.projects == before.projects)
                &&& w.vcs_default_branch == before.vcs_default_branch
            },
            final(self).inner.project_configs == old(self).inner.project_configs,
            final(self).inner.tasks_configs == old(self).inner.tasks_configs,
            final(self).inner.disk_tasks == old(self).inner.disk_tasks,
            final(self).inner.platform == old(self).inner.platform,
            final(self).package_manager == old(self).package_manager,
    {
        self.inner.load_workspace_config();
        if let Some(mut workspace) = self.inner.workspace_config.take() {
            if workspace.projects.is_none() {
                let mut globs: Vec<String> = Vec::new();
                globs.push(dir_glob(&layout.apps_dir, "apps"));
                globs.push(dir_glob(&layout.libs_dir, "libs"));
                proof {
                    assert(views(globs@) =~= layout_globs(*layout));
                }
                workspace.projects = Some(WorkspaceProjects::Globs(globs));
            }
            self.inner.workspace_config = Some(workspace);
        }
    }

    /// Migrates `nx.json`: the default branch, the named input groups, the
    /// target defaults as inherited tasks, and the workspace layout.
    pub fn migrate_root_config(&mut self, nx_json: NxJson) -> (r: Result<(), MigrateError>)
        requires
            old(self).inner.wf(),
        ensures
            final(self).inner.wf(),
            r is Ok && (nx_json.affected matches Some(a) && a.default_base is Some) ==> (
            final(self).inner.workspace_config matches Some(w) && w.vcs_default_branch matches Some(
                b,
            ) && b@ == nx_json.affected->Some_0.default_base->Some_0@),
            r is Ok && nx_json.workspace_layout is Some && workspace_doc(
                old(self).inner,
            ).projects is None ==> (final(self).inner.workspace_config matches Some(w)
                && project_globs(w.projects) == Some(
                layout_globs(nx_json.workspace_layout->Some_0),
            )),
            r is Ok && nx_json.target_defaults is Some ==> (lookup(
                final(self).inner.tasks_configs@,
                platform_scope(final(self).inner.platform),
            ) matches Some(doc) && doc.tasks matches Some(tasks) && forall|k: int|
                0 <= k < nx_json.target_defaults->Some_0@.len() ==> has_key(
                    tasks.view(),
                    nx_json.target_defaults->Some_0@[k].0@,
                )),
            r is Ok <==> root_ok(nx_json),
            r is Ok && nx_json.named_inputs is Some ==> groups_merged(
                platform_tasks_doc(old(self).inner).file_groups,
                platform_tasks_doc(final(self).inner).file_groups,
                nx_json.named_inputs->Some_0@,
            ),
            r is Ok && nx_json.target_defaults is Some ==> defaults_placed(
                final(self).inner,
                nx_json.target_defaults->Some_0@,
                old(self).package_manager@,
            ),
            r is Ok && nx_json.workspace_layout is Some && workspace_doc(
                old(self).inner,
            ).projects is Some ==> (final(self).inner.workspace_config matches Some(w)
                && w.projects == workspace_doc(old(self).inner).projects),
            !sets_default_branch(nx_json) ==> workspace_doc(final(self).inner).vcs_default_branch
                == workspace_doc(old(self).inner).vcs_default_branch,
            nx_json.workspace_layout is None ==> workspace_doc(final(self).inner).projects
                == workspace_doc(old(self).inner).projects,
            !adds_named_inputs(nx_json) ==> platform_tasks_doc(final(self).inner).file_groups
                == platform_tasks_doc(old(self).inner).file_groups,
            nx_json.target_defaults is None ==> platform_tasks_doc(final(self).inner).tasks
                == platform_tasks_doc(old(self).inner).tasks,
            platform_tasks_doc(final(self).inner).implicit_inputs == platform_tasks_doc(
                old(self).inner,
            ).implicit_inputs,
            final(self).inner.project_configs == old(self).inner.project_configs,
            final(self).inner.platform == old(self).inner.platform,
    {
        if let Some(affected) = &nx_json.affected {
            if let Some(default_branch) = &affected.default_base {
                self.set_default_branch(default_branch);
            }
        }
        if let Some(named_inputs) = &nx_json.named_inputs {
            if named_inputs.len() > 0 {
                self.merge_named_inputs(named_inputs)?;
            }
        }
        if let Some(target_defaults) = &nx_json.target_defaults {
            self.merge_target_defaults(target_defaults)?;
        }
        if let Some(layout) = &nx_json.workspace_layout {
            self.apply_layout(layout);
        }
        Ok(())
    }

    /// Migrates `workspace.json`: its projects become the workspace's project
    /// sources.
    pub fn migrate_workspace_config(&mut self, workspace_json: NxWorkspaceJson) -> (r: Result<
        (),
        MigrateError,
    >)
        requires
            old(self).inner.wf(),
        ensures
            final(self).inner.wf(),
            r is Ok <==> forall|k: int|
                0 <= k < workspace_json.projects@.len() ==> valid_id(
                    workspace_json.projects@[k].0@,
                ),
            r is Ok && workspace_json.projects@.len() > 0 ==> (final(self).inner.workspace_config matches Some(w) && w.projects matches Some(
                WorkspaceProjects::Sources(sources),
            ) && forall|k: int|
                0 <= k < workspace_json.projects@.len() ==> has_key(
                    sources.view(),
                    workspace_json.projects@[k].0@,
                ) && (last_named(workspace_json.projects@, k) ==> crate::nx_task::str_view(
                    lookup(sources.view(), #[trigger] workspace_json.projects@[k].0@),
                ) == Some(workspace_json.projects@[k].1@))),
            workspace_json.projects@.len() == 0 ==> *final(self) == *old(self),
            final(self).inner.project_configs == old(self).inner.project_configs,
            final(self).inner.tasks_configs == old(self).inner.tasks_configs,
            final(self).inner.platform == old(self).inner.platform,
    {
        let mut projects: Table<String> = Table::new();
        let mut i: usize = 0;
        while i < workspace_json.projects.len()
            invariant
                *self == *old(self),
                self.inner.wf(),
                i <= workspace_json.projects@.len(),
                forall|k: int|
                    0 <= k < i ==> valid_id(workspace_json.projects@[k].0@) && has_key(
                        projects.view(),
                        workspace_json.projects@[k].0@,
                    ),
                forall|k: int|
                    0 <= k < i && (forall|j: int|
                        k < j < i ==> (#[trigger] workspace_json.projects@[j]).0@
                            != workspace_json.projects@[k].0@) ==> crate::nx_task::str_view(
                        lookup(projects.view(), #[trigger] workspace_json.projects@[k].0@),
                    ) == Some(workspace_json.projects@[k].1@),
            decreases workspace_json.projects@.len() - i,
        {
            let id = create_id(workspace_json.projects[i].0.as_str())?;
            let source = workspace_json.projects[i].1.clone();
            let ghost before = projects.view();
            projects.insert(id, source);
            proof {
                lemma_insert_keeps_keys(before, projects.view(), id, source);
                assert forall|k: int|
                    0 <= k < i + 1 && (forall|j: int|
                        k < j < i + 1 ==> (#[trigger] workspace_json.projects@[j]).0@
                            != workspace_json.projects@[k].0@) implies crate::nx_task::str_view(
                    lookup(projects.view(), #[trigger] workspace_json.projects@[k].0@),
                ) == Some(workspace_json.projects@[k].1@) by {
                    if k < i {
                        assert(workspace_json.projects@[i as int].0@ != workspace_json.projects@[k].0@);
                    }
                }
            }
            i = i + 1;
        }
        if workspace_json.projects.len() > 0 {
            self.inner.load_workspace_config();
            if let Some(mut workspace) = self.inner.workspace_config.take() {
                workspace.projects = Some(WorkspaceProjects::Sources(projects));
                self.inner.workspace_config = Some(workspace);
            }
        }
        Ok(())
    }
}

/// Migrating settings that add project dependencies but no tags keeps the
/// tags that the document already had and adds the dependencies after the
/// ones it had; a field that the settings do not touch is never overwritten.
pub proof fn lemma_merge_keeps_existing_fields(
    before: ProjectConfig,
    after: ProjectConfig,
    json: NxProjectJson,
)
    requires
        merged_project(before, after, json),
        json.tags is None,
        added_deps(json) is Some,
    ensures
        after.tags == before.tags,
        opt_views(after.depends_on) == Some(listed(before.depends_on) + added_deps(json)->Some_0),
        json.name is None ==> after.id == before.id,
        json.targets is None ==> after.tasks == before.tasks,
        json.named_inputs is None ==> after.file_groups == before.file_groups,
        named_type(json) is None ==> after.type_of == before.type_of,
        after.language == before.language,
        after.platform == before.platform,
{
}

} // verus!

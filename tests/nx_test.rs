use moon_migrate::config::{
    EnvFile, InputPath, OutputPath, PlatformType, ProjectConfig, ProjectType, TaskConfig,
    WorkspaceProjects,
};
use moon_migrate::error::MigrateError;
use moon_migrate::json::JsonValue;
use moon_migrate::nx_json::{
    NxAffected, NxDependsOn, NxInput, NxJson, NxProjectJson, NxTargetOptions, NxWorkspaceJson,
    NxWorkspaceLayout, PackageJsonWithNx, StringOrList,
};
use moon_migrate::nx_migrator::{migrate_configuration, NxMigrator};
use moon_migrate::nx_task::{migrate_depends_on, migrate_inputs, migrate_task};
use moon_migrate::store::ProjectOnDisk;
use moon_migrate::target::TargetScope;

fn s(v: &str) -> String {
    v.to_string()
}

fn target() -> NxTargetOptions {
    NxTargetOptions {
        cache: None,
        command: None,
        configurations: None,
        depends_on: None,
        default_configuration: None,
        executor: None,
        inputs: None,
        options: None,
        outputs: None,
    }
}

fn project_json() -> NxProjectJson {
    NxProjectJson {
        implicit_dependencies: None,
        name: None,
        named_inputs: None,
        project_type: None,
        tags: None,
        targets: None,
    }
}

fn nx_json() -> NxJson {
    NxJson {
        affected: None,
        default_base: None,
        named_inputs: None,
        target_defaults: None,
        workspace_layout: None,
    }
}

fn task_of<'a>(config: &'a ProjectConfig, id: &str) -> &'a TaskConfig {
    let tasks = config.tasks.as_ref().unwrap();
    &tasks.entries().iter().find(|(k, _)| k == id).unwrap().1
}

fn project<'a>(m: &'a NxMigrator, source: &str) -> &'a ProjectConfig {
    &m.inner.project_configs.iter().find(|(k, _)| k == source).unwrap().1
}

fn texts(v: &[InputPath]) -> Vec<String> {
    v.iter()
        .map(|i| match i {
            InputPath::EnvVar(x) => format!("env:{x}"),
            InputPath::TokenFunc(x) => format!("func:{x}"),
            InputPath::Path(x) => format!("path:{x}"),
        })
        .collect()
}

#[test]
fn resolves_upstream_and_self_dependencies() {
    let deps = vec![
        NxDependsOn::String(s("^build")),
        NxDependsOn::String(s("lint")),
        NxDependsOn::String(s("$NODE_ENV")),
        NxDependsOn::Object {
            dependencies: Some(true),
            target: s("test"),
            params: None,
            projects: None,
        },
        NxDependsOn::Object {
            dependencies: None,
            target: s("typecheck"),
            params: None,
            projects: Some(StringOrList::String(s("self"))),
        },
        NxDependsOn::Object {
            dependencies: None,
            target: s("build"),
            params: None,
            projects: Some(StringOrList::List(vec![s("a"), s("b")])),
        },
    ];
    let (targets, env) = migrate_depends_on(&deps).unwrap();
    let texts: Vec<String> = targets.iter().map(|t| t.as_text()).collect();
    assert_eq!(texts, vec!["^:build", "~:lint", "^:test", "~:typecheck", "a:build", "b:build"]);
    assert!(matches!(targets[0].scope, TargetScope::Deps));
    assert_eq!(texts_env(&env), vec!["env:NODE_ENV"]);
}

fn texts_env(v: &[InputPath]) -> Vec<String> {
    texts(v)
}

#[test]
fn structured_dependency_without_transitive_flag_is_same_project() {
    let deps = vec![NxDependsOn::Object {
        dependencies: Some(false),
        target: s("build"),
        params: None,
        projects: None,
    }];
    let (targets, _) = migrate_depends_on(&deps).unwrap();
    assert_eq!(targets[0].as_text(), "~:build");
}

#[test]
fn refuses_an_invalid_dependency_target() {
    let deps = vec![NxDependsOn::String(s("bad target"))];
    assert!(matches!(migrate_depends_on(&deps), Err(MigrateError::InvalidTarget(_))));
}

#[test]
fn translates_inputs_by_kind() {
    let raw = vec![
        NxInput::Env { env: s("CI") },
        NxInput::Fileset { fileset: s("{projectRoot}/src/**/*") },
        NxInput::Runtime { runtime: s("node -v") },
        NxInput::External { external_dependencies: vec![s("react")] },
        NxInput::DepOutput { dependent_tasks_output_files: s("**/*.d.ts"), transitive: None },
        NxInput::Source(s("production")),
        NxInput::Source(s("^production")),
        NxInput::Source(s("{workspaceRoot}/jest.preset.js")),
    ];
    assert_eq!(
        texts(&migrate_inputs(&raw, false).unwrap()),
        vec![
            "env:CI",
            "path:src/**/*",
            "func:@group(production)",
            "path:/jest.preset.js"
        ]
    );
    assert_eq!(
        texts(&migrate_inputs(&raw, true).unwrap()),
        vec!["env:CI", "path:src/**/*", "path:/jest.preset.js"]
    );
}

#[test]
fn refuses_an_unsupported_input() {
    let raw = vec![NxInput::Fileset { fileset: s("ftp://host/file") }];
    assert!(matches!(migrate_inputs(&raw, false), Err(MigrateError::InvalidInput(_))));
}

#[test]
fn translates_builtin_executors() {
    let mut noop = target();
    noop.executor = Some(s("nx:noop"));
    let task = migrate_task(&noop, "npm").unwrap();
    assert_eq!(task.command.as_deref(), Some("noop"));

    let mut commands = target();
    commands.executor = Some(s("nx:run-commands"));
    commands.options = Some(vec![
        (
            s("commands"),
            JsonValue::Array(vec![JsonValue::Str(s("tsc")), JsonValue::Str(s("vite build"))]),
        ),
        (s("cwd"), JsonValue::Str(s("apps/web"))),
        (s("envFile"), JsonValue::Str(s(".env"))),
    ]);
    let task = migrate_task(&commands, "npm").unwrap();
    assert_eq!(task.command.as_deref(), Some("tsc && vite build"));
    assert_eq!(task.platform, Some(PlatformType::System));
    assert!(task.args.is_none());
    let env = task.env.as_ref().unwrap();
    assert_eq!(env.entries()[0].0, "CWD");
    assert_eq!(env.entries()[0].1, "apps/web");
    match &task.options.as_ref().unwrap().env_file {
        Some(EnvFile::File(f)) => assert_eq!(f, ".env"),
        _ => panic!("expected an env file"),
    }

    let mut script = target();
    script.executor = Some(s("nx:run-script"));
    script.options = Some(vec![(s("script"), JsonValue::Str(s("build")))]);
    let task = migrate_task(&script, "pnpm").unwrap();
    assert_eq!(task.command.as_deref(), Some("pnpm run build"));
}

#[test]
fn translates_other_executors_with_arguments() {
    let mut jest = target();
    jest.executor = Some(s("@nx/jest:jest"));
    jest.options = Some(vec![(s("passWithNoTests"), JsonValue::Bool(true))]);
    let task = migrate_task(&jest, "npm").unwrap();
    assert_eq!(task.command.as_deref(), Some("jest"));
    assert_eq!(task.args.unwrap(), vec!["--passWithNoTests"]);

    let mut webpack = target();
    webpack.executor = Some(s("@nrwl/web:webpack"));
    let task = migrate_task(&webpack, "npm").unwrap();
    assert_eq!(task.command.as_deref(), Some("web webpack"));
}

#[test]
fn falls_back_to_noop_without_a_command() {
    let task = migrate_task(&target(), "npm").unwrap();
    assert_eq!(task.command.as_deref(), Some("noop"));
    let mut with_command = target();
    with_command.command = Some(s("echo hi"));
    let task = migrate_task(&with_command, "npm").unwrap();
    assert_eq!(task.command.as_deref(), Some("echo hi"));
}

#[test]
fn translates_outputs_and_cache() {
    let mut t = target();
    t.outputs = Some(vec![s("{projectRoot}/dist/**"), s("{workspaceRoot}/coverage/{projectRoot}")]);
    t.cache = Some(true);
    let task = migrate_task(&t, "npm").unwrap();
    let outputs = task.outputs.unwrap();
    assert!(matches!(&outputs[0], OutputPath::ProjectGlob(x) if x == "dist/*"));
    assert!(matches!(&outputs[1], OutputPath::Path(x) if x == "/coverage/$projectRoot"));
    assert_eq!(task.options.unwrap().cache, Some(true));

    let mut off = target();
    off.cache = Some(false);
    assert!(migrate_task(&off, "npm").unwrap().options.is_none());
}

#[test]
fn refuses_an_env_var_output() {
    let mut t = target();
    t.outputs = Some(vec![s("$FOO")]);
    assert!(matches!(migrate_task(&t, "npm"), Err(MigrateError::InvalidOutput(_))));
}

#[test]
fn refuses_a_glob_env_file() {
    let mut t = target();
    t.executor = Some(s("nx:run-commands"));
    t.options = Some(vec![(s("envFile"), JsonValue::Str(s(".env.*")))]);
    assert!(matches!(migrate_task(&t, "npm"), Err(MigrateError::InvalidFilePath(_))));
}

#[test]
fn configuration_variant_extends_its_base() {
    let options = vec![(s("prod"), JsonValue::Bool(true))];
    let task = migrate_configuration("build", &options);
    assert_eq!(task.extends.as_deref(), Some("build"));
    assert_eq!(task.args.unwrap(), vec!["--prod"]);
    assert!(task.command.is_none() && task.deps.is_none() && task.outputs.is_none());
}

#[test]
fn merges_into_an_existing_project_document() {
    let mut m = NxMigrator::new(false, false, false, false);
    let mut existing = ProjectConfig::new();
    existing.tags = Some(vec![s("existing")]);
    m.inner.provide_project(s("libs/a"), ProjectOnDisk { config: Some(existing), has_tsconfig: false });
    let mut json = project_json();
    json.implicit_dependencies = Some(vec![s("b")]);
    m.migrate_project_config("libs/a", json).unwrap();
    let doc = project(&m, "libs/a");
    assert_eq!(doc.tags.as_ref().unwrap(), &vec![s("existing")]);
    assert_eq!(doc.depends_on.as_ref().unwrap(), &vec![s("b")]);
    assert!(doc.language.is_none());
}

#[test]
fn migrates_project_json() {
    let mut m = NxMigrator::new(false, false, false, true);
    assert_eq!(m.package_manager, "yarn");
    m.inner.provide_project(s("apps/web"), ProjectOnDisk { config: None, has_tsconfig: true });
    let mut build = target();
    build.command = Some(s("vite build"));
    build.configurations = Some(vec![(
        s("production"),
        vec![(s("mode"), JsonValue::Str(s("production")))],
    )]);
    let mut json = project_json();
    json.name = Some(s("web"));
    json.project_type = Some(s("application"));
    json.tags = Some(vec![s("scope-web")]);
    json.targets = Some(vec![(s("build"), build)]);
    m.migrate_project_config("apps/web", json).unwrap();
    let doc = project(&m, "apps/web");
    assert_eq!(doc.id.as_deref(), Some("web"));
    assert_eq!(doc.type_of, Some(ProjectType::Application));
    assert!(matches!(doc.language, Some(moon_migrate::config::LanguageType::TypeScript)));
    assert_eq!(task_of(doc, "build").command.as_deref(), Some("vite build"));
    let variant = task_of(doc, "build.production");
    assert_eq!(variant.extends.as_deref(), Some("build"));
    assert_eq!(variant.args.as_ref().unwrap(), &vec![s("--mode"), s("production")]);
}

#[test]
fn refuses_an_invalid_tag() {
    let mut m = NxMigrator::new(false, false, false, false);
    let mut json = project_json();
    json.tags = Some(vec![s("not valid")]);
    assert!(matches!(m.migrate_project_config("a", json), Err(MigrateError::InvalidId(_))));
}

#[test]
fn package_json_without_nx_changes_nothing() {
    let mut m = NxMigrator::new(true, false, false, false);
    assert_eq!(m.inner.platform, PlatformType::Bun);
    m.migrate_project_package_config("a", PackageJsonWithNx { nx: None }).unwrap();
    assert!(m.inner.project_configs.is_empty());
}

#[test]
fn migrates_root_and_workspace_files() {
    let mut m = NxMigrator::new(false, false, false, false);
    m.migrate_workspace_config(NxWorkspaceJson { projects: vec![(s("web"), s("apps/web"))] })
        .unwrap();
    let mut json = nx_json();
    json.affected = Some(NxAffected { default_base: Some(s("main")) });
    json.named_inputs = Some(vec![(s("production"), vec![NxInput::Source(s("!{projectRoot}/**/*.spec.ts"))])]);
    json.target_defaults = Some(vec![(s("build"), target())]);
    json.workspace_layout = Some(NxWorkspaceLayout { apps_dir: Some(s("packages")), libs_dir: None });
    m.migrate_root_config(json).unwrap();
    let ws = m.inner.workspace_config.as_ref().unwrap();
    assert_eq!(ws.vcs_default_branch.as_deref(), Some("main"));
    assert!(matches!(&ws.projects, Some(WorkspaceProjects::Sources(t)) if t.entries()[0].1 == "apps/web"));
    let (scope, tasks) = &m.inner.tasks_configs[0];
    assert_eq!(scope, "node");
    let groups = tasks.file_groups.as_ref().unwrap();
    assert_eq!(groups.entries()[0].0, "production");
    assert_eq!(texts(&groups.entries()[0].1), vec!["path:!**/*.spec.ts"]);
    assert_eq!(tasks.tasks.as_ref().unwrap().entries()[0].0, "build");
}

#[test]
fn applies_layout_and_defaults() {
    let mut m = NxMigrator::new(false, false, false, false);
    let mut json = nx_json();
    json.workspace_layout = Some(NxWorkspaceLayout { apps_dir: None, libs_dir: Some(s("shared")) });
    m.migrate_root_config(json).unwrap();
    m.use_default_settings();
    match &m.inner.workspace_config.as_ref().unwrap().projects {
        Some(WorkspaceProjects::Globs(g)) => assert_eq!(g, &vec![s("apps/*"), s("shared/*")]),
        _ => panic!("expected globs"),
    }
    let groups = m.inner.tasks_configs[0].1.file_groups.as_ref().unwrap();
    let names: Vec<&str> = groups.entries().iter().map(|(k, _)| k.as_str()).collect();
    assert_eq!(names, vec!["default", "production", "sharedGlobals"]);
}

#[test]
fn defaults_to_conventional_globs() {
    let mut m = NxMigrator::new(false, false, false, false);
    m.use_default_settings();
    match &m.inner.workspace_config.as_ref().unwrap().projects {
        Some(WorkspaceProjects::Globs(g)) => assert_eq!(g, &vec![s("apps/*"), s("packages/*")]),
        _ => panic!("expected globs"),
    }
}

#[test]
fn run_commands_prefers_command_and_sets_environment() {
    let mut t = target();
    t.executor = Some(s("nx:run-commands"));
    t.options = Some(vec![
        (s("command"), JsonValue::Str(s("echo hi"))),
        (s("commands"), JsonValue::Array(vec![JsonValue::Str(s("a"))])),
        (s("cwd"), JsonValue::Str(s("apps/a"))),
        (s("env"), JsonValue::Object(vec![(s("A"), JsonValue::Number(s("1")))])),
        (s("envFile"), JsonValue::Str(s(".env"))),
    ]);
    let task = migrate_task(&t, "npm").unwrap();
    assert_eq!(task.command.as_deref(), Some("echo hi"));
    assert!(task.args.is_none());
    let env: Vec<(String, String)> = task.env.as_ref().unwrap().entries().clone();
    assert_eq!(env, vec![(s("CWD"), s("apps/a")), (s("A"), s("1"))]);
    assert!(matches!(&task.options.unwrap().env_file, Some(EnvFile::File(f)) if f == ".env"));
}

#[test]
fn default_groups_have_their_contents() {
    let mut m = NxMigrator::new(false, false, false, false);
    m.use_default_settings();
    let groups = m.inner.tasks_configs[0].1.file_groups.as_ref().unwrap();
    assert_eq!(texts(&groups.entries()[0].1), vec!["path:**/*"]);
    assert!(groups.entries()[1].1.is_empty());
    assert!(groups.entries()[2].1.is_empty());
}

#[test]
fn keeps_listed_projects_when_a_layout_is_given() {
    let mut m = NxMigrator::new(false, false, false, false);
    m.migrate_workspace_config(NxWorkspaceJson { projects: vec![(s("web"), s("apps/web"))] })
        .unwrap();
    let mut json = nx_json();
    json.workspace_layout = Some(NxWorkspaceLayout { apps_dir: Some(s("x")), libs_dir: None });
    m.migrate_root_config(json).unwrap();
    assert!(matches!(
        &m.inner.workspace_config.as_ref().unwrap().projects,
        Some(WorkspaceProjects::Sources(_))
    ));
}

#[test]
fn empty_named_inputs_keep_existing_groups() {
    let mut m = NxMigrator::new(false, false, false, false);
    let mut existing = ProjectConfig::new();
    let mut groups = moon_migrate::config::Table::new();
    groups.insert(s("sources"), vec![InputPath::Path(s("src/**/*"))]);
    existing.file_groups = Some(groups);
    m.inner.provide_project(s("libs/a"), ProjectOnDisk { config: Some(existing), has_tsconfig: false });
    let mut json = project_json();
    json.named_inputs = Some(vec![]);
    m.migrate_project_config("libs/a", json).unwrap();
    let doc = project(&m, "libs/a");
    assert_eq!(doc.file_groups.as_ref().unwrap().entries()[0].0, "sources");
}

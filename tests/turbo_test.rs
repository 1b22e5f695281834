use moon_migrate::config::{InputPath, OutputPath, OutputStyle, ProjectConfig, TaskConfig, WorkspaceProjects};
use moon_migrate::error::MigrateError;
use moon_migrate::target::{Target, TargetScope};
use moon_migrate::turbo_json::{Project, ProjectGraph, TurboJson, TurboOutputMode, TurboTask};
use moon_migrate::turbo_migrator::TurboMigrator;
use moon_migrate::validate::create_id;

fn s(v: &str) -> String {
    v.to_string()
}

fn task() -> TurboTask {
    TurboTask {
        cache: None,
        depends_on: None,
        env: None,
        inputs: None,
        outputs: None,
        pass_through_env: None,
        persistent: None,
        interactive: None,
        output_logs: None,
        dot_env: None,
        output_mode: None,
    }
}

fn turbo_json() -> TurboJson {
    TurboJson {
        extends: None,
        global_dependencies: None,
        global_env: None,
        global_pass_through_env: None,
        cache_dir: None,
        daemon: None,
        dangerously_disable_package_manager_check: None,
        env_mode: None,
        tasks: None,
        ui: None,
        global_dot_env: None,
        pipeline: None,
    }
}

fn migrator() -> TurboMigrator {
    TurboMigrator::new(
        false,
        false,
        true,
        false,
        &vec![
            (s("apps/app"), Some(s("@acme/app"))),
            (s("packages/ui"), Some(s("@acme/ui"))),
            (s("packages/unnamed"), None),
        ],
    )
    .unwrap()
}

fn project<'a>(m: &'a TurboMigrator, source: &str) -> &'a ProjectConfig {
    &m.inner.project_configs.iter().find(|(k, _)| k == source).unwrap().1
}

fn task_of<'a>(config: &'a ProjectConfig, id: &str) -> &'a TaskConfig {
    let tasks = config.tasks.as_ref().unwrap();
    &tasks.entries().iter().find(|(k, _)| k == id).unwrap().1
}

#[test]
fn registers_named_packages() {
    let m = migrator();
    assert_eq!(m.package_manager, "pnpm");
    assert_eq!(m.packages.len(), 2);
    assert_eq!(m.packages[0].id, "app");
    assert_eq!(m.packages[0].source, "apps/app");
    assert_eq!(m.packages[1].alias.as_deref(), Some("@acme/ui"));
    assert_eq!(m.package_globs, vec![s("apps/*"), s("packages/*")]);
}

#[test]
fn finds_projects_by_id_then_alias() {
    let m = migrator();
    assert_eq!(m.find_project_in_packages("ui").unwrap().source, "packages/ui");
    assert_eq!(m.find_project_in_packages("@acme/app").unwrap().source, "apps/app");
    assert!(matches!(
        m.find_project_in_packages("ghost"),
        Err(MigrateError::UnknownPackage(x)) if x == "ghost"
    ));
}

#[test]
fn resolves_dependency_syntaxes() {
    let m = migrator();
    let mut t = task();
    t.depends_on = Some(vec![s("^build"), s("app#test"), s("lint"), s("$NODE_ENV"), s("ui:check")]);
    let config = m.migrate_task(&t, "build").unwrap();
    assert_eq!(config.command.as_deref(), Some("pnpm run build"));
    let deps: Vec<String> = config.deps.as_ref().unwrap().iter().map(|d| d.as_text()).collect();
    assert_eq!(deps, vec!["^:build", "app:test", "~:lint", "ui:check"]);
    assert!(matches!(&config.deps.as_ref().unwrap()[1].scope, TargetScope::Project(p) if p == "app"));
    assert!(matches!(&config.inputs.as_ref().unwrap()[0], InputPath::EnvVar(v) if v == "NODE_ENV"));
}

#[test]
fn unknown_project_in_a_dependency_is_an_error() {
    let m = migrator();
    let mut t = task();
    t.depends_on = Some(vec![s("ghost#test")]);
    assert!(matches!(
        m.migrate_task(&t, "build"),
        Err(MigrateError::UnknownPackage(x)) if x == "ghost"
    ));
}

#[test]
fn unknown_project_in_a_task_name_is_an_error() {
    let mut m = migrator();
    let mut json = turbo_json();
    json.pipeline = Some(vec![(s("ghost#build"), task())]);
    assert!(matches!(m.migrate_root_config(json), Err(MigrateError::UnknownPackage(_))));
}

#[test]
fn translates_task_options() {
    let m = migrator();
    let mut t = task();
    t.env = Some(vec![s("API_URL")]);
    t.inputs = Some(vec![s("$TURBO_DEFAULT$"), s("src/**")]);
    t.outputs = Some(vec![s(".next/**"), s("out.txt")]);
    t.cache = Some(false);
    t.dot_env = Some(vec![s(".env")]);
    t.output_mode = Some(TurboOutputMode::ErrorsOnly);
    t.persistent = Some(true);
    let config = m.migrate_task(&t, "dev").unwrap();
    let inputs = config.inputs.as_ref().unwrap();
    assert_eq!(inputs.len(), 2);
    assert!(matches!(&inputs[0], InputPath::EnvVar(v) if v == "API_URL"));
    assert!(matches!(&inputs[1], InputPath::Path(v) if v == "src/**"));
    let outputs = config.outputs.as_ref().unwrap();
    assert!(matches!(&outputs[0], OutputPath::ProjectGlob(v) if v == ".next/*"));
    assert!(matches!(&outputs[1], OutputPath::Path(v) if v == "out.txt"));
    let options = config.options.as_ref().unwrap();
    assert_eq!(options.cache, Some(false));
    assert_eq!(options.output_style, Some(OutputStyle::BufferOnlyFailure));
    assert!(matches!(&options.env_file, Some(moon_migrate::config::EnvFile::File(f)) if f == ".env"));
    assert_eq!(config.local, Some(true));
}

#[test]
fn drops_output_modes_without_a_counterpart() {
    let m = migrator();
    let mut t = task();
    t.output_mode = Some(TurboOutputMode::Full);
    assert!(m.migrate_task(&t, "x").unwrap().options.is_none());
    t.dot_env = Some(vec![s(".env"), s(".env.local")]);
    let options = m.migrate_task(&t, "x").unwrap().options.unwrap();
    assert!(matches!(options.env_file, Some(moon_migrate::config::EnvFile::Enabled(true))));
}

#[test]
fn project_task_with_upstream_dependency_cache_and_outputs() {
    let mut m = migrator();
    let mut t = task();
    t.depends_on = Some(vec![s("^build")]);
    t.cache = Some(true);
    t.outputs = Some(vec![s("dist/**")]);
    let mut json = turbo_json();
    json.pipeline = Some(vec![(s("build"), t)]);
    m.migrate_project_config("apps/app", json).unwrap();
    let build = task_of(project(&m, "apps/app"), "build");
    let deps = build.deps.as_ref().unwrap();
    assert_eq!(deps.len(), 1);
    assert!(matches!(deps[0].scope, TargetScope::Deps));
    assert_eq!(deps[0].task, "build");
    let outputs = build.outputs.as_ref().unwrap();
    assert_eq!(outputs.len(), 1);
    assert!(matches!(&outputs[0], OutputPath::ProjectGlob(v) if v == "dist/*"));
    assert_eq!(build.options.as_ref().unwrap().cache, Some(true));
}

#[test]
fn root_file_with_global_env_and_no_projects() {
    let mut m = TurboMigrator::new(false, false, false, false, &vec![]).unwrap();
    assert_eq!(m.package_manager, "npm");
    let mut json = turbo_json();
    json.global_env = Some(vec![s("CI")]);
    m.migrate_root_config(json).unwrap();
    match &m.inner.workspace_config.as_ref().unwrap().projects {
        Some(WorkspaceProjects::Globs(g)) => assert_eq!(g, &vec![s("apps/*"), s("packages/*")]),
        _ => panic!("expected globs"),
    }
    let (scope, tasks) = &m.inner.tasks_configs[0];
    assert_eq!(scope, "node");
    let inputs = tasks.implicit_inputs.as_ref().unwrap();
    assert_eq!(inputs.len(), 1);
    assert!(matches!(&inputs[0], InputPath::EnvVar(v) if v == "CI"));
}

#[test]
fn routes_pipeline_tasks() {
    let mut m = TurboMigrator::new(true, false, false, false, &vec![(s("apps/app"), Some(s("app")))]).unwrap();
    assert_eq!(m.package_manager, "bun");
    let mut json = turbo_json();
    json.global_dependencies = Some(vec![s("tsconfig.json")]);
    json.pipeline = Some(vec![
        (s("build"), task()),
        (s("//#format"), task()),
        (s("app#dev"), task()),
    ]);
    m.migrate_root_config(json).unwrap();
    let (scope, global) = &m.inner.tasks_configs[0];
    assert_eq!(scope, "bun");
    assert_eq!(global.tasks.as_ref().unwrap().entries()[0].0, "build");
    assert!(matches!(&global.implicit_inputs.as_ref().unwrap()[0], InputPath::Path(p) if p == "tsconfig.json"));
    assert_eq!(task_of(project(&m, ""), "format").command.as_deref(), Some("bun run format"));
    assert_eq!(task_of(project(&m, "apps/app"), "dev").command.as_deref(), Some("bun run dev"));
    match &m.inner.workspace_config.as_ref().unwrap().projects {
        Some(WorkspaceProjects::Globs(g)) => assert_eq!(g, &vec![s("apps/*")]),
        _ => panic!("expected globs"),
    }
}

#[test]
fn supports_no_pipeline() {
    let mut m = migrator();
    m.migrate_project_config("apps/app", turbo_json()).unwrap();
    assert!(m.inner.project_configs.is_empty());
}

#[test]
fn parses_targets_and_ids() {
    assert!(matches!(Target::parse("#tag:build").unwrap().scope, TargetScope::Tag(t) if t == "tag"));
    assert!(matches!(Target::parse(":build").unwrap().scope, TargetScope::All));
    assert_eq!(Target::parse("build").unwrap().as_text(), "~:build");
    assert!(matches!(Target::parse("a:b:c"), Err(MigrateError::InvalidTarget(_))));
    assert!(matches!(Target::new("app", "bad task"), Err(MigrateError::InvalidTarget(_))));
    assert_eq!(create_id("web-app").unwrap(), "web-app");
    assert!(matches!(create_id("web app"), Err(MigrateError::InvalidId(x)) if x == "web app"));
}

#[test]
fn resolves_projects_from_the_project_graph() {
    let graph = ProjectGraph {
        projects: vec![Project { alias: Some(s("@acme/server")), id: s("server"), source: s("apps/server") }],
    };
    let mut m = TurboMigrator::from_project_graph(false, false, false, true, graph);
    assert_eq!(m.package_manager, "yarn");
    let mut json = turbo_json();
    json.pipeline = Some(vec![(s("@acme/server#start"), task())]);
    m.migrate_root_config(json).unwrap();
    assert_eq!(task_of(project(&m, "apps/server"), "start").command.as_deref(), Some("yarn run start"));
}

#[test]
fn env_var_inputs_become_env_inputs() {
    let m = migrator();
    let mut t = task();
    t.inputs = Some(vec![s("$API_KEY"), s("$lower/x.ts")]);
    let inputs = m.migrate_task(&t, "x").unwrap().inputs.unwrap();
    assert!(matches!(&inputs[0], InputPath::EnvVar(v) if v == "API_KEY"));
    assert!(matches!(&inputs[1], InputPath::Path(_)));
}

#[test]
fn unknown_package_error_names_the_package() {
    let mut m = migrator();
    let mut json = turbo_json();
    json.pipeline = Some(vec![(s("client#build"), task())]);
    assert!(matches!(
        m.migrate_project_config("apps/app", json),
        Err(MigrateError::UnknownPackage(x)) if x == "client"
    ));
}

#[test]
fn unknown_package_message_names_the_package() {
    let mut m = migrator();
    let mut json = turbo_json();
    json.pipeline = Some(vec![(s("client#build"), task())]);
    let error = m.migrate_root_config(json).unwrap_err();
    assert_eq!(
        error.message(),
        "Unable to migrate task as package client does not exist. Is it within the workspace?"
    );
}

#[test]
fn unknown_project_of_the_graph_points_to_the_workspace() {
    let graph = ProjectGraph { projects: vec![] };
    let mut m = TurboMigrator::from_project_graph(false, false, false, false, graph);
    let mut json = turbo_json();
    json.pipeline = Some(vec![(s("client#build"), task())]);
    let error = m.migrate_root_config(json).unwrap_err();
    assert!(matches!(&error, MigrateError::UnknownProject(x) if x == "client"));
    assert!(error.message().contains(".moon/workspace.yml"));
}

#[test]
fn project_colon_task_dependencies_use_the_registry() {
    let m = migrator();
    let mut t = task();
    t.depends_on = Some(vec![s("@acme/ui:check"), s("~:lint")]);
    let deps: Vec<String> =
        m.migrate_task(&t, "x").unwrap().deps.unwrap().iter().map(|d| d.as_text()).collect();
    assert_eq!(deps, vec!["ui:check", "~:lint"]);
    t.depends_on = Some(vec![s("ghost:test")]);
    assert!(matches!(
        m.migrate_task(&t, "x"),
        Err(MigrateError::UnknownPackage(x)) if x == "ghost"
    ));
}

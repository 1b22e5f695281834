use moon_migrate::json::{convert_value_to_string_without_quotes, render_json, JsonValue};
use moon_migrate::options::migrate_options_to_args;
use moon_migrate::tokens::{is_path_or_glob, replace_tokens};

fn s(v: &str) -> String {
    v.to_string()
}

#[test]
fn rewrites_project_root_in_file_position() {
    assert_eq!(replace_tokens("{projectRoot}/src/**/*", true), "src/**/*");
    assert_eq!(replace_tokens("!{projectRoot}/src/test.ts", true), "!src/test.ts");
    assert_eq!(replace_tokens("{workspaceRoot}/config.json", true), "/config.json");
    assert_eq!(replace_tokens("!{workspaceRoot}/dist", true), "!/dist");
}

#[test]
fn rewrites_tokens_in_argument_position() {
    assert_eq!(replace_tokens("{projectRoot}/src", false), "$projectRoot/src");
    assert_eq!(replace_tokens("{workspaceRoot}/a", false), "$workspaceRoot/a");
    assert_eq!(replace_tokens("dist/{projectName}", false), "dist/$project");
    assert_eq!(
        replace_tokens("a/{projectRoot}/b/{projectRoot}", true),
        "a/$projectRoot/b/$projectRoot"
    );
}

#[test]
fn leaves_unknown_placeholders_alone() {
    assert_eq!(replace_tokens("{unknown}/file", true), "{unknown}/file");
    assert_eq!(replace_tokens("", true), "");
}

#[test]
fn rewriting_is_idempotent() {
    let samples = [
        "plain/path.ts",
        "{projectRoot}/src/**/*",
        "!{projectRoot}/{workspaceRoot}/x",
        "{workspaceRoot}/{projectName}/{projectRoot}",
        "{projectRoot}/{projectRoot}/a",
    ];
    for sample in samples {
        for position in [true, false] {
            let once = replace_tokens(sample, position);
            assert_eq!(replace_tokens(&once, position), once);
        }
    }
    assert_eq!(replace_tokens("plain/path.ts", true), "plain/path.ts");
}

#[test]
fn recognizes_paths_and_globs() {
    assert!(is_path_or_glob("src/index.ts"));
    assert!(is_path_or_glob("*.md"));
    assert!(is_path_or_glob("!exclude"));
    assert!(is_path_or_glob("{a,b}"));
    assert!(!is_path_or_glob("build"));
    assert!(!is_path_or_glob("https://example.com/a.js"));
    assert!(!is_path_or_glob("some file.txt"));
    assert!(!is_path_or_glob("tab\tfile.txt"));
}

#[test]
fn flattens_options_in_order() {
    let options = vec![
        (s("verbose"), JsonValue::Bool(true)),
        (s("mode"), JsonValue::Str(s("fast"))),
        (s("count"), JsonValue::Number(s("3"))),
    ];
    assert_eq!(
        migrate_options_to_args(&options),
        vec!["--verbose", "--mode", "fast", "--count", "3"]
    );
}

#[test]
fn flattens_false_and_null() {
    assert_eq!(
        migrate_options_to_args(&vec![(s("flag"), JsonValue::Bool(false))]),
        vec!["--no-flag"]
    );
    assert!(migrate_options_to_args(&vec![(s("x"), JsonValue::Null)]).is_empty());
    assert!(migrate_options_to_args(&vec![]).is_empty());
}

#[test]
fn anchors_path_options_at_the_workspace_root() {
    let options = vec![
        (s("config"), JsonValue::Str(s("apps/web/jest.config.ts"))),
        (s("out"), JsonValue::Str(s("//dist"))),
        (s("root"), JsonValue::Str(s("{workspaceRoot}/tools"))),
        (s("url"), JsonValue::Str(s("http://localhost/a.js"))),
    ];
    assert_eq!(
        migrate_options_to_args(&options),
        vec![
            "--config",
            "$workspaceRoot/apps/web/jest.config.ts",
            "--out",
            "$workspaceRoot/dist",
            "--root",
            "$workspaceRoot/tools",
            "--url",
            "http://localhost/a.js",
        ]
    );
}

#[test]
fn flattens_structured_options_as_json() {
    let options = vec![
        (
            s("files"),
            JsonValue::Array(vec![JsonValue::Str(s("a")), JsonValue::Number(s("2"))]),
        ),
        (
            s("env"),
            JsonValue::Object(vec![(s("k"), JsonValue::Bool(true))]),
        ),
    ];
    assert_eq!(
        migrate_options_to_args(&options),
        vec!["--files", "[\"a\",2]", "--env", "{\"k\":true}"]
    );
}

#[test]
fn renders_json_values() {
    assert_eq!(render_json(&JsonValue::Null), "null");
    assert_eq!(render_json(&JsonValue::Str(s("a\"b"))), "\"a\\\"b\"");
    assert_eq!(
        render_json(&JsonValue::Array(vec![
            JsonValue::Array(vec![]),
            JsonValue::Object(vec![])
        ])),
        "[[],{}]"
    );
}

#[test]
fn strips_only_the_outer_quotes() {
    assert_eq!(convert_value_to_string_without_quotes(&JsonValue::Str(s("hi"))), "hi");
    assert_eq!(
        convert_value_to_string_without_quotes(&JsonValue::Str(s("a\"b"))),
        "a\\\"b"
    );
    assert_eq!(
        convert_value_to_string_without_quotes(&JsonValue::Number(s("1.5"))),
        "1.5"
    );
}

#[test]
fn any_unicode_whitespace_means_no_path() {
    assert!(!is_path_or_glob("a/\x0C"));
    assert!(!is_path_or_glob("a/\x0Bb"));
    assert!(!is_path_or_glob("a/\u{00A0}b"));
    assert!(!is_path_or_glob("a/\u{3000}b"));
    assert!(is_path_or_glob("a/b"));
}

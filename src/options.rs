use vstd::prelude::*;

use crate::json::{convert_value_to_string_without_quotes, unquoted_text, JsonValue};
use crate::text::{concat, has_prefix, starts_with, trim_leading, trim_start, views};
use crate::tokens::{is_path_or_glob, looks_like_path, replace_tokens, rewrite};

verus! {

/// The argument that a string option becomes: its placeholders rewritten for
/// an argument position, and a path or glob anchored at the workspace root.
pub open spec fn arg_value(s: Seq<char>) -> Seq<char> {
    let v = rewrite(s, false);
    if looks_like_path(v) && !starts_with(v, "$workspaceRoot"@) {
        "$workspaceRoot/"@ + trim_start(v, '/')
    } else {
        v
    }
}

/// The arguments that one option becomes.
pub open spec fn option_args(key: Seq<char>, value: JsonValue) -> Seq<Seq<char>> {
    match value {
        JsonValue::Null => Seq::empty(),
        JsonValue::Bool(b) => if b {
            seq!["--"@ + key]
        } else {
            seq!["--no-"@ + key]
        },
        JsonValue::Str(s) => seq!["--"@ + key, arg_value(s@)],
        _ => seq!["--"@ + key, unquoted_text(value)],
    }
}

/// The arguments that `options` become, entry after entry in their order.
pub open spec fn options_args(options: Seq<(String, JsonValue)>) -> Seq<Seq<char>>
    decreases options.len(),
{
    if options.len() == 0 {
        Seq::empty()
    } else {
        let last = options[options.len() - 1];
        options_args(options.subrange(0, options.len() - 1)) + option_args(last.0@, last.1)
    }
}

/// The argument that the string option `value` becomes.
fn string_arg(value: &str) -> (r: String)
    ensures
        r@ == arg_value(value@),
{
    let v = replace_tokens(value, false);
    if is_path_or_glob(v.as_str()) && !has_prefix(v.as_str(), "$workspaceRoot") {
        let trimmed = trim_leading(v.as_str(), '/');
        concat("$workspaceRoot/", trimmed.as_str())
    } else {
        v
    }
}

/// Flattens `options` into command-line arguments, in the order of the
/// entries: `true` becomes `--key`, `false` becomes `--no-key`, null is
/// skipped, and any other value becomes `--key` followed by its text.
pub fn migrate_options_to_args(options: &Vec<(String, JsonValue)>) -> (r: Vec<String>)
    ensures
        views(r@) == options_args(options@),
{
    let mut args: Vec<String> = Vec::new();
    let mut i: usize = 0;
    while i < options.len()
        invariant
            i <= options@.len(),
            views(args@) == options_args(options@.subrange(0, i as int)),
        decreases options@.len() - i,
    {
        let key = options[i].0.as_str();
        let ghost before = args@;
        match &options[i].1 {
            JsonValue::Null => {},
            JsonValue::Bool(b) => {
                if *b {
                    args.push(concat("--", key));
                } else {
                    args.push(concat("--no-", key));
                }
            },
            JsonValue::Str(s) => {
                args.push(concat("--", key));
                args.push(string_arg(s.as_str()));
            },
            other => {
                args.push(concat("--", key));
                args.push(convert_value_to_string_without_quotes(other));
            },
        }
        proof {
            let next = options@.subrange(0, i + 1);
            assert(next.subrange(0, i as int) =~= options@.subrange(0, i as int));
            assert(views(args@) =~= views(before) + option_args(
                options@[i as int].0@,
                options@[i as int].1,
            ));
        }
        i = i + 1;
    }
    assert(options@.subrange(0, options@.len() as int) =~= options@);
    args
}

} // verus!

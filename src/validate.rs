use vstd::prelude::*;

use crate::text::{before_first, has_char, occurs, starts_with};

verus! {

/// Whether moon accepts `s` as an identifier.
pub uninterp spec fn valid_id(s: Seq<char>) -> bool;

/// Whether moon parses `s` as a task target.
pub uninterp spec fn valid_target(s: Seq<char>) -> bool;

/// Whether moon parses `s` as a task input.
pub uninterp spec fn valid_input(s: Seq<char>) -> bool;

/// Whether moon parses `s` as a task output.
pub uninterp spec fn valid_output(s: Seq<char>) -> bool;

/// Whether `s` looks like a glob: negated, or with a wildcard, a brace or
/// bracket pair, a `?` or a `|`.
pub open spec fn glob_like(s: Seq<char>) -> bool {
    ||| starts_with(s, "!"@)
    ||| has_char(s, '*')
    ||| (has_char(s, '{') && has_char(s, '}') && before_first(s, '{').len() < before_first(
        s,
        '}',
    ).len())
    ||| (has_char(s, '[') && has_char(s, ']') && before_first(s, '[').len() < before_first(
        s,
        ']',
    ).len())
    ||| has_char(s, '?')
    ||| has_char(s, '|')
}

/// Whether moon parses `s` as a relative file path: it does not climb out
/// with `..`, and it is no glob.
pub open spec fn valid_file_path(s: Seq<char>) -> bool {
    !occurs(s, ".."@) && !glob_like(s)
}

/// Relies on `moon_common::Id::new`, which accepts or refuses an identifier
/// by its characters alone.
#[verifier::external_body]
pub(crate) fn id_is_valid(s: &str) -> (r: bool)
    ensures
        r == valid_id(s@),
{
    moon_common::Id::new(s).is_ok()
}

/// Relies on `moon_target::Target::parse`, which accepts or refuses a target
/// by its characters alone.
#[verifier::external_body]
pub(crate) fn target_is_valid(s: &str) -> (r: bool)
    ensures
        r == valid_target(s@),
{
    moon_target::Target::parse(s).is_ok()
}

/// Relies on `moon_config::Input::parse`, which accepts or refuses an input
/// by its characters alone.
#[verifier::external_body]
pub(crate) fn input_is_valid(s: &str) -> (r: bool)
    ensures
        r == valid_input(s@),
{
    moon_config::Input::parse(s).is_ok()
}

/// Relies on `moon_config::OutputPath::from_str`, which accepts or refuses an
/// output by its characters alone.
#[verifier::external_body]
pub(crate) fn output_is_valid(s: &str) -> (r: bool)
    ensures
        r == valid_output(s@),
{
    <moon_config::OutputPath as std::str::FromStr>::from_str(s).is_ok()
}

/// Relies on `moon_config::FilePath::from_str`, which refuses a path that
/// holds `..` or looks like a glob (`is_glob_like`), and accepts any other.
#[verifier::external_body]
pub(crate) fn file_path_is_valid(s: &str) -> (r: bool)
    ensures
        r == valid_file_path(s@),
{
    <moon_config::FilePath as std::str::FromStr>::from_str(s).is_ok()
}

/// `name` as a moon identifier, when moon accepts it as one.
pub fn create_id(name: &str) -> (r: Result<String, crate::error::MigrateError>)
    ensures
        r is Ok <==> valid_id(name@),
        r matches Ok(id) ==> id@ == name@,
        r matches Err(e) ==> e matches crate::error::MigrateError::InvalidId(x) && x@ == name@,
{
    if id_is_valid(name) {
        Ok(String::from_str(name))
    } else {
        Err(crate::error::MigrateError::InvalidId(String::from_str(name)))
    }
}

} // verus!

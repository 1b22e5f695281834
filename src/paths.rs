use vstd::prelude::*;

use crate::config::{output_views, InputPath, InputView, OutputPath, OutputView};
use crate::error::MigrateError;
use crate::text::{concat, ends_with, has_suffix, slice};
use crate::tokens::{replace_tokens, rewrite};
use crate::validate::{input_is_valid, output_is_valid, valid_input, valid_output};

verus! {

/// The output that the declared output `s` becomes: a glob that ends in `/**`
/// becomes a glob of the project's directory tree, anything else a path.
pub open spec fn output_of(s: Seq<char>) -> OutputView {
    let v = rewrite(s, true);
    if ends_with(v, "/**"@) {
        OutputView::ProjectGlob(v.subrange(0, v.len() - 3) + "/*"@)
    } else {
        OutputView::Path(v)
    }
}

/// Whether moon accepts the output that `s` becomes.
pub open spec fn output_ok(s: Seq<char>) -> bool {
    let v = rewrite(s, true);
    ends_with(v, "/**"@) || valid_output(v)
}

/// The outputs that `raw` become, in their order.
pub open spec fn outputs_of(raw: Seq<String>) -> Seq<OutputView> {
    raw.map_values(|s: String| output_of(s@))
}

/// The input that the file or glob `s` becomes.
pub open spec fn path_input_of(s: Seq<char>) -> InputView {
    InputView::Path(rewrite(s, true))
}

/// The input that a file or glob `s` becomes, when moon accepts it.
pub fn path_input(s: &str) -> (r: Result<InputPath, MigrateError>)
    ensures
        r is Ok <==> valid_input(rewrite(s@, true)),
        r matches Ok(i) ==> i@ == path_input_of(s@),
        r matches Err(e) ==> e matches MigrateError::InvalidInput(x) && x@ == rewrite(s@, true),
{
    let v = replace_tokens(s, true);
    if input_is_valid(v.as_str()) {
        Ok(InputPath::Path(v))
    } else {
        Err(MigrateError::InvalidInput(v))
    }
}

/// The output that the declared output `s` becomes, when moon accepts it.
pub fn migrate_output(s: &str) -> (r: Result<OutputPath, MigrateError>)
    ensures
        r is Ok <==> output_ok(s@),
        r matches Ok(o) ==> o@ == output_of(s@),
        r matches Err(e) ==> e matches MigrateError::InvalidOutput(x) && x@ == rewrite(s@, true),
{
    let v = replace_tokens(s, true);
    proof {
        reveal_strlit("/**");
    }
    if has_suffix(v.as_str(), "/**") {
        let n = v.as_str().unicode_len();
        let stem = slice(v.as_str(), 0, n - 3);
        Ok(OutputPath::ProjectGlob(concat(stem.as_str(), "/*")))
    } else if output_is_valid(v.as_str()) {
        Ok(OutputPath::Path(v))
    } else {
        Err(MigrateError::InvalidOutput(v))
    }
}

/// The outputs that the declared outputs `raw` become, in their order; fails
/// on the first that moon does not accept.
pub fn migrate_outputs(raw: &Vec<String>) -> (r: Result<Vec<OutputPath>, MigrateError>)
    ensures
        r is Ok <==> forall|k: int| 0 <= k < raw@.len() ==> output_ok(raw@[k]@),
        r matches Ok(v) ==> output_views(v@) == outputs_of(raw@),
        r matches Err(e) ==> e is InvalidOutput,
{
    let mut out: Vec<OutputPath> = Vec::new();
    let mut i: usize = 0;
    while i < raw.len()
        invariant
            i <= raw@.len(),
            forall|k: int| 0 <= k < i ==> output_ok(raw@[k]@),
            output_views(out@) == outputs_of(raw@.subrange(0, i as int)),
        decreases raw@.len() - i,
    {
        let o = migrate_output(raw[i].as_str());
        match o {
            Ok(o) => {
                out.push(o);
                proof {
                    assert(outputs_of(raw@.subrange(0, i + 1)) =~= outputs_of(
                        raw@.subrange(0, i as int),
                    ).push(output_of(raw@[i as int]@)));
                    assert(output_views(out@) =~= output_views(out@.drop_last()).push(
                        out@.last()@,
                    ));
                }
            },
            Err(e) => {
                return Err(e);
            },
        }
        i = i + 1;
    }
    assert(raw@.subrange(0, raw@.len() as int) =~= raw@);
    Ok(out)
}

/// A declared output whose glob ends in `/**`, and still does once its
/// placeholders are rewritten, becomes a glob over the project's directory
/// tree and never a plain path.
pub proof fn lemma_recursive_glob_output(s: Seq<char>)
    requires
        ends_with(s, "/**"@),
        ends_with(rewrite(s, true), "/**"@),
    ensures
        output_of(s) is ProjectGlob,
        output_ok(s),
{
}

} // verus!

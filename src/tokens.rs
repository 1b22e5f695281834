use vstd::prelude::*;

use crate::text::{
    contains_char, has_char, has_prefix, lemma_replace_all_absent, occurs, occurs_at,
    replace_all, replace_leading, replace_prefix, replace_str, starts_with,
};

verus! {

/// The placeholder for a project's name.
pub open spec fn project_name_placeholder() -> Seq<char> {
    "{projectName}"@
}

/// The placeholder for a project's root directory.
pub open spec fn project_root_placeholder() -> Seq<char> {
    "{projectRoot}"@
}

/// The placeholder for the workspace root directory.
pub open spec fn workspace_root_placeholder() -> Seq<char> {
    "{workspaceRoot}"@
}

/// Whether `v` holds none of the three placeholders.
pub open spec fn has_no_placeholder(v: Seq<char>) -> bool {
    &&& !occurs(v, project_name_placeholder())
    &&& !occurs(v, project_root_placeholder())
    &&& !occurs(v, workspace_root_placeholder())
}

/// The placeholders of `v` rewritten into tokens, in a fixed order; in a file
/// position a leading root placeholder becomes a relative or absolute path.
pub open spec fn rewrite(v: Seq<char>, for_sources: bool) -> Seq<char> {
    let r1 = replace_all(v, "{projectName}"@, "$project"@);
    let r2 = if for_sources {
        replace_prefix(replace_prefix(r1, "!{projectRoot}/"@, "!"@), "{projectRoot}/"@, ""@)
    } else {
        r1
    };
    let r3 = replace_all(r2, "{projectRoot}"@, "$projectRoot"@);
    let r4 = if for_sources {
        replace_prefix(replace_prefix(r3, "!{workspaceRoot}/"@, "!/"@), "{workspaceRoot}/"@, "/"@)
    } else {
        r3
    };
    replace_all(r4, "{workspaceRoot}"@, "$workspaceRoot"@)
}

/// Whether `c` is a whitespace character: one of Unicode's `White_Space`
/// characters, as `char::is_whitespace` documents them.
pub open spec fn is_space(c: char) -> bool {
    let n = c as u32;
    ||| 0x9 <= n <= 0xD
    ||| n == 0x20
    ||| n == 0x85
    ||| n == 0xA0
    ||| n == 0x1680
    ||| 0x2000 <= n <= 0x200A
    ||| n == 0x2028
    ||| n == 0x2029
    ||| n == 0x202F
    ||| n == 0x205F
    ||| n == 0x3000
}

/// Whether `c` is a whitespace character.
fn char_is_space(c: char) -> (r: bool)
    ensures
        r == is_space(c),
{
    let n = c as u32;
    (0x9 <= n && n <= 0xD) || n == 0x20 || n == 0x85 || n == 0xA0 || n == 0x1680 || (0x2000 <= n
        && n <= 0x200A) || n == 0x2028 || n == 0x2029 || n == 0x202F || n == 0x205F || n == 0x3000
}

/// Whether `v` holds a whitespace character.
pub open spec fn has_space(v: Seq<char>) -> bool {
    exists|i: int| 0 <= i < v.len() && is_space(v[i])
}

/// Whether `v` reads as a file path or a glob: it holds a path or glob
/// character or is negated, is no URL, and holds no whitespace.
pub open spec fn looks_like_path(v: Seq<char>) -> bool {
    &&& (has_char(v, '/') || has_char(v, '*') || has_char(v, '.') || has_char(v, '{')
        || starts_with(v, "!"@))
    &&& !starts_with(v, "http"@)
    &&& !has_space(v)
}

/// Whether `value` reads as a file path or a glob.
pub fn is_path_or_glob(value: &str) -> (r: bool)
    ensures
        r == looks_like_path(value@),
{
    let n = value.unicode_len();
    let mut i: usize = 0;
    while i < n
        invariant
            n == value@.len(),
            i <= n,
            forall|j: int| 0 <= j < i ==> !is_space(value@[j]),
        decreases n - i,
    {
        let c = value.get_char(i);
        if char_is_space(c) {
            return false;
        }
        i = i + 1;
    }
    (contains_char(value, '/') || contains_char(value, '*') || contains_char(value, '.')
        || contains_char(value, '{') || has_prefix(value, "!")) && !has_prefix(value, "http")
}

/// Rewrites the placeholders of `value` into tokens; `for_sources` selects the
/// file position, where leading root placeholders become paths.
pub fn replace_tokens(value: &str, for_sources: bool) -> (r: String)
    ensures
        r@ == rewrite(value@, for_sources),
{
    let mut result = replace_str(value, "{projectName}", "$project");
    if for_sources {
        result = replace_leading(result.as_str(), "!{projectRoot}/", "!");
        result = replace_leading(result.as_str(), "{projectRoot}/", "");
    }
    result = replace_str(result.as_str(), "{projectRoot}", "$projectRoot");
    if for_sources {
        result = replace_leading(result.as_str(), "!{workspaceRoot}/", "!/");
        result = replace_leading(result.as_str(), "{workspaceRoot}/", "/");
    }
    replace_str(result.as_str(), "{workspaceRoot}", "$workspaceRoot")
}

proof fn lemma_no_negated_prefix(v: Seq<char>, lead: Seq<char>, p: Seq<char>)
    requires
        !occurs(v, p),
        lead.len() == p.len() + 2,
        lead[0] == '!',
        lead.subrange(1, lead.len() - 1) == p,
    ensures
        !starts_with(v, lead),
{
    if starts_with(v, lead) {
        assert(v.subrange(1, 1 + p.len() as int) =~= v.subrange(0, lead.len() as int).subrange(
            1,
            1 + p.len() as int,
        ));
        assert(occurs_at(v, p, 1));
    }
}

proof fn lemma_no_plain_prefix(v: Seq<char>, lead: Seq<char>, p: Seq<char>)
    requires
        !occurs(v, p),
        lead.len() == p.len() + 1,
        lead.subrange(0, lead.len() - 1) == p,
    ensures
        !starts_with(v, lead),
{
    if starts_with(v, lead) {
        assert(v.subrange(0, p.len() as int) =~= v.subrange(0, lead.len() as int).subrange(
            0,
            p.len() as int,
        ));
        assert(occurs_at(v, p, 0));
    }
}

/// Rewriting leaves a value without placeholders unchanged, in either
/// position.
pub proof fn lemma_rewrite_keeps_plain_values(v: Seq<char>, for_sources: bool)
    requires
        has_no_placeholder(v),
    ensures
        rewrite(v, for_sources) == v,
{
    reveal_strlit("{projectName}");
    reveal_strlit("{projectRoot}");
    reveal_strlit("{workspaceRoot}");
    reveal_strlit("!{projectRoot}/");
    reveal_strlit("{projectRoot}/");
    reveal_strlit("!{workspaceRoot}/");
    reveal_strlit("{workspaceRoot}/");
    lemma_replace_all_absent(v, "{projectName}"@, "$project"@);
    if for_sources {
        assert("!{projectRoot}/"@.subrange(1, 14) =~= "{projectRoot}"@);
        lemma_no_negated_prefix(v, "!{projectRoot}/"@, "{projectRoot}"@);
        assert("{projectRoot}/"@.subrange(0, 13) =~= "{projectRoot}"@);
        lemma_no_plain_prefix(v, "{projectRoot}/"@, "{projectRoot}"@);
    }
    lemma_replace_all_absent(v, "{projectRoot}"@, "$projectRoot"@);
    if for_sources {
        assert("!{workspaceRoot}/"@.subrange(1, 16) =~= "{workspaceRoot}"@);
        lemma_no_negated_prefix(v, "!{workspaceRoot}/"@, "{workspaceRoot}"@);
        assert("{workspaceRoot}/"@.subrange(0, 15) =~= "{workspaceRoot}"@);
        lemma_no_plain_prefix(v, "{workspaceRoot}/"@, "{workspaceRoot}"@);
    }
    lemma_replace_all_absent(v, "{workspaceRoot}"@, "$workspaceRoot"@);
}

/// Whether `q` is a placeholder word: a `{`, then characters without braces
/// or `$`, then a `}`.
pub open spec fn is_brace_word(q: Seq<char>) -> bool {
    &&& q.len() >= 2
    &&& q[0] == '{'
    &&& q[q.len() - 1] == '}'
    &&& forall|i: int| 0 < i < q.len() - 1 ==> q[i] != '{' && q[i] != '}'
    &&& forall|i: int| 0 <= i < q.len() ==> q[i] != '$'
}

/// Whether `r` is a token: it starts with `$` and holds no brace.
pub open spec fn is_token_text(r: Seq<char>) -> bool {
    &&& r.len() > 0
    &&& r[0] == '$'
    &&& forall|i: int| 0 <= i < r.len() ==> r[i] != '{' && r[i] != '}'
}

/// A prefix without `$` of a text whose matches became tokens was already a
/// prefix of the text before the replacement.
proof fn lemma_prefix_survives(t: Seq<char>, p: Seq<char>, r: Seq<char>, w: Seq<char>)
    requires
        p.len() > 0,
        is_token_text(r),
        forall|i: int| 0 <= i < w.len() ==> w[i] != '$',
        starts_with(replace_all(t, p, r), w),
    ensures
        starts_with(t, w),
    decreases w.len(),
{
    if w.len() == 0 {
        assert(t.subrange(0, 0) =~= w);
    } else if t.len() == 0 {
    } else if starts_with(t, p) {
        assert(replace_all(t, p, r)[0] == r[0]);
        assert(w[0] == replace_all(t, p, r).subrange(0, w.len() as int)[0]);
    } else {
        let out = replace_all(t, p, r);
        let rest = t.subrange(1, t.len() as int);
        let w1 = w.subrange(1, w.len() as int);
        assert(out == seq![t[0]] + replace_all(rest, p, r));
        assert(replace_all(rest, p, r).subrange(0, w1.len() as int) =~= out.subrange(
            0,
            w.len() as int,
        ).subrange(1, w.len() as int));
        lemma_prefix_survives(rest, p, r, w1);
        assert(w[0] == out.subrange(0, w.len() as int)[0]);
        assert(t.subrange(0, w.len() as int) =~= seq![t[0]] + rest.subrange(0, w1.len() as int));
        assert(w =~= seq![w[0]] + w1);
    }
}

/// Replacing the placeholder `p` by a token leaves no `p`, and leaves another
/// placeholder only where the text already held it.
proof fn lemma_replace_consumes(s: Seq<char>, p: Seq<char>, r: Seq<char>, q: Seq<char>)
    requires
        is_brace_word(p),
        is_brace_word(q),
        is_token_text(r),
        occurs(replace_all(s, p, r), q),
    ensures
        occurs(s, q),
        q != p,
    decreases s.len(),
{
    let out = replace_all(s, p, r);
    let i = choose|i: int| occurs_at(out, q, i);
    assert(out.subrange(i, i + q.len())[0] == q[0]);
    if s.len() == 0 {
    } else if starts_with(s, p) {
        let rest = s.subrange(p.len() as int, s.len() as int);
        let tail_out = replace_all(rest, p, r);
        assert(out == r + tail_out);
        if i < r.len() {
            assert(out[i] == r[i]);
        } else {
            assert(tail_out.subrange(i - r.len(), i - r.len() + q.len()) =~= out.subrange(
                i,
                i + q.len(),
            ));
            assert(occurs_at(tail_out, q, i - r.len()));
            lemma_replace_consumes(rest, p, r, q);
            let j = choose|j: int| occurs_at(rest, q, j);
            assert(s.subrange(j + p.len(), j + p.len() + q.len()) =~= rest.subrange(
                j,
                j + q.len(),
            ));
            assert(occurs_at(s, q, j + p.len()));
        }
    } else {
        let rest = s.subrange(1, s.len() as int);
        let tail_out = replace_all(rest, p, r);
        assert(out == seq![s[0]] + tail_out);
        if i >= 1 {
            assert(tail_out.subrange(i - 1, i - 1 + q.len()) =~= out.subrange(i, i + q.len()));
            assert(occurs_at(tail_out, q, i - 1));
            lemma_replace_consumes(rest, p, r, q);
            let j = choose|j: int| occurs_at(rest, q, j);
            assert(s.subrange(j + 1, j + 1 + q.len()) =~= rest.subrange(j, j + q.len()));
            assert(occurs_at(s, q, j + 1));
        } else {
            let w = q.subrange(1, q.len() as int);
            assert(tail_out.subrange(0, w.len() as int) =~= out.subrange(0, q.len() as int).subrange(
                1,
                q.len() as int,
            ));
            lemma_prefix_survives(rest, p, r, w);
            assert(s.subrange(0, q.len() as int) =~= seq![s[0]] + rest.subrange(
                0,
                w.len() as int,
            ));
            assert(q =~= seq![q[0]] + w);
            assert(s[0] == out[0]);
            assert(occurs_at(s, q, 0));
            if q == p {
                assert(starts_with(s, p));
            }
        }
    }
}

/// Replacing a leading part by text without braces leaves a placeholder only
/// where the text already held it.
proof fn lemma_prefix_keeps_absence(s: Seq<char>, lead: Seq<char>, r: Seq<char>, q: Seq<char>)
    requires
        is_brace_word(q),
        forall|i: int| 0 <= i < r.len() ==> r[i] != '{',
        occurs(replace_prefix(s, lead, r), q),
    ensures
        occurs(s, q),
{
    let out = replace_prefix(s, lead, r);
    let i = choose|i: int| occurs_at(out, q, i);
    assert(out.subrange(i, i + q.len())[0] == q[0]);
    if starts_with(s, lead) {
        let rest = s.subrange(lead.len() as int, s.len() as int);
        assert(out == r + rest);
        if i < r.len() {
            assert(out[i] == r[i]);
        } else {
            assert(s.subrange(i - r.len() + lead.len(), i - r.len() + lead.len() + q.len())
                =~= out.subrange(i, i + q.len()));
            assert(occurs_at(s, q, i - r.len() + lead.len()));
        }
    }
}

/// Rewriting consumes every placeholder, so rewriting twice gives what
/// rewriting once gives, in either position.
pub proof fn lemma_rewrite_idempotent(v: Seq<char>, for_sources: bool)
    ensures
        has_no_placeholder(rewrite(v, for_sources)),
        rewrite(rewrite(v, for_sources), for_sources) == rewrite(v, for_sources),
{
    reveal_strlit("{projectName}");
    reveal_strlit("{projectRoot}");
    reveal_strlit("{workspaceRoot}");
    reveal_strlit("$project");
    reveal_strlit("$projectRoot");
    reveal_strlit("$workspaceRoot");
    reveal_strlit("!");
    reveal_strlit("");
    reveal_strlit("!/");
    reveal_strlit("/");
    let pn = "{projectName}"@;
    let pr = "{projectRoot}"@;
    let wr = "{workspaceRoot}"@;
    assert(is_brace_word(pn));
    assert(is_brace_word(pr));
    assert(is_brace_word(wr));
    assert(is_token_text("$project"@));
    assert(is_token_text("$projectRoot"@));
    assert(is_token_text("$workspaceRoot"@));
    let r1 = replace_all(v, pn, "$project"@);
    let r2 = if for_sources {
        replace_prefix(replace_prefix(r1, "!{projectRoot}/"@, "!"@), "{projectRoot}/"@, ""@)
    } else {
        r1
    };
    let r3 = replace_all(r2, pr, "$projectRoot"@);
    let r4 = if for_sources {
        replace_prefix(replace_prefix(r3, "!{workspaceRoot}/"@, "!/"@), "{workspaceRoot}/"@, "/"@)
    } else {
        r3
    };
    let r5 = replace_all(r4, wr, "$workspaceRoot"@);
    assert(r5 == rewrite(v, for_sources));
    assert forall|q: Seq<char>| is_brace_word(q) && occurs(r2, q) implies occurs(r1, q) by {
        if for_sources {
            let a = replace_prefix(r1, "!{projectRoot}/"@, "!"@);
            lemma_prefix_keeps_absence(a, "{projectRoot}/"@, ""@, q);
            lemma_prefix_keeps_absence(r1, "!{projectRoot}/"@, "!"@, q);
        }
    }
    assert forall|q: Seq<char>| is_brace_word(q) && occurs(r4, q) implies occurs(r3, q) by {
        if for_sources {
            let a = replace_prefix(r3, "!{workspaceRoot}/"@, "!/"@);
            lemma_prefix_keeps_absence(a, "{workspaceRoot}/"@, "/"@, q);
            lemma_prefix_keeps_absence(r3, "!{workspaceRoot}/"@, "!/"@, q);
        }
    }
    if occurs(r5, pn) {
        lemma_replace_consumes(r4, wr, "$workspaceRoot"@, pn);
        lemma_replace_consumes(r2, pr, "$projectRoot"@, pn);
        lemma_replace_consumes(v, pn, "$project"@, pn);
    }
    if occurs(r5, pr) {
        lemma_replace_consumes(r4, wr, "$workspaceRoot"@, pr);
        lemma_replace_consumes(r2, pr, "$projectRoot"@, pr);
    }
    if occurs(r5, wr) {
        lemma_replace_consumes(r4, wr, "$workspaceRoot"@, wr);
    }
    lemma_rewrite_keeps_plain_values(r5, for_sources);
}

} // verus!

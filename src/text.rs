use vstd::prelude::*;

verus! {

/// Whether `c` occurs anywhere in `s`.
pub open spec fn has_char(s: Seq<char>, c: char) -> bool {
    exists|i: int| 0 <= i < s.len() && s[i] == c
}

/// Whether `p` occurs in `s` starting at index `i`.
pub open spec fn occurs_at(s: Seq<char>, p: Seq<char>, i: int) -> bool {
    0 <= i && i + p.len() <= s.len() && s.subrange(i, i + p.len()) == p
}

/// Whether `s` begins with `p`.
pub open spec fn starts_with(s: Seq<char>, p: Seq<char>) -> bool {
    occurs_at(s, p, 0)
}

/// Whether `s` ends with `p`.
pub open spec fn ends_with(s: Seq<char>, p: Seq<char>) -> bool {
    occurs_at(s, p, s.len() - p.len())
}

/// Whether `p` occurs anywhere in `s`.
pub open spec fn occurs(s: Seq<char>, p: Seq<char>) -> bool {
    exists|i: int| occurs_at(s, p, i)
}

/// `s` with every non-overlapping occurrence of `p`, scanned from the left,
/// replaced by `r`.
pub open spec fn replace_all(s: Seq<char>, p: Seq<char>, r: Seq<char>) -> Seq<char>
    decreases s.len(),
{
    if s.len() == 0 || p.len() == 0 {
        s
    } else if starts_with(s, p) {
        r + replace_all(s.subrange(p.len() as int, s.len() as int), p, r)
    } else {
        seq![s[0]] + replace_all(s.subrange(1, s.len() as int), p, r)
    }
}

/// `s` with its leading `p` replaced by `r`, when it starts with `p`.
pub open spec fn replace_prefix(s: Seq<char>, p: Seq<char>, r: Seq<char>) -> Seq<char> {
    if starts_with(s, p) {
        r + s.subrange(p.len() as int, s.len() as int)
    } else {
        s
    }
}

/// `s` without any of the `c` characters at its start.
pub open spec fn trim_start(s: Seq<char>, c: char) -> Seq<char>
    decreases s.len(),
{
    if s.len() > 0 && s[0] == c {
        trim_start(s.subrange(1, s.len() as int), c)
    } else {
        s
    }
}

/// `s` without any of the `c` characters at its end.
pub open spec fn trim_end(s: Seq<char>, c: char) -> Seq<char>
    decreases s.len(),
{
    if s.len() > 0 && s[s.len() - 1] == c {
        trim_end(s.subrange(0, s.len() - 1), c)
    } else {
        s
    }
}

/// A string without occurrences of `p` is left alone by replacing `p`.
pub proof fn lemma_replace_all_absent(s: Seq<char>, p: Seq<char>, r: Seq<char>)
    requires
        !occurs(s, p),
    ensures
        replace_all(s, p, r) == s,
    decreases s.len(),
{
    if s.len() == 0 || p.len() == 0 {
    } else {
        assert(!occurs_at(s, p, 0));
        let t = s.subrange(1, s.len() as int);
        assert forall|i: int| !occurs_at(t, p, i) by {
            if occurs_at(t, p, i) {
                assert(t.subrange(i, i + p.len()) =~= s.subrange(i + 1, i + 1 + p.len()));
                assert(occurs_at(s, p, i + 1));
            }
        }
        lemma_replace_all_absent(t, p, r);
        assert(s =~= seq![s[0]] + t);
    }
}

/// Whether `s` contains the character `c`.
pub fn contains_char(s: &str, c: char) -> (r: bool)
    ensures
        r == has_char(s@, c),
{
    let n = s.unicode_len();
    let mut i: usize = 0;
    while i < n
        invariant
            n == s@.len(),
            i <= n,
            forall|j: int| 0 <= j < i ==> s@[j] != c,
        decreases n - i,
    {
        if s.get_char(i) == c {
            return true;
        }
        i = i + 1;
    }
    false
}

/// Whether `p` occurs in `s` at index `i`.
pub fn matches_at(s: &str, p: &str, i: usize) -> (r: bool)
    ensures
        r == occurs_at(s@, p@, i as int),
{
    let n = s.unicode_len();
    let m = p.unicode_len();
    if i > n || m > n - i {
        return false;
    }
    let mut j: usize = 0;
    while j < m
        invariant
            n == s@.len(),
            m == p@.len(),
            i + m <= n,
            j <= m,
            forall|k: int| 0 <= k < j ==> s@[i + k] == p@[k],
        decreases m - j,
    {
        if s.get_char(i + j) != p.get_char(j) {
            assert(s@.subrange(i as int, i + m)[j as int] != p@[j as int]);
            return false;
        }
        j = j + 1;
    }
    assert(s@.subrange(i as int, i + m) =~= p@);
    true
}

/// Whether `s` begins with `p`.
pub fn has_prefix(s: &str, p: &str) -> (r: bool)
    ensures
        r == starts_with(s@, p@),
{
    matches_at(s, p, 0)
}

/// Whether `s` ends with `p`.
pub fn has_suffix(s: &str, p: &str) -> (r: bool)
    ensures
        r == ends_with(s@, p@),
{
    let n = s.unicode_len();
    let m = p.unicode_len();
    if m > n {
        return false;
    }
    matches_at(s, p, n - m)
}

/// The concatenation of `a` and `b`.
pub fn concat(a: &str, b: &str) -> (r: String)
    ensures
        r@ == a@ + b@,
{
    String::from_str(a).concat(b)
}

/// The characters of `s` from index `from` on.
pub fn tail(s: &str, from: usize) -> (r: String)
    requires
        from <= s@.len(),
    ensures
        r@ == s@.subrange(from as int, s@.len() as int),
{
    let n = s.unicode_len();
    String::from_str(s.substring_char(from, n))
}

/// `s` with its leading `p` replaced by `r`, when it starts with `p`.
pub fn replace_leading(s: &str, p: &str, r: &str) -> (out: String)
    ensures
        out@ == replace_prefix(s@, p@, r@),
{
    if has_prefix(s, p) {
        let rest = tail(s, p.unicode_len());
        concat(r, rest.as_str())
    } else {
        String::from_str(s)
    }
}

/// `s` with every occurrence of `p`, scanned from the left, replaced by `r`.
pub fn replace_str(s: &str, p: &str, r: &str) -> (out: String)
    ensures
        out@ == replace_all(s@, p@, r@),
{
    let n = s.unicode_len();
    let m = p.unicode_len();
    if m == 0 {
        return String::from_str(s);
    }
    let mut out = String::new();
    let mut i: usize = 0;
    assert(s@.subrange(0, n as int) =~= s@);
    while i < n
        invariant
            n == s@.len(),
            m == p@.len(),
            m > 0,
            i <= n,
            replace_all(s@, p@, r@) == out@ + replace_all(s@.subrange(i as int, n as int), p@, r@),
        decreases n - i,
    {
        let ghost rest = s@.subrange(i as int, n as int);
        if matches_at(s, p, i) {
            assert(rest.subrange(0, m as int) =~= s@.subrange(i as int, i + m));
            assert(rest.subrange(m as int, rest.len() as int) =~= s@.subrange(i + m, n as int));
            let ghost before = out@;
            out.append(r);
            i = i + m;
            assert(before + (r@ + replace_all(s@.subrange(i as int, n as int), p@, r@)) =~= out@
                + replace_all(s@.subrange(i as int, n as int), p@, r@));
        } else {
            assert(m <= rest.len() ==> rest.subrange(0, m as int) =~= s@.subrange(
                i as int,
                i + m,
            ));
            assert(rest.subrange(1, rest.len() as int) =~= s@.subrange(i + 1, n as int));
            let c = s.substring_char(i, i + 1);
            assert(c@ =~= seq![rest[0]]);
            let ghost before = out@;
            out.append(c);
            i = i + 1;
            assert(before + (seq![rest[0]] + replace_all(s@.subrange(i as int, n as int), p@, r@))
                =~= out@ + replace_all(s@.subrange(i as int, n as int), p@, r@));
        }
    }
    assert(s@.subrange(n as int, n as int) =~= Seq::<char>::empty());
    assert(out@ + Seq::<char>::empty() =~= out@);
    out
}

/// `s` without the `c` characters at either end.
pub fn trim_both(s: &str, c: char) -> (r: String)
    ensures
        r@ == trim_end(trim_start(s@, c), c),
{
    let n = s.unicode_len();
    let mut a: usize = 0;
    assert(s@.subrange(0, n as int) =~= s@);
    while a < n && s.get_char(a) == c
        invariant
            n == s@.len(),
            a <= n,
            trim_start(s@, c) == trim_start(s@.subrange(a as int, n as int), c),
        decreases n - a,
    {
        assert(s@.subrange(a as int, n as int).subrange(1, (n - a) as int) =~= s@.subrange(
            a + 1,
            n as int,
        ));
        a = a + 1;
    }
    assert(trim_start(s@.subrange(a as int, n as int), c) == s@.subrange(a as int, n as int));
    let mut b: usize = n;
    while b > a && s.get_char(b - 1) == c
        invariant
            n == s@.len(),
            a <= b <= n,
            trim_end(s@.subrange(a as int, n as int), c) == trim_end(
                s@.subrange(a as int, b as int),
                c,
            ),
        decreases b - a,
    {
        assert(s@.subrange(a as int, b as int).subrange(0, (b - a - 1) as int) =~= s@.subrange(
            a as int,
            b - 1,
        ));
        b = b - 1;
    }
    String::from_str(s.substring_char(a, b))
}

/// Whether `k` is the first index of `c` in `s`.
pub open spec fn first_index_at(s: Seq<char>, c: char, k: int) -> bool {
    &&& 0 <= k < s.len()
    &&& s[k] == c
    &&& forall|j: int| 0 <= j < k ==> s[j] != c
}

/// The first index of `c` in `s`, if any.
pub fn first_index(s: &str, c: char) -> (r: Option<usize>)
    ensures
        r matches Some(k) ==> first_index_at(s@, c, k as int),
        r is None ==> !has_char(s@, c),
{
    let n = s.unicode_len();
    let mut i: usize = 0;
    while i < n
        invariant
            n == s@.len(),
            i <= n,
            forall|j: int| 0 <= j < i ==> s@[j] != c,
        decreases n - i,
    {
        if s.get_char(i) == c {
            return Some(i);
        }
        i = i + 1;
    }
    None
}

/// The last index of `c` in `s`, if any.
pub fn last_index(s: &str, c: char) -> (r: Option<usize>)
    ensures
        r matches Some(k) ==> {
            &&& 0 <= k < s@.len()
            &&& s@[k as int] == c
            &&& forall|j: int| k < j < s@.len() ==> s@[j] != c
        },
        r is None ==> !has_char(s@, c),
{
    let n = s.unicode_len();
    let mut i: usize = n;
    while i > 0
        invariant
            n == s@.len(),
            i <= n,
            forall|j: int| i <= j < n ==> s@[j] != c,
        decreases i,
    {
        if s.get_char(i - 1) == c {
            return Some(i - 1);
        }
        i = i - 1;
    }
    None
}

/// The characters of `s` from `from` up to `to`.
pub fn slice(s: &str, from: usize, to: usize) -> (r: String)
    requires
        from <= to <= s@.len(),
    ensures
        r@ == s@.subrange(from as int, to as int),
{
    String::from_str(s.substring_char(from, to))
}

/// Whether `a` and `b` hold the same characters.
pub fn same_text(a: &str, b: &str) -> (r: bool)
    ensures
        r == (a@ == b@),
{
    let r = matches_at(a, b, 0) && a.unicode_len() == b.unicode_len();
    proof {
        if r {
            assert(a@ =~= a@.subrange(0, b@.len() as int));
        }
        if a@ == b@ {
            assert(a@.subrange(0, b@.len() as int) =~= b@);
        }
    }
    r
}

/// `s` without the `c` characters at its start.
pub fn trim_leading(s: &str, c: char) -> (r: String)
    ensures
        r@ == trim_start(s@, c),
{
    let n = s.unicode_len();
    let mut a: usize = 0;
    assert(s@.subrange(0, n as int) =~= s@);
    while a < n && s.get_char(a) == c
        invariant
            n == s@.len(),
            a <= n,
            trim_start(s@, c) == trim_start(s@.subrange(a as int, n as int), c),
        decreases n - a,
    {
        assert(s@.subrange(a as int, n as int).subrange(1, (n - a) as int) =~= s@.subrange(
            a + 1,
            n as int,
        ));
        a = a + 1;
    }
    tail(s, a)
}

/// The views of a sequence of strings.
pub open spec fn views(v: Seq<String>) -> Seq<Seq<char>> {
    v.map_values(|s: String| s@)
}

/// The part of `s` before the first `c`, or all of `s` when it holds none.
pub open spec fn before_first(s: Seq<char>, c: char) -> Seq<char> {
    if has_char(s, c) {
        s.subrange(0, choose|k: int| first_index_at(s, c, k))
    } else {
        s
    }
}

/// The part of `s` after the first `c`, or nothing when it holds none.
pub open spec fn after_first(s: Seq<char>, c: char) -> Seq<char> {
    if has_char(s, c) {
        s.subrange((choose|k: int| first_index_at(s, c, k)) + 1, s.len() as int)
    } else {
        Seq::empty()
    }
}

/// The first index of `c` is the index that `first_index_at` picks.
pub proof fn lemma_first_index_unique(s: Seq<char>, c: char, k: int)
    requires
        first_index_at(s, c, k),
    ensures
        (choose|j: int| first_index_at(s, c, j)) == k,
        has_char(s, c),
{
    let j = choose|j: int| first_index_at(s, c, j);
    assert(first_index_at(s, c, j));
    if j < k {
        assert(s[j] != c);
    }
    if j > k {
        assert(s[k] != c);
    }
}

/// `s` split at its first `c`: the part before and the part after.
pub fn split_first(s: &str, c: char) -> (r: (String, String))
    ensures
        r.0@ == before_first(s@, c),
        r.1@ == after_first(s@, c),
{
    let n = s.unicode_len();
    match first_index(s, c) {
        Some(k) => {
            proof {
                lemma_first_index_unique(s@, c, k as int);
            }
            (slice(s, 0, k), tail(s, k + 1))
        },
        None => (String::from_str(s), String::new()),
    }
}

/// `parts` joined with `sep` between each two.
pub open spec fn join(parts: Seq<Seq<char>>, sep: Seq<char>) -> Seq<char>
    decreases parts.len(),
{
    if parts.len() == 0 {
        Seq::empty()
    } else if parts.len() == 1 {
        parts[0]
    } else {
        join(parts.subrange(0, parts.len() - 1), sep) + sep + parts[parts.len() - 1]
    }
}

/// Whether `k` is the last index of `c` in `s`.
pub open spec fn last_index_at(s: Seq<char>, c: char, k: int) -> bool {
    &&& 0 <= k < s.len()
    &&& s[k] == c
    &&& forall|j: int| k < j < s.len() ==> s[j] != c
}

/// The last component of the path `p`.
pub open spec fn file_name_of(p: Seq<char>) -> Seq<char> {
    if has_char(p, '/') {
        p.subrange((choose|k: int| last_index_at(p, '/', k)) + 1, p.len() as int)
    } else {
        p
    }
}

/// The path `p` without its last component.
pub open spec fn parent_of(p: Seq<char>) -> Seq<char> {
    if has_char(p, '/') {
        p.subrange(0, choose|k: int| last_index_at(p, '/', k))
    } else {
        Seq::empty()
    }
}

/// The path `p` split into its parent and its last component.
pub fn split_path(p: &str) -> (r: (String, String))
    ensures
        r.0@ == parent_of(p@),
        r.1@ == file_name_of(p@),
{
    let n = p.unicode_len();
    match last_index(p, '/') {
        Some(k) => {
            proof {
                assert(last_index_at(p@, '/', k as int));
                assert(has_char(p@, '/'));
                let j = choose|j: int| last_index_at(p@, '/', j);
                assert(j == k as int) by {
                    if j < k {
                        assert(p@[k as int] != '/');
                    }
                    if j > k {
                        assert(p@[j] != '/');
                    }
                }
            }
            (slice(p, 0, k), tail(p, k + 1))
        },
        None => (String::new(), String::from_str(p)),
    }
}

} // verus!

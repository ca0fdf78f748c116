//! Character-level helpers: segment sanitization, splitting a path template
//! into segments, and the name at the end of a reference.
use vstd::prelude::*;
use vstd::string::*;

verus! {

/// Replaces every `{` of a path segment with `_param_` and drops every `}`.
pub open spec fn sanitized(s: Seq<char>) -> Seq<char>
    decreases s.len(),
{
    if s.len() == 0 {
        Seq::empty()
    } else {
        let rest = sanitized(s.drop_last());
        let c = s.last();
        if c == '{' {
            rest + "_param_"@
        } else if c == '}' {
            rest
        } else {
            rest.push(c)
        }
    }
}

/// The characters after the last `/` of `s` (all of `s` when it has none).
pub open spec fn last_piece(s: Seq<char>) -> Seq<char>
    decreases s.len(),
{
    if s.len() == 0 {
        Seq::empty()
    } else if s.last() == '/' {
        Seq::empty()
    } else {
        last_piece(s.drop_last()).push(s.last())
    }
}

/// The pieces of `s` that a `/` closes, in order.
pub open spec fn closed_pieces(s: Seq<char>) -> Seq<Seq<char>>
    decreases s.len(),
{
    if s.len() == 0 {
        Seq::empty()
    } else if s.last() == '/' {
        closed_pieces(s.drop_last()).push(last_piece(s.drop_last()))
    } else {
        closed_pieces(s.drop_last())
    }
}

/// `s` split on every `/`; an empty string gives one empty piece.
pub open spec fn split_on_slash(s: Seq<char>) -> Seq<Seq<char>> {
    closed_pieces(s).push(last_piece(s))
}

/// The segments of a path template: one leading `/` stripped, the rest split
/// on `/`.
pub open spec fn path_segments(path: Seq<char>) -> Seq<Seq<char>> {
    if path.len() > 0 && path[0] == '/' {
        split_on_slash(path.drop_first())
    } else {
        split_on_slash(path)
    }
}

/// The views of a sequence of strings.
pub open spec fn views(v: Seq<String>) -> Seq<Seq<char>> {
    v.map_values(|s: String| s@)
}

/// Whether two strings hold the same characters.
pub fn same_text(a: &str, b: &str) -> (r: bool)
    ensures
        r == (a@ == b@),
{
    let n = a.unicode_len();
    if n != b.unicode_len() {
        return false;
    }
    let mut i: usize = 0;
    while i < n
        invariant
            n == a@.len(),
            n == b@.len(),
            i <= n,
            a@.subrange(0, i as int) == b@.subrange(0, i as int),
        decreases n - i,
    {
        if a.get_char(i) != b.get_char(i) {
            return false;
        }
        assert(a@.subrange(0, i + 1) =~= a@.subrange(0, i as int).push(a@[i as int]));
        assert(b@.subrange(0, i + 1) =~= b@.subrange(0, i as int).push(b@[i as int]));
        i += 1;
    }
    assert(a@.subrange(0, n as int) =~= a@);
    assert(b@.subrange(0, n as int) =~= b@);
    true
}

/// Makes a path segment safe as a directory and module name: each `{` becomes
/// `_param_`, each `}` is removed.
pub fn sanitize(name: &str) -> (r: String)
    ensures
        r@ == sanitized(name@),
{
    let n = name.unicode_len();
    let mut out = String::new();
    let mut i: usize = 0;
    while i < n
        invariant
            n == name@.len(),
            i <= n,
            out@ == sanitized(name@.subrange(0, i as int)),
        decreases n - i,
    {
        let c = name.get_char(i);
        assert(name@.subrange(0, i + 1).drop_last() =~= name@.subrange(0, i as int));
        if c == '{' {
            out.append("_param_");
        } else if c != '}' {
            let one = name.substring_char(i, i + 1);
            assert(one@ =~= seq![c]);
            out.append(one);
        }
        i += 1;
    }
    assert(name@.subrange(0, n as int) =~= name@);
    out
}

/// The characters after the last `/` of `s`, such as the schema name at the
/// end of `#/components/schemas/User`.
pub fn after_last_slash(s: &str) -> (r: String)
    ensures
        r@ == last_piece(s@),
{
    let n = s.unicode_len();
    let mut cur = String::new();
    let mut i: usize = 0;
    while i < n
        invariant
            n == s@.len(),
            i <= n,
            cur@ == last_piece(s@.subrange(0, i as int)),
        decreases n - i,
    {
        let c = s.get_char(i);
        assert(s@.subrange(0, i + 1).drop_last() =~= s@.subrange(0, i as int));
        if c == '/' {
            cur = String::new();
        } else {
            let one = s.substring_char(i, i + 1);
            assert(one@ =~= seq![c]);
            cur.append(one);
        }
        i += 1;
    }
    assert(s@.subrange(0, n as int) =~= s@);
    cur
}

/// Splits `s` on every `/`.
pub fn split_slash(s: &str) -> (r: Vec<String>)
    ensures
        views(r@) == split_on_slash(s@),
{
    let n = s.unicode_len();
    let mut done: Vec<String> = Vec::new();
    let mut cur = String::new();
    let mut i: usize = 0;
    while i < n
        invariant
            n == s@.len(),
            i <= n,
            views(done@) == closed_pieces(s@.subrange(0, i as int)),
            cur@ == last_piece(s@.subrange(0, i as int)),
        decreases n - i,
    {
        let c = s.get_char(i);
        assert(s@.subrange(0, i + 1).drop_last() =~= s@.subrange(0, i as int));
        if c == '/' {
            let ghost before = done@;
            done.push(cur);
            assert(views(done@) =~= views(before).push(last_piece(s@.subrange(0, i as int))));
            cur = String::new();
        } else {
            let one = s.substring_char(i, i + 1);
            assert(one@ =~= seq![c]);
            cur.append(one);
        }
        i += 1;
    }
    assert(s@.subrange(0, n as int) =~= s@);
    let ghost before = done@;
    done.push(cur);
    assert(views(done@) =~= views(before).push(last_piece(s@)));
    done
}

/// The segments of a path template: a single leading `/` is stripped and the
/// rest is split on `/`.
pub fn split_path(path: &str) -> (r: Vec<String>)
    ensures
        views(r@) == path_segments(path@),
{
    let n = path.unicode_len();
    if n > 0 && path.get_char(0) == '/' {
        let rest = path.substring_char(1, n);
        assert(rest@ =~= path@.drop_first());
        split_slash(rest)
    } else {
        split_slash(path)
    }
}

} // verus!

verus! {

/// `s` holds no `{` and no `}`.
pub open spec fn brace_free(s: Seq<char>) -> bool {
    forall|i: int| 0 <= i < s.len() ==> #[trigger] s[i] != '{' && s[i] != '}'
}

/// A sanitized segment holds no braces.
pub proof fn lemma_sanitized_brace_free(s: Seq<char>)
    ensures
        brace_free(sanitized(s)),
    decreases s.len(),
{
    reveal_strlit("_param_");
    if s.len() > 0 {
        lemma_sanitized_brace_free(s.drop_last());
        let rest = sanitized(s.drop_last());
        if s.last() == '{' {
            assert forall|i: int| 0 <= i < (rest + "_param_"@).len() implies #[trigger] (rest
                + "_param_"@)[i] != '{' && (rest + "_param_"@)[i] != '}' by {
                if i >= rest.len() {
                    assert((rest + "_param_"@)[i] == "_param_"@[i - rest.len()]);
                }
            }
        } else if s.last() != '}' {
            assert forall|i: int| 0 <= i < rest.push(s.last()).len() implies #[trigger] rest.push(
                s.last(),
            )[i] != '{' && rest.push(s.last())[i] != '}' by {
                if i < rest.len() {
                    assert(rest.push(s.last())[i] == rest[i]);
                }
            }
        }
    }
}

/// Sanitizing leaves a segment without braces unchanged.
pub proof fn lemma_sanitized_keeps_brace_free(s: Seq<char>)
    requires
        brace_free(s),
    ensures
        sanitized(s) == s,
    decreases s.len(),
{
    if s.len() > 0 {
        assert(brace_free(s.drop_last())) by {
            assert forall|i: int| 0 <= i < s.drop_last().len() implies #[trigger] s.drop_last()[i]
                != '{' && s.drop_last()[i] != '}' by {
                assert(s.drop_last()[i] == s[i]);
            }
        }
        lemma_sanitized_keeps_brace_free(s.drop_last());
        assert(s[s.len() - 1] != '{' && s[s.len() - 1] != '}');
        assert(s.drop_last().push(s.last()) =~= s);
    }
}

/// Sanitizing is idempotent: a sanitized segment sanitizes to itself, so a
/// location and an accessor key built from the same segment always agree.
pub proof fn lemma_sanitize_idempotent(s: Seq<char>)
    ensures
        sanitized(sanitized(s)) == sanitized(s),
{
    lemma_sanitized_brace_free(s);
    lemma_sanitized_keeps_brace_free(sanitized(s));
}

} // verus!

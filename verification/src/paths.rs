//! Verified path-string manipulation on POSIX-style paths: splitting at `/`,
//! joining, file stems and extensions, and lexical normalization.
//!
//! A path is kept as an ordinary string; its components are the maximal runs
//! of characters between `/` separators. An absolute path starts with `/`.

use vstd::prelude::*;
use vstd::string::*;

verus! {

/// The components of `s`, split at every `/`. Splitting never loses
/// characters: the empty string has one empty component, and a separator at
/// either end contributes an empty component there.
pub open spec fn split_slash_spec(s: Seq<char>) -> Seq<Seq<char>>
    decreases s.len(),
{
    if s.len() == 0 {
        seq![Seq::<char>::empty()]
    } else {
        let pre = split_slash_spec(s.drop_last());
        if s.last() == '/' {
            pre.push(Seq::<char>::empty())
        } else {
            pre.update(pre.len() - 1, pre.last().push(s.last()))
        }
    }
}

pub proof fn lemma_split_slash_len(s: Seq<char>)
    ensures
        split_slash_spec(s).len() >= 1,
    decreases s.len(),
{
    if s.len() > 0 {
        lemma_split_slash_len(s.drop_last());
    }
}

/// Splits `s` at every `/`.
pub fn split_slash(s: &str) -> (r: Vec<String>)
    ensures
        r.deep_view() == split_slash_spec(s@),
{
    let n = s.unicode_len();
    let mut r: Vec<String> = Vec::new();
    let mut cur = String::new();
    let mut i: usize = 0;
    while i < n
        invariant
            n == s@.len(),
            i <= n,
            r.deep_view().push(cur@) == split_slash_spec(s@.take(i as int)),
        decreases n - i,
    {
        proof {
            assert(s@.take(i + 1).drop_last() =~= s@.take(i as int));
            assert(s@.take(i + 1).last() == s@[i as int]);
        }
        let c = s.get_char(i);
        if c == '/' {
            r.push(cur);
            cur = String::new();
            proof {
                assert(r.deep_view().push(cur@) =~= split_slash_spec(s@.take(i + 1)));
            }
        } else {
            let ghost prev = r.deep_view().push(cur@);
            let piece = s.substring_char(i, i + 1);
            cur.append(piece);
            proof {
                assert(cur@ =~= prev.last().push(s@[i as int]));
                assert(r.deep_view().push(cur@) =~= prev.update(
                    prev.len() - 1,
                    prev.last().push(s@[i as int]),
                ));
            }
        }
        i += 1;
    }
    proof {
        assert(s@.take(n as int) =~= s@);
    }
    r.push(cur);
    r
}

/// The components joined with `/` between neighbours.
pub open spec fn join_slash_spec(comps: Seq<Seq<char>>) -> Seq<char>
    decreases comps.len(),
{
    if comps.len() == 0 {
        Seq::<char>::empty()
    } else if comps.len() == 1 {
        comps[0]
    } else {
        join_slash_spec(comps.drop_last()) + seq!['/'] + comps.last()
    }
}

/// Joins components with `/`.
pub fn join_slash(comps: &Vec<String>) -> (r: String)
    ensures
        r@ == join_slash_spec(comps.deep_view()),
{
    let mut r = String::new();
    let n = comps.len();
    let mut i: usize = 0;
    proof {
        reveal_strlit("/");
    }
    while i < n
        invariant
            n == comps.len(),
            i <= n,
            r@ == join_slash_spec(comps.deep_view().take(i as int)),
            "/"@ == seq!['/'],
        decreases n - i,
    {
        proof {
            assert(comps.deep_view().take(i + 1).drop_last() =~= comps.deep_view().take(i as int));
            assert(comps.deep_view().take(i + 1).last() == comps.deep_view()[i as int]);
        }
        if i > 0 {
            r.append("/");
        }
        r.append(comps[i].as_str());
        proof {
            if i == 0 {
                assert(r@ =~= join_slash_spec(comps.deep_view().take(1)));
            }
        }
        i += 1;
    }
    proof {
        assert(comps.deep_view().take(n as int) =~= comps.deep_view());
    }
    r
}

/// The index of the last `.` that is not the leading character, or `s.len()`
/// when there is none. The part before it is the file stem, the part after it
/// the extension.
pub open spec fn last_dot_pos(s: Seq<char>) -> int
    decreases s.len(),
{
    if s.len() <= 1 {
        s.len() as int
    } else if s.last() == '.' {
        s.len() - 1
    } else {
        let p = last_dot_pos(s.drop_last());
        if p == s.len() - 1 {
            s.len() as int
        } else {
            p
        }
    }
}

pub proof fn lemma_last_dot_pos(s: Seq<char>)
    ensures
        last_dot_pos(s) == s.len() ==> forall|i: int| 1 <= i < s.len() ==> s[i] != '.',
        last_dot_pos(s) < s.len() ==> 1 <= last_dot_pos(s) && s[last_dot_pos(s)] == '.' && forall|
            i: int,
        | last_dot_pos(s) < i < s.len() ==> s[i] != '.',
        last_dot_pos(s) <= s.len(),
        s.len() >= 1 ==> last_dot_pos(s) >= 1,
    decreases s.len(),
{
    if s.len() > 1 && s.last() != '.' {
        lemma_last_dot_pos(s.drop_last());
        assert(forall|i: int| 0 <= i < s.len() - 1 ==> s[i] == s.drop_last()[i]);
    }
}

/// The stem of a file name: everything before the last non-leading `.`.
pub open spec fn stem_spec(s: Seq<char>) -> Seq<char> {
    s.take(last_dot_pos(s))
}

/// The extension of a file name, if any: everything after the last
/// non-leading `.`.
pub open spec fn ext_spec(s: Seq<char>) -> Option<Seq<char>> {
    if last_dot_pos(s) < s.len() {
        Some(s.skip(last_dot_pos(s) + 1))
    } else {
        None
    }
}

/// Finds the position of the last non-leading `.` of `s`, or `s@.len()` when
/// there is none.
#[verifier::loop_isolation(false)]
fn find_last_dot(s: &str) -> (r: usize)
    ensures
        r == last_dot_pos(s@),
{
    let n = s.unicode_len();
    proof {
        lemma_last_dot_pos(s@);
    }
    let mut i: usize = n;
    while i > 1
        invariant
            n == s@.len(),
            i <= n,
            forall|j: int| i <= j < n ==> s@[j] != '.',
        decreases i,
    {
        i -= 1;
        if s.get_char(i) == '.' {
            proof {
                let p = last_dot_pos(s@);
                if p == s@.len() {
                    assert(s@[i as int] != '.');
                } else if p > i {
                    assert(s@[p] != '.');
                } else if p < i {
                    assert(s@[i as int] != '.');
                }
            }
            return i;
        }
    }
    n
}

/// The stem of a single file name.
pub fn stem_of(s: &str) -> (r: String)
    ensures
        r@ == stem_spec(s@),
{
    let p = find_last_dot(s);
    let n = s.unicode_len();
    let piece = s.substring_char(0, if p < n {
        p
    } else {
        n
    });
    proof {
        lemma_last_dot_pos(s@);
        assert(piece@ =~= stem_spec(s@));
    }
    piece.to_owned()
}

/// Does the file name `s` carry exactly the extension `ext`?
pub fn has_extension(s: &str, ext: &str) -> (r: bool)
    ensures
        r == (ext_spec(s@) == Some(ext@)),
{
    let p = find_last_dot(s);
    let n = s.unicode_len();
    proof {
        lemma_last_dot_pos(s@);
    }
    if p < n {
        let tail = s.substring_char(p + 1, n);
        proof {
            assert(tail@ =~= s@.skip(last_dot_pos(s@) + 1));
        }
        crate::strutil::str_eq(tail, ext)
    } else {
        false
    }
}

/// Does `s` contain a shell glob metacharacter `*` or `?`?
pub fn has_glob_chars(s: &str) -> (r: bool)
    ensures
        r == exists|i: int| 0 <= i < s@.len() && (s@[i] == '*' || s@[i] == '?'),
{
    let n = s.unicode_len();
    let mut i: usize = 0;
    while i < n
        invariant
            n == s@.len(),
            i <= n,
            forall|j: int| 0 <= j < i ==> s@[j] != '*' && s@[j] != '?',
        decreases n - i,
    {
        let c = s.get_char(i);
        if c == '*' || c == '?' {
            return true;
        }
        i += 1;
    }
    false
}

/// Is `s` an absolute path, one that starts with `/`?
pub fn is_absolute(s: &str) -> (r: bool)
    ensures
        r == (s@.len() > 0 && s@[0] == '/'),
{
    if s.unicode_len() == 0 {
        false
    } else {
        s.get_char(0) == '/'
    }
}

/// The last path component of `p`.
pub open spec fn path_last_comp(p: Seq<char>) -> Seq<char> {
    split_slash_spec(p).last()
}

/// The component before the last: the name of the file's parent directory.
pub open spec fn path_parent_comp(p: Seq<char>) -> Seq<char> {
    split_slash_spec(p)[split_slash_spec(p).len() - 2]
}

/// Does `p` end in a component that yields a file stem?
pub open spec fn path_has_stem(p: Seq<char>) -> bool {
    !is_skip_comp(path_last_comp(p)) && !is_parent_comp(path_last_comp(p))
}

/// The file stem of the path: the last component up to its extension.
pub open spec fn path_stem(p: Seq<char>) -> Seq<char> {
    stem_spec(path_last_comp(p))
}

/// Does the path carry the list-file extension?
pub open spec fn path_is_lst(p: Seq<char>) -> bool {
    ext_spec(path_last_comp(p)) == Some(seq!['l', 's', 't'])
}

/// A component that names a file has a non-empty stem.
pub proof fn lemma_stem_nonempty(c: Seq<char>)
    requires
        c.len() >= 1,
    ensures
        stem_spec(c).len() >= 1,
{
    lemma_last_dot_pos(c);
}

/// A component that stands for the parent directory.
pub open spec fn is_parent_comp(c: Seq<char>) -> bool {
    c.len() == 2 && c[0] == '.' && c[1] == '.'
}

/// A component that adds nothing: empty (doubled or trailing separators) or
/// the current directory.
pub open spec fn is_skip_comp(c: Seq<char>) -> bool {
    c.len() == 0 || (c.len() == 1 && c[0] == '.')
}

/// Is the component empty, the current directory, or the parent
/// directory? Such a component yields no file name.
pub fn comp_is_skip_or_parent(c: &str) -> (r: bool)
    ensures
        r == (is_skip_comp(c@) || is_parent_comp(c@)),
{
    let n = c.unicode_len();
    n == 0 || (n == 1 && c.get_char(0) == '.') || (n == 2 && c.get_char(0) == '.' && c.get_char(1)
        == '.')
}

fn comp_is_parent(c: &str) -> (r: bool)
    ensures
        r == is_parent_comp(c@),
{
    c.unicode_len() == 2 && c.get_char(0) == '.' && c.get_char(1) == '.'
}

fn comp_is_skip(c: &str) -> (r: bool)
    ensures
        r == is_skip_comp(c@),
{
    let n = c.unicode_len();
    n == 0 || (n == 1 && c.get_char(0) == '.')
}

/// Folds the components left to right: a parent component pops the stack (and
/// fails on an empty stack), a skip component is dropped, every other
/// component is pushed.
pub open spec fn norm_stack(comps: Seq<Seq<char>>) -> Option<Seq<Seq<char>>>
    decreases comps.len(),
{
    if comps.len() == 0 {
        Some(Seq::<Seq<char>>::empty())
    } else {
        match norm_stack(comps.drop_last()) {
            Option::None => Option::None,
            Option::Some(st) => {
                let c = comps.last();
                if is_parent_comp(c) {
                    if st.len() == 0 {
                        Option::None
                    } else {
                        Option::Some(st.drop_last())
                    }
                } else if is_skip_comp(c) {
                    Option::Some(st)
                } else {
                    Option::Some(st.push(c))
                }
            },
        }
    }
}

/// What normalization renders: the stack joined with `/`, rooted when the
/// input was absolute.
pub open spec fn render_path(st: Seq<Seq<char>>, absolute: bool) -> Seq<char> {
    if absolute {
        seq!['/'] + join_slash_spec(st)
    } else {
        join_slash_spec(st)
    }
}

/// The lexical normalization of `s`: `.` and empty components vanish, `..`
/// pops, and popping past the first component fails.
pub open spec fn normalize_spec(s: Seq<char>) -> Option<Seq<char>> {
    match norm_stack(split_slash_spec(s)) {
        Option::None => Option::None,
        Option::Some(st) => Option::Some(render_path(st, s.len() > 0 && s[0] == '/')),
    }
}

proof fn lemma_norm_none_persists(comps: Seq<Seq<char>>, j: int)
    requires
        0 <= j <= comps.len(),
        norm_stack(comps.take(j)) is None,
    ensures
        norm_stack(comps) is None,
    decreases comps.len() - j,
{
    if j < comps.len() {
        assert(comps.take(j + 1).drop_last() =~= comps.take(j));
        lemma_norm_none_persists(comps, j + 1);
    } else {
        assert(comps.take(j) =~= comps);
    }
}

/// Normalizes a path lexically, without consulting the file system: `.` and
/// doubled separators are dropped and `..` removes the preceding component.
/// Returns `None` when a `..` has nothing left to remove.
#[verifier::loop_isolation(false)]
pub fn normalize_path(path: &str) -> (r: Option<String>)
    ensures
        match r {
            Option::Some(out) => normalize_spec(path@) == Some(out@),
            Option::None => normalize_spec(path@) is None,
        },
{
    let comps = split_slash(path);
    let absolute = is_absolute(path);
    let mut stack: Vec<String> = Vec::new();
    let n = comps.len();
    let mut i: usize = 0;
    while i < n
        invariant
            n == comps.len(),
            i <= n,
            norm_stack(comps.deep_view().take(i as int)) == Some(stack.deep_view()),
        decreases n - i,
    {
        proof {
            assert(comps.deep_view().take(i + 1).drop_last() =~= comps.deep_view().take(i as int));
            assert(comps.deep_view().take(i + 1).last() == comps.deep_view()[i as int]);
        }
        if comp_is_parent(comps[i].as_str()) {
            if stack.len() == 0 {
                proof {
                    assert(stack.deep_view().len() == 0);
                    assert(norm_stack(comps.deep_view().take(i + 1)) is None);
                    lemma_norm_none_persists(comps.deep_view(), i + 1);
                }
                return Option::None;
            }
            let _ = stack.pop();
            proof {
                assert(norm_stack(comps.deep_view().take(i + 1)) == Some(stack.deep_view()));
            }
        } else if comp_is_skip(comps[i].as_str()) {
        } else {
            let c = comps[i].clone();
            stack.push(c);
        }
        i += 1;
    }
    proof {
        assert(comps.deep_view().take(n as int) =~= comps.deep_view());
    }
    let joined = join_slash(&stack);
    if absolute {
        proof {
            reveal_strlit("/");
        }
        let mut out = String::new();
        out.append("/");
        out.append(joined.as_str());
        proof {
            assert(out@ =~= render_path(stack.deep_view(), true));
        }
        Option::Some(out)
    } else {
        Option::Some(joined)
    }
}

} // verus!

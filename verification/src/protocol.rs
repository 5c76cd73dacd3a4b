//! The `#s <key> <value>` information lines that solvers and instances may
//! carry: any such line on a solver's stdout is harvested into the solution
//! infos, and an instance header line `#s idigest "<32 hex>"` carries the
//! instance digest.

use crate::digest::{hex_byte_at, idigest_from_hex, is_hex32, InstanceDigest};
use crate::strutil::str_eq;
use vstd::prelude::*;
use vstd::string::*;

verus! {

/// Index of the first space of `s`, or `s.len()` when there is none.
pub open spec fn first_space_pos(s: Seq<char>) -> int
    decreases s.len(),
{
    if s.len() == 0 {
        0
    } else if s[0] == ' ' {
        0
    } else {
        1 + first_space_pos(s.skip(1))
    }
}

pub proof fn lemma_first_space_pos(s: Seq<char>)
    ensures
        0 <= first_space_pos(s) <= s.len(),
        first_space_pos(s) < s.len() ==> s[first_space_pos(s)] == ' ',
        forall|j: int| 0 <= j < first_space_pos(s) ==> s[j] != ' ',
    decreases s.len(),
{
    if s.len() > 0 && s[0] != ' ' {
        lemma_first_space_pos(s.skip(1));
        assert forall|j: int| 0 <= j < first_space_pos(s) implies s[j] != ' ' by {
            if j >= 1 {
                assert(s.skip(1)[j - 1] == s[j]);
                assert(s.skip(1)[j - 1] != ' ');
            }
        }
    }
}

/// A line that follows the information protocol: it opens with `#s `, and
/// after that prefix a space separates the key from the value.
pub open spec fn is_stride_line(s: Seq<char>) -> bool {
    s.len() > 3 && s[0] == '#' && s[1] == 's' && s[2] == ' ' && first_space_pos(s.skip(3)) < s.skip(
        3,
    ).len()
}

/// The key of an information line: what stands between the prefix and the
/// next space.
pub open spec fn stride_key(s: Seq<char>) -> Seq<char> {
    s.skip(3).take(first_space_pos(s.skip(3)))
}

/// The value of an information line: everything after the space that ends
/// the key.
pub open spec fn stride_value(s: Seq<char>) -> Seq<char> {
    s.skip(3).skip(first_space_pos(s.skip(3)) + 1)
}

/// Finds the first space of `s`, or returns its length if there is none.
fn find_first_space(s: &str) -> (r: usize)
    ensures
        r == first_space_pos(s@),
{
    proof {
        lemma_first_space_pos(s@);
    }
    let n = s.unicode_len();
    let mut i: usize = 0;
    #[verifier::loop_isolation(false)]
    while i < n
        invariant
            i <= n,
            forall|j: int| 0 <= j < i ==> s@[j] != ' ',
        decreases n - i,
    {
        if s.get_char(i) == ' ' {
            proof {
                let p = first_space_pos(s@);
                if p < i {
                    assert(s@[p] == ' ');
                } else if p > i {
                    assert(s@[i as int] != ' ');
                }
            }
            return i;
        }
        i += 1;
    }
    proof {
        let p = first_space_pos(s@);
        if p < n {
            assert(s@[p] == ' ');
        }
    }
    n
}

/// Splits an information line into its key and its value. Returns `None`
/// exactly on lines that do not follow the protocol.
pub fn parse_stride_line(line: &str) -> (r: Option<(String, String)>)
    ensures
        r is Some <==> is_stride_line(line@),
        r matches Some((k, v)) ==> k@ == stride_key(line@) && v@ == stride_value(line@),
{
    let n = s_len(line);
    if n <= 3 {
        return None;
    }
    if !(line.get_char(0) == '#' && line.get_char(1) == 's' && line.get_char(2) == ' ') {
        return None;
    }
    let rest = line.substring_char(3, n);
    proof {
        assert(rest@ =~= line@.skip(3));
        lemma_first_space_pos(rest@);
    }
    let p = find_first_space(rest);
    let m = s_len(rest);
    if p >= m {
        return None;
    }
    let key = rest.substring_char(0, p);
    let value = rest.substring_char(p + 1, m);
    proof {
        assert(key@ =~= stride_key(line@));
        assert(value@ =~= stride_value(line@));
    }
    Some((key.to_owned(), value.to_owned()))
}

fn s_len(s: &str) -> (r: usize)
    ensures
        r == s@.len(),
{
    s.unicode_len()
}

/// A quoted 32-digit hex string: `"` + 32 hex digits + `"`.
pub open spec fn is_quoted_hex32(v: Seq<char>) -> bool {
    v.len() == 34 && v[0] == '"' && v[33] == '"' && is_hex32(v.subrange(1, 33))
}

/// An instance header line that carries the digest.
pub open spec fn is_idigest_line(s: Seq<char>) -> bool {
    is_stride_line(s) && stride_key(s) == "idigest"@ && is_quoted_hex32(stride_value(s))
}

/// Reads the instance digest out of one header line, if the line carries
/// one: the sixteen bytes encoded by the quoted hex value.
pub fn extract_idigest_line(line: &str) -> (r: Option<InstanceDigest>)
    ensures
        r is Some <==> is_idigest_line(line@),
        r matches Some(d) ==> d.wf() && forall|k: int|
            0 <= k < 16 ==> d.key()[k] == hex_byte_at(stride_value(line@).subrange(1, 33), k),
{
    let parsed = match parse_stride_line(line) {
        Some(kv) => kv,
        None => {
            return None;
        },
    };
    let (key, value) = parsed;
    if !str_eq(key.as_str(), "idigest") {
        return None;
    }
    let vlen = s_len(value.as_str());
    if vlen != 34 {
        return None;
    }
    if !(value.as_str().get_char(0) == '"' && value.as_str().get_char(33) == '"') {
        return None;
    }
    let inner = value.as_str().substring_char(1, 33);
    proof {
        assert(inner@ =~= stride_value(line@).subrange(1, 33));
    }
    match idigest_from_hex(inner) {
        Some(d) => Some(d),
        None => None,
    }
}

/// Index of the first digest-carrying line, or `lines.len()` if none.
pub open spec fn first_idigest_index(lines: Seq<Seq<char>>) -> int
    decreases lines.len(),
{
    if lines.len() == 0 {
        0
    } else if is_idigest_line(lines[0]) {
        0
    } else {
        1 + first_idigest_index(lines.skip(1))
    }
}

pub proof fn lemma_first_idigest_index(lines: Seq<Seq<char>>)
    ensures
        0 <= first_idigest_index(lines) <= lines.len(),
        first_idigest_index(lines) < lines.len() ==> is_idigest_line(
            lines[first_idigest_index(lines)],
        ),
        forall|j: int| 0 <= j < first_idigest_index(lines) ==> !is_idigest_line(lines[j]),
    decreases lines.len(),
{
    if lines.len() > 0 && !is_idigest_line(lines[0]) {
        lemma_first_idigest_index(lines.skip(1));
        assert forall|j: int| 0 <= j < first_idigest_index(lines) implies !is_idigest_line(
            lines[j],
        ) by {
            if j >= 1 {
                assert(lines.skip(1)[j - 1] == lines[j]);
                assert(!is_idigest_line(lines.skip(1)[j - 1]));
            }
        }
    }
}

/// Scans an instance header for its digest line; the first such line wins,
/// and the result is the value that line encodes.
pub fn extract_idigest_from_lines(lines: &Vec<String>) -> (r: Option<InstanceDigest>)
    ensures
        r is Some <==> first_idigest_index(lines.deep_view()) < lines.deep_view().len(),
        r matches Some(d) ==> d.wf() && forall|k: int|
            0 <= k < 16 ==> d.key()[k] == hex_byte_at(
                stride_value(
                    lines.deep_view()[first_idigest_index(lines.deep_view())],
                ).subrange(1, 33),
                k,
            ),
{
    proof {
        lemma_first_idigest_index(lines.deep_view());
    }
    let n = lines.len();
    let mut i: usize = 0;
    #[verifier::loop_isolation(false)]
    while i < n
        invariant
            i <= n,
            forall|j: int| 0 <= j < i ==> !is_idigest_line(lines.deep_view()[j]),
        decreases n - i,
    {
        let r = extract_idigest_line(lines[i].as_str());
        if r.is_some() {
            proof {
                let p = first_idigest_index(lines.deep_view());
                if p < i {
                    assert(is_idigest_line(lines.deep_view()[p]));
                } else if p > i {
                    assert(!is_idigest_line(lines.deep_view()[i as int]));
                }
            }
            return r;
        }
        i += 1;
    }
    proof {
        let p = first_idigest_index(lines.deep_view());
        if p < n {
            assert(is_idigest_line(lines.deep_view()[p]));
        }
    }
    None
}

} // verus!

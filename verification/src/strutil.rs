//! Small verified helpers on strings: character-wise equality and decimal
//! rendering of unsigned integers.

use vstd::prelude::*;
use vstd::string::*;

verus! {

/// Character-wise equality of two string slices, decided without assuming
/// anything about the derived `PartialEq` of `str`.
pub fn str_eq(a: &str, b: &str) -> (r: bool)
    ensures
        r == (a@ == b@),
{
    let alen = a.unicode_len();
    let blen = b.unicode_len();
    if alen != blen {
        return false;
    }
    let mut i: usize = 0;
    while i < alen
        invariant
            alen == a@.len(),
            blen == b@.len(),
            alen == blen,
            i <= alen,
            forall|j: int| 0 <= j < i ==> a@[j] == b@[j],
        decreases alen - i,
    {
        if a.get_char(i) != b.get_char(i) {
            return false;
        }
        i += 1;
    }
    proof {
        assert(a@ =~= b@);
    }
    true
}

/// The character for one decimal digit.
pub open spec fn digit_char(d: nat) -> char {
    if d == 0 {
        '0'
    } else if d == 1 {
        '1'
    } else if d == 2 {
        '2'
    } else if d == 3 {
        '3'
    } else if d == 4 {
        '4'
    } else if d == 5 {
        '5'
    } else if d == 6 {
        '6'
    } else if d == 7 {
        '7'
    } else if d == 8 {
        '8'
    } else {
        '9'
    }
}

/// The usual decimal rendering of a natural number, most significant digit
/// first and without leading zeros.
pub open spec fn dec_of(n: nat) -> Seq<char>
    decreases n,
{
    if n < 10 {
        seq![digit_char(n)]
    } else {
        dec_of(n / 10).push(digit_char(n % 10))
    }
}

pub fn digit_str(d: u64) -> (r: &'static str)
    requires
        d < 10,
    ensures
        r@ == seq![digit_char(d as nat)],
{
    proof {
        reveal_strlit("0");
        reveal_strlit("1");
        reveal_strlit("2");
        reveal_strlit("3");
        reveal_strlit("4");
        reveal_strlit("5");
        reveal_strlit("6");
        reveal_strlit("7");
        reveal_strlit("8");
        reveal_strlit("9");
    }
    let r: &'static str = if d == 0 {
        "0"
    } else if d == 1 {
        "1"
    } else if d == 2 {
        "2"
    } else if d == 3 {
        "3"
    } else if d == 4 {
        "4"
    } else if d == 5 {
        "5"
    } else if d == 6 {
        "6"
    } else if d == 7 {
        "7"
    } else if d == 8 {
        "8"
    } else {
        "9"
    };
    proof {
        assert(r@ =~= seq![digit_char(d as nat)]);
    }
    r
}

/// Renders `n` in decimal.
pub fn u64_to_dec(n: u64) -> (r: String)
    ensures
        r@ == dec_of(n as nat),
    decreases n,
{
    let digit = digit_str(n % 10);
    if n < 10 {
        digit.to_owned()
    } else {
        let mut s = u64_to_dec(n / 10);
        s.append(digit);
        proof {
            assert(s@ =~= dec_of(n as nat));
        }
        s
    }
}

/// Two distinct numbers never render to the same decimal string.
pub proof fn lemma_dec_of_injective(a: nat, b: nat)
    requires
        dec_of(a) == dec_of(b),
    ensures
        a == b,
    decreases a + b,
{
    lemma_dec_of_len(a);
    lemma_dec_of_len(b);
    assert(dec_of(a).last() == digit_char(a % 10));
    assert(dec_of(b).last() == digit_char(b % 10));
    assert(a % 10 == b % 10);
    if a < 10 && b < 10 {
        assert(a == a % 10 && b == b % 10);
    } else if a >= 10 && b >= 10 {
        assert(dec_of(a).drop_last() =~= dec_of(a / 10));
        assert(dec_of(b).drop_last() =~= dec_of(b / 10));
        lemma_dec_of_injective(a / 10, b / 10);
        assert(a == (a / 10) * 10 + a % 10) by (nonlinear_arith);
        assert(b == (b / 10) * 10 + b % 10) by (nonlinear_arith);
    } else {
        // lengths differ: one rendering has one digit, the other at least two
        assert(false);
    }
}

/// The fractional digits of a millisecond remainder, trailing zeros
/// trimmed.
pub open spec fn frac_millis(f: int) -> Seq<char> {
    if f % 10 != 0 {
        seq![
            digit_char(((f / 100) % 10) as nat),
            digit_char(((f / 10) % 10) as nat),
            digit_char((f % 10) as nat),
        ]
    } else if (f / 10) % 10 != 0 {
        seq![digit_char(((f / 100) % 10) as nat), digit_char(((f / 10) % 10) as nat)]
    } else {
        seq![digit_char(((f / 100) % 10) as nat)]
    }
}

/// A duration in seconds at millisecond precision, rendered the way a plain
/// decimal number prints: whole seconds, then a fractional part without
/// trailing zeros.
pub open spec fn secs_of_millis(ms: nat) -> Seq<char> {
    if ms % 1000 == 0 {
        dec_of(ms / 1000)
    } else {
        dec_of(ms / 1000) + seq!['.'] + frac_millis((ms % 1000) as int)
    }
}

/// Renders a millisecond count as seconds.
pub fn secs_string(ms: u64) -> (r: String)
    ensures
        r@ == secs_of_millis(ms as nat),
{
    let mut r = u64_to_dec(ms / 1000);
    let f = ms % 1000;
    if f != 0 {
        proof {
            reveal_strlit(".");
        }
        r.append(".");
        r.append(digit_str((f / 100) % 10));
        if f % 10 != 0 {
            r.append(digit_str((f / 10) % 10));
            r.append(digit_str(f % 10));
        } else if (f / 10) % 10 != 0 {
            r.append(digit_str((f / 10) % 10));
        }
        proof {
            assert(r@ =~= secs_of_millis(ms as nat));
        }
    }
    r
}

/// An ASCII whitespace character, the kind a list line is trimmed of.
pub open spec fn is_ws(c: char) -> bool {
    c == ' ' || c == '\t' || c == '\r' || c == '\n'
}

/// The number of leading whitespace characters of `s`.
pub open spec fn lead_ws(s: Seq<char>) -> int
    decreases s.len(),
{
    if s.len() == 0 {
        0
    } else if !is_ws(s[0]) {
        0
    } else {
        1 + lead_ws(s.skip(1))
    }
}

/// The number of trailing whitespace characters of `s`.
pub open spec fn trail_ws(s: Seq<char>) -> int
    decreases s.len(),
{
    if s.len() == 0 {
        0
    } else if !is_ws(s.last()) {
        0
    } else {
        1 + trail_ws(s.drop_last())
    }
}

/// `s` with leading and trailing whitespace removed.
pub open spec fn trim_spec(s: Seq<char>) -> Seq<char> {
    if lead_ws(s) == s.len() {
        Seq::<char>::empty()
    } else {
        s.subrange(lead_ws(s), s.len() - trail_ws(s))
    }
}

pub proof fn lemma_lead_ws(s: Seq<char>)
    ensures
        0 <= lead_ws(s) <= s.len(),
        lead_ws(s) < s.len() ==> !is_ws(s[lead_ws(s)]),
        forall|j: int| 0 <= j < lead_ws(s) ==> is_ws(s[j]),
    decreases s.len(),
{
    if s.len() > 0 && is_ws(s[0]) {
        lemma_lead_ws(s.skip(1));
        assert forall|j: int| 0 <= j < lead_ws(s) implies is_ws(s[j]) by {
            if j >= 1 {
                assert(s.skip(1)[j - 1] == s[j]);
                assert(is_ws(s.skip(1)[j - 1]));
            }
        }
    }
}

pub proof fn lemma_trail_ws(s: Seq<char>)
    ensures
        0 <= trail_ws(s) <= s.len(),
        trail_ws(s) < s.len() ==> !is_ws(s[s.len() - trail_ws(s) - 1]),
        forall|j: int| s.len() - trail_ws(s) <= j < s.len() ==> is_ws(s[j]),
        lead_ws(s) < s.len() ==> lead_ws(s) + trail_ws(s) < s.len(),
    decreases s.len(),
{
    lemma_lead_ws(s);
    if s.len() > 0 && is_ws(s.last()) {
        lemma_trail_ws(s.drop_last());
        assert(forall|j: int| 0 <= j < s.len() - 1 ==> s.drop_last()[j] == s[j]);
        if lead_ws(s) < s.len() {
            // the first non-whitespace character lies strictly before the
            // trailing whitespace run
            assert(!is_ws(s[lead_ws(s)]));
        }
    }
}

/// Removes leading and trailing ASCII whitespace.
pub fn trim(s: &str) -> (r: String)
    ensures
        r@ == trim_spec(s@),
{
    proof {
        lemma_lead_ws(s@);
        lemma_trail_ws(s@);
    }
    let n = s.unicode_len();
    let mut a: usize = 0;
    #[verifier::loop_isolation(false)]
    while a < n && is_ws_exec(s.get_char(a))
        invariant
            a <= n,
            forall|j: int| 0 <= j < a ==> is_ws(s@[j]),
        decreases n - a,
    {
        a += 1;
    }
    if a == n {
        proof {
            if lead_ws(s@) < s@.len() {
                assert(is_ws(s@[lead_ws(s@)]));
            }
        }
        return String::new();
    }
    proof {
        // `a` is the first index holding a non-whitespace character
        if lead_ws(s@) < a {
            assert(is_ws(s@[lead_ws(s@)]));
        }
        if lead_ws(s@) > a {
            assert(is_ws(s@[a as int]));
        }
    }
    let mut b: usize = n;
    #[verifier::loop_isolation(false)]
    while b > a && is_ws_exec(s.get_char(b - 1))
        invariant
            a <= b <= n,
            forall|j: int| b <= j < n ==> is_ws(s@[j]),
        decreases b,
    {
        b -= 1;
    }
    proof {
        let t = s@.len() - trail_ws(s@);
        if t < b {
            assert(is_ws(s@[t]));
        }
        if t > b {
            assert(is_ws(s@[b - 1]));
        }
    }
    let piece = s.substring_char(a, b);
    proof {
        assert(piece@ =~= trim_spec(s@));
    }
    piece.to_owned()
}

fn is_ws_exec(c: char) -> (r: bool)
    ensures
        r == is_ws(c),
{
    c == ' ' || c == '\t' || c == '\r' || c == '\n'
}

/// A one-digit number renders to one character; a larger one to more.
pub proof fn lemma_dec_of_len(n: nat)
    ensures
        n < 10 ==> dec_of(n).len() == 1,
        n >= 10 ==> dec_of(n).len() >= 2,
    decreases n,
{
    if n >= 10 {
        lemma_dec_of_len(n / 10);
    }
}

} // verus!

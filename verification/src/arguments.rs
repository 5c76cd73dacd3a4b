//! Argument handling that needs no terminal: the duration parser behind the
//! timeout flags, the validation of the solver path, and the arguments of
//! the profile subcommand.

use vstd::prelude::*;
use vstd::string::*;

verus! {

/// The arguments of the hidden profile subcommand: the real solver and what
/// to pass it.
#[derive(Debug)]
pub struct CommandProfileArgs {
    pub solver: String,
    pub solver_args: Vec<String>,
}

/// Errors of the profile subcommand.
#[derive(Debug)]
pub enum CommandProfileError {
    Io(String),
}

/// Is every character a decimal digit?
pub open spec fn all_digits(s: Seq<char>) -> bool {
    forall|i: int| 0 <= i < s.len() ==> '0' <= s[i] && s[i] <= '9'
}

/// The number the digit string denotes.
pub open spec fn digits_val(s: Seq<char>) -> int
    decreases s.len(),
{
    if s.len() == 0 {
        0
    } else {
        digits_val(s.drop_last()) * 10 + (s.last() as int - '0' as int)
    }
}

proof fn lemma_digits_val_nonneg(s: Seq<char>)
    requires
        all_digits(s),
    ensures
        digits_val(s) >= 0,
    decreases s.len(),
{
    if s.len() > 0 {
        assert(forall|i: int| 0 <= i < s.len() - 1 ==> s.drop_last()[i] == s[i]);
        lemma_digits_val_nonneg(s.drop_last());
        assert(digits_val(s) >= 0) by (nonlinear_arith)
            requires
                digits_val(s) == digits_val(s.drop_last()) * 10 + (s.last() as int - '0' as int),
                digits_val(s.drop_last()) >= 0,
                s.last() as int >= '0' as int,
        ;
    }
}

proof fn lemma_digits_val_prefix(s: Seq<char>, j: int)
    requires
        all_digits(s),
        0 <= j <= s.len(),
    ensures
        digits_val(s) >= digits_val(s.take(j)),
    decreases s.len() - j,
{
    if j < s.len() {
        assert(s.take(j + 1).drop_last() =~= s.take(j));
        assert(s.take(j + 1).last() == s[j]);
        assert(forall|i: int| 0 <= i < j ==> s.take(j)[i] == s[i]);
        lemma_digits_val_nonneg(s.take(j));
        assert(digits_val(s.take(j + 1)) >= digits_val(s.take(j))) by (nonlinear_arith)
            requires
                digits_val(s.take(j + 1)) == digits_val(s.take(j)) * 10 + (s.take(j + 1).last()
                    as int - '0' as int),
                s.take(j + 1).last() as int >= '0' as int,
                digits_val(s.take(j)) >= 0,
        ;
        lemma_digits_val_prefix(s, j + 1);
    } else {
        assert(s.take(j) =~= s);
    }
}

/// Parses a decimal number. Succeeds exactly on non-empty all-digit
/// strings whose value fits the result type.
pub fn parse_u64(s: &str) -> (r: Option<u64>)
    ensures
        r is Some <==> (s@.len() > 0 && all_digits(s@) && digits_val(s@) <= u64::MAX),
        r matches Some(v) ==> v == digits_val(s@),
{
    let n = s.unicode_len();
    if n == 0 {
        return None;
    }
    let mut acc: u64 = 0;
    let mut i: usize = 0;
    #[verifier::loop_isolation(false)]
    while i < n
        invariant
            i <= n,
            all_digits(s@.take(i as int)),
            acc == digits_val(s@.take(i as int)),
        decreases n - i,
    {
        let c = s.get_char(i);
        if !(c >= '0' && c <= '9') {
            return None;
        }
        let d = (c as u64) - ('0' as u64);
        proof {
            assert(s@.take(i + 1).drop_last() =~= s@.take(i as int));
            assert(s@.take(i + 1).last() == s@[i as int]);
        }
        if acc > (u64::MAX - d) / 10 {
            proof {
                assert(digits_val(s@.take(i + 1)) > u64::MAX) by (nonlinear_arith)
                    requires
                        digits_val(s@.take(i + 1)) == acc * 10 + d,
                        acc > (u64::MAX - d) / 10,
                        d < 10,
                ;
                if all_digits(s@) {
                    lemma_digits_val_prefix(s@, i + 1);
                }
            }
            return None;
        }
        proof {
            assert(acc * 10 + d <= u64::MAX) by (nonlinear_arith)
                requires
                    acc <= (u64::MAX - d) / 10,
                    d < 10,
            ;
        }
        acc = acc * 10 + d;
        i += 1;
    }
    proof {
        assert(s@.take(n as int) =~= s@);
    }
    Some(acc)
}

/// Parses the timeout flags: a whole number of seconds. Rejects exactly
/// what is not a plain decimal number that fits.
pub fn parse_duration(s: &str) -> (r: Result<u64, String>)
    ensures
        r is Ok <==> (s@.len() > 0 && all_digits(s@) && digits_val(s@) <= u64::MAX),
        r matches Ok(v) ==> v == digits_val(s@),
        r matches Err(m) ==> m@ == "Invalid duration"@,
{
    match parse_u64(s) {
        Some(v) => Ok(v),
        None => {
            proof {
                reveal_strlit("Invalid duration");
            }
            Err(String::from_str("Invalid duration"))
        },
    }
}

/// A relative solver path with no directory part would be looked up in
/// `PATH` rather than the working directory; such a path must be given
/// with a `./` prefix. A path with a separator anywhere is taken as it is.
pub fn solver_path_is_explicit(s: &str) -> (r: bool)
    ensures
        r == exists|i: int| 0 <= i < s@.len() && s@[i] == '/',
{
    let n = s.unicode_len();
    let mut i: usize = 0;
    #[verifier::loop_isolation(false)]
    while i < n
        invariant
            i <= n,
            forall|j: int| 0 <= j < i ==> s@[j] != '/',
        decreases n - i,
    {
        if s.get_char(i) == '/' {
            return true;
        }
        i += 1;
    }
    false
}

} // verus!

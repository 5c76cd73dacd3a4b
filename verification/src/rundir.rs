//! The run directory: the timestamped root of one run, the rule that moves
//! the `latest` link, and collision-free per-instance subdirectories.

use crate::paths::{
    comp_is_skip_or_parent, lemma_split_slash_len, lemma_stem_nonempty, path_has_stem,
    path_last_comp, path_stem, split_slash, stem_of,
};
use crate::strutil::{
    dec_of, digit_char, lemma_dec_of_injective, lemma_dec_of_len, str_eq, u64_to_dec,
};
use vstd::prelude::*;
use vstd::seq_lib::*;
use vstd::set_lib::lemma_len_subset;
use vstd::string::*;

verus! {

/// Errors of per-instance directory creation.
#[derive(Debug)]
pub enum CreateInstanceDirError {
    Io(String),
    EmptyInstanceName,
}

/// The root directory of one run. It remembers which instance directory
/// names it has handed out, so no name, and hence no path, is ever returned
/// twice.
#[derive(Debug)]
pub struct RunDirectory {
    pub path: String,
    pub issued: Vec<String>,
}

/// The directory name chosen at a given collision attempt: the plain name
/// first, then `name_2`, `name_3`, and so on.
pub open spec fn dir_candidate(name: Seq<char>, k: int) -> Seq<char> {
    if k == 0 {
        name
    } else {
        name + seq!['_'] + dec_of((k + 1) as nat)
    }
}

impl RunDirectory {
    /// The directory names handed out so far.
    pub open spec fn issued_names(self) -> Seq<Seq<char>> {
        Seq::new(self.issued@.len(), |i: int| self.issued@[i]@)
    }

    /// The full paths handed out so far.
    pub open spec fn issued_paths(self) -> Seq<Seq<char>> {
        Seq::new(self.issued@.len(), |i: int| self.path@ + seq!['/'] + self.issued@[i]@)
    }

    /// Handed-out names never repeat.
    pub open spec fn wf(self) -> bool {
        forall|i: int, j: int|
            0 <= i < j < self.issued@.len() ==> self.issued_names()[i] != self.issued_names()[j]
    }

    /// Room for one more issued name without the collision search
    /// overflowing a machine integer.
    pub open spec fn has_room(self) -> bool {
        self.issued@.len() + 3 < usize::MAX
    }

    /// Records an already-created run root. Creating the timestamped
    /// directory itself, and moving the `latest` link, is the caller's I/O.
    pub fn new(path: String) -> (r: RunDirectory)
        ensures
            r.wf(),
            r.path@ == path@,
            r.issued@.len() == 0,
    {
        RunDirectory { path, issued: Vec::new() }
    }

    pub fn path(&self) -> (r: &str)
        ensures
            r@ == self.path@,
    {
        self.path.as_str()
    }

    /// Is this directory name already taken?
    fn contains_issued(&self, x: &str) -> (r: bool)
        ensures
            r == self.issued_names().contains(x@),
    {
        let n = self.issued.len();
        let mut i: usize = 0;
        #[verifier::loop_isolation(false)]
        while i < n
            invariant
                i <= n,
                forall|j: int| 0 <= j < i ==> self.issued_names()[j] != x@,
            decreases n - i,
        {
            if str_eq(self.issued[i].as_str(), x) {
                proof {
                    assert(self.issued_names()[i as int] == x@);
                }
                return true;
            }
            i += 1;
        }
        proof {
            if self.issued_names().contains(x@) {
                let w = choose|w: int| 0 <= w < n && self.issued_names()[w] == x@;
                assert(self.issued_names()[w] != x@);
            }
        }
        false
    }

    /// Create a subdirectory name for the given instance name.
    /// If the name was already handed out, appends a suffix to make it
    /// unique. Returns the full path, which differs from every path this
    /// run directory has returned before.
    pub fn create_instance_dir(&mut self, instance_name: &str) -> (r: Result<
        String,
        CreateInstanceDirError,
    >)
        requires
            old(self).wf(),
            old(self).has_room(),
        ensures
            final(self).wf(),
            final(self).path@ == old(self).path@,
            instance_name@.len() == 0 <==> r is Err,
            r is Err ==> final(self).issued@ == old(self).issued@ && (r matches Err(
                CreateInstanceDirError::EmptyInstanceName,
            )),
            r matches Ok(p) ==> {
                &&& exists|k: int|
                    0 <= k && final(self).issued_names().last() == dir_candidate(
                        instance_name@,
                        k,
                    ) && forall|t: int|
                        0 <= t < k ==> old(self).issued_names().contains(
                            dir_candidate(instance_name@, t),
                        )
                &&& !old(self).issued_names().contains(final(self).issued_names().last())
                &&& p@ == old(self).path@ + seq!['/'] + final(self).issued_names().last()
                &&& final(self).issued_names() == old(self).issued_names().push(
                    final(self).issued_names().last(),
                )
                &&& forall|t: int|
                    0 <= t < old(self).issued_paths().len() ==> p@ != old(self).issued_paths()[t]
            },
    {
        if instance_name.unicode_len() == 0 {
            return Err(CreateInstanceDirError::EmptyInstanceName);
        }
        let n = self.issued.len();
        let mut k: usize = 0;
        let mut chosen: Option<String> = None;
        #[verifier::loop_isolation(false)]
        while k <= n && chosen.is_none()
            invariant
                k <= n + 1,
                chosen matches Some(c) ==> !self.issued_names().contains(c@) && exists|t: int|
                    0 <= t && c@ == dir_candidate(instance_name@, t) && forall|j: int|
                        0 <= j < t ==> self.issued_names().contains(dir_candidate(instance_name@, j)),
                chosen is None ==> forall|j: int|
                    0 <= j < k ==> self.issued_names().contains(dir_candidate(instance_name@, j)),
            decreases n + 2 - k - (if chosen is Some {
                1int
            } else {
                0int
            }),
        {
            let cand: String = if k == 0 {
                instance_name.to_owned()
            } else {
                let mut c = instance_name.to_owned();
                proof {
                    reveal_strlit("_");
                }
                c.append("_");
                let digits = u64_to_dec(k as u64 + 1);
                c.append(digits.as_str());
                proof {
                    assert(c@ =~= dir_candidate(instance_name@, k as int));
                }
                c
            };
            proof {
                assert(cand@ == dir_candidate(instance_name@, k as int));
            }
            if !self.contains_issued(cand.as_str()) {
                proof {
                    assert(exists|t: int|
                        0 <= t && cand@ == dir_candidate(instance_name@, t) && forall|j: int|
                            0 <= j < t ==> self.issued_names().contains(
                                dir_candidate(instance_name@, j),
                            )) by {
                        assert(cand@ == dir_candidate(instance_name@, k as int));
                    }
                }
                chosen = Some(cand);
            } else {
                k += 1;
            }
        }
        let cand = match chosen {
            Some(c) => c,
            None => {
                proof {
                    // pigeonhole: n + 1 distinct candidate names cannot all
                    // be among the n issued names
                    broadcast use vstd::seq_lib::seq_to_set_is_finite;

                    let names = self.issued_names();
                    let cands = Seq::new(
                        (n + 1) as nat,
                        |t: int| dir_candidate(instance_name@, t),
                    );
                    assert forall|t1: int, t2: int|
                        0 <= t1 < cands.len() && 0 <= t2 < cands.len() && t1 != t2 implies
                        cands[t1] != cands[t2] by {
                        if cands[t1] == cands[t2] {
                            if t1 == 0 || t2 == 0 {
                                let other = if t1 == 0 {
                                    t2
                                } else {
                                    t1
                                };
                                lemma_dec_of_len((other + 1) as nat);
                                assert(dir_candidate(instance_name@, other).len() > instance_name@.len());
                            } else {
                                assert(dec_of((t1 + 1) as nat) =~= cands[t1].skip(
                                    instance_name@.len() as int + 1,
                                ));
                                assert(dec_of((t2 + 1) as nat) =~= cands[t2].skip(
                                    instance_name@.len() as int + 1,
                                ));
                                lemma_dec_of_injective((t1 + 1) as nat, (t2 + 1) as nat);
                            }
                        }
                    }
                    assert(cands.no_duplicates());
                    cands.unique_seq_to_set();
                    names.lemma_cardinality_of_set();
                    assert forall|c: Seq<char>| cands.to_set().contains(c) implies
                        names.to_set().contains(c) by {
                        let t = choose|t: int| 0 <= t < cands.len() && cands[t] == c;
                        assert(names.contains(dir_candidate(instance_name@, t)));
                    }
                    lemma_len_subset(cands.to_set(), names.to_set());
                    assert(false);
                }
                String::new()
            },
        };
        let ghost old_self = *self;
        let mut full = self.path.clone();
        proof {
            reveal_strlit("/");
        }
        full.append("/");
        full.append(cand.as_str());
        self.issued.push(cand);
        proof {
            assert(final(self).issued_names() =~= old_self.issued_names().push(
                final(self).issued_names().last(),
            ));
            assert forall|t: int| 0 <= t < old_self.issued_paths().len() implies full@
                != old_self.issued_paths()[t] by {
                if full@ == old_self.issued_paths()[t] {
                    let root = old_self.path@;
                    assert(final(self).issued_names().last() =~= full@.skip(root.len() as int + 1));
                    assert(old_self.issued_names()[t] =~= old_self.issued_paths()[t].skip(
                        root.len() as int + 1,
                    ));
                    assert(old_self.issued_names().contains(final(self).issued_names().last()));
                }
            }
            assert forall|i: int, j: int|
                0 <= i < j < final(self).issued@.len() implies final(self).issued_names()[i]
                != final(self).issued_names()[j] by {
                if j == final(self).issued@.len() - 1 {
                    assert(!old_self.issued_names().contains(final(self).issued_names()[j]));
                    assert(old_self.issued_names()[i] == final(self).issued_names()[i]);
                }
            }
        }
        Ok(full)
    }

    /// Creates an instance directory named after the file stem of the given
    /// path: it behaves as `create_instance_dir` on that stem, and fails
    /// with `EmptyInstanceName` exactly when the path yields no stem.
    pub fn create_instance_dir_for_path(&mut self, instance_path: &str) -> (r: Result<
        String,
        CreateInstanceDirError,
    >)
        requires
            old(self).wf(),
            old(self).has_room(),
        ensures
            final(self).wf(),
            final(self).path@ == old(self).path@,
            !path_has_stem(instance_path@) <==> r is Err,
            r is Err ==> final(self).issued@ == old(self).issued@ && (r matches Err(
                CreateInstanceDirError::EmptyInstanceName,
            )),
            r matches Ok(p) ==> {
                &&& exists|k: int|
                    0 <= k && final(self).issued_names().last() == dir_candidate(
                        path_stem(instance_path@),
                        k,
                    ) && forall|t: int|
                        0 <= t < k ==> old(self).issued_names().contains(
                            dir_candidate(path_stem(instance_path@), t),
                        )
                &&& !old(self).issued_names().contains(final(self).issued_names().last())
                &&& p@ == old(self).path@ + seq!['/'] + final(self).issued_names().last()
                &&& final(self).issued_names() == old(self).issued_names().push(
                    final(self).issued_names().last(),
                )
                &&& forall|t: int|
                    0 <= t < old(self).issued_paths().len() ==> p@ != old(self).issued_paths()[t]
            },
    {
        let comps = split_slash(instance_path);
        proof {
            lemma_split_slash_len(instance_path@);
        }
        let last = comps[comps.len() - 1].as_str();
        proof {
            assert(comps.deep_view()[comps.deep_view().len() - 1] == path_last_comp(
                instance_path@,
            ));
        }
        if comp_is_skip_or_parent(last) {
            return Err(CreateInstanceDirError::EmptyInstanceName);
        }
        let stem = stem_of(last);
        proof {
            lemma_stem_nonempty(last@);
            assert(last@ == path_last_comp(instance_path@));
            assert(stem@ == path_stem(instance_path@));
            assert(stem@.len() > 0);
        }
        self.create_instance_dir(stem.as_str())
    }
}

/// Once issued, two distinct slots of the run directory name distinct
/// directories: `create_instance_dir` never returns the same path twice.
pub proof fn lemma_unique_directories(d: RunDirectory, i: int, j: int)
    requires
        d.wf(),
        0 <= i < j < d.issued@.len(),
    ensures
        d.issued_paths()[i] != d.issued_paths()[j],
{
    if d.issued_paths()[i] == d.issued_paths()[j] {
        let root = d.path@;
        assert(d.issued_names()[i] =~= d.issued_paths()[i].skip(root.len() as int + 1));
        assert(d.issued_names()[j] =~= d.issued_paths()[j].skip(root.len() as int + 1));
    }
}

/// Strict lexicographic order on character sequences.
pub open spec fn lex_lt_spec(a: Seq<char>, b: Seq<char>) -> bool
    decreases a.len() + b.len(),
{
    if b.len() == 0 {
        false
    } else if a.len() == 0 {
        true
    } else if a[0] != b[0] {
        a[0] < b[0]
    } else {
        lex_lt_spec(a.skip(1), b.skip(1))
    }
}

/// Strict lexicographic comparison of two strings, character by character.
pub fn lex_lt(a: &str, b: &str) -> (r: bool)
    ensures
        r == lex_lt_spec(a@, b@),
{
    let alen = a.unicode_len();
    let blen = b.unicode_len();
    let mut i: usize = 0;
    proof {
        assert(a@.skip(0) =~= a@);
        assert(b@.skip(0) =~= b@);
    }
    #[verifier::loop_isolation(false)]
    while i < alen && i < blen
        invariant
            i <= alen,
            i <= blen,
            lex_lt_spec(a@, b@) == lex_lt_spec(a@.skip(i as int), b@.skip(i as int)),
        decreases alen - i,
    {
        let ca = a.get_char(i);
        let cb = b.get_char(i);
        proof {
            assert(a@.skip(i as int)[0] == ca);
            assert(b@.skip(i as int)[0] == cb);
            assert(a@.skip(i as int).skip(1) =~= a@.skip(i + 1));
            assert(b@.skip(i as int).skip(1) =~= b@.skip(i + 1));
        }
        if ca != cb {
            return ca < cb;
        }
        i += 1;
    }
    proof {
        if i >= alen {
            assert(a@.skip(i as int).len() == 0);
        } else {
            assert(b@.skip(i as int).len() == 0);
        }
    }
    alen < blen
}

/// The rule that guards the `latest` link: the existing target is replaced
/// only when its name sorts strictly before the new run directory's name.
pub fn should_replace_latest(old_target_name: &str, new_name: &str) -> (r: bool)
    ensures
        r == lex_lt_spec(old_target_name@, new_name@),
{
    lex_lt(old_target_name, new_name)
}

/// How many of the names sort strictly after `x`.
pub open spec fn count_newer(names: Seq<Seq<char>>, x: Seq<char>) -> int
    decreases names.len(),
{
    if names.len() == 0 {
        0
    } else {
        count_newer(names.drop_last(), x) + (if lex_lt_spec(x, names.last()) {
            1int
        } else {
            0int
        })
    }
}

/// The names with at least `limit` newer names, kept in the order given:
/// everything that is not among the `limit` lexicographically newest.
pub open spec fn prune_selection(all: Seq<Seq<char>>, upto: int, limit: int) -> Seq<Seq<char>>
    decreases upto,
{
    if upto <= 0 {
        Seq::<Seq<char>>::empty()
    } else {
        let pre = prune_selection(all, upto - 1, limit);
        if count_newer(all, all[upto - 1]) >= limit {
            pre.push(all[upto - 1])
        } else {
            pre
        }
    }
}

fn count_newer_exec(names: &Vec<String>, x: &str) -> (c: usize)
    ensures
        c == count_newer(names.deep_view(), x@),
{
    let n = names.len();
    let mut c: usize = 0;
    let mut j: usize = 0;
    #[verifier::loop_isolation(false)]
    while j < n
        invariant
            j <= n,
            c <= j,
            c == count_newer(names.deep_view().take(j as int), x@),
        decreases n - j,
    {
        proof {
            assert(names.deep_view().take(j + 1).drop_last() =~= names.deep_view().take(j as int));
            assert(names.deep_view().take(j + 1).last() == names.deep_view()[j as int]);
        }
        if lex_lt(x, names[j].as_str()) {
            c += 1;
        }
        j += 1;
    }
    proof {
        assert(names.deep_view().take(n as int) =~= names.deep_view());
    }
    c
}

/// Picks the run directories to remove once more than `limit` are kept:
/// the lexicographically oldest ones, leaving the `limit` newest standing.
pub fn select_dirs_to_prune(names: &Vec<String>, limit: usize) -> (r: Vec<String>)
    ensures
        r.deep_view() == prune_selection(
            names.deep_view(),
            names.deep_view().len() as int,
            limit as int,
        ),
{
    let n = names.len();
    let mut r: Vec<String> = Vec::new();
    let mut i: usize = 0;
    #[verifier::loop_isolation(false)]
    while i < n
        invariant
            i <= n,
            r.deep_view() == prune_selection(names.deep_view(), i as int, limit as int),
        decreases n - i,
    {
        let c = count_newer_exec(names, names[i].as_str());
        if c >= limit {
            r.push(names[i].clone());
            proof {
                assert(r.deep_view() =~~= prune_selection(
                    names.deep_view(),
                    i + 1,
                    limit as int,
                ));
            }
        }
        i += 1;
    }
    r
}

/// The two zero-padded decimal digits of `v`.
pub open spec fn pad2(v: int) -> Seq<char> {
    seq![digit_char(((v / 10) % 10) as nat), digit_char((v % 10) as nat)]
}

/// The six zero-padded decimal digits of `v`.
pub open spec fn pad6(v: int) -> Seq<char> {
    seq![
        digit_char(((v / 100000) % 10) as nat),
        digit_char(((v / 10000) % 10) as nat),
        digit_char(((v / 1000) % 10) as nat),
        digit_char(((v / 100) % 10) as nat),
        digit_char(((v / 10) % 10) as nat),
        digit_char((v % 10) as nat),
    ]
}

/// The name of a run directory at second resolution:
/// `run_YYMMDD_HHMMSS`.
pub open spec fn run_dir_name_spec(
    y: int,
    mo: int,
    d: int,
    h: int,
    mi: int,
    s: int,
) -> Seq<char> {
    seq!['r', 'u', 'n', '_'] + pad2(y) + pad2(mo) + pad2(d) + seq!['_'] + pad2(h) + pad2(mi) + pad2(
        s,
    )
}

fn digit_of(v: u64) -> (r: &'static str)
    requires
        v < 10,
    ensures
        r@ == seq![digit_char(v as nat)],
{
    crate::strutil::digit_str(v)
}

fn append_pad2(out: &mut String, v: u64)
    ensures
        final(out)@ == old(out)@ + pad2(v as int),
{
    out.append(digit_of((v / 10) % 10));
    out.append(digit_of(v % 10));
    proof {
        assert(final(out)@ =~= old(out)@ + pad2(v as int));
    }
}

/// Renders the timestamped run directory name `run_YYMMDD_HHMMSS` from the
/// broken-down local time.
pub fn run_dir_name(y: u64, mo: u64, d: u64, h: u64, mi: u64, s: u64) -> (r: String)
    ensures
        r@ == run_dir_name_spec(y as int, mo as int, d as int, h as int, mi as int, s as int),
{
    proof {
        reveal_strlit("run_");
        reveal_strlit("_");
    }
    let mut out = String::new();
    out.append("run_");
    append_pad2(&mut out, y);
    append_pad2(&mut out, mo);
    append_pad2(&mut out, d);
    out.append("_");
    append_pad2(&mut out, h);
    append_pad2(&mut out, mi);
    append_pad2(&mut out, s);
    proof {
        assert(out@ =~= run_dir_name_spec(
            y as int,
            mo as int,
            d as int,
            h as int,
            mi as int,
            s as int,
        ));
    }
    out
}

/// Renders the microsecond-resolution run directory name
/// `run_YYMMDD_HHMMSS.UUUUUU`, used when the short name collides.
pub fn run_dir_name_long(y: u64, mo: u64, d: u64, h: u64, mi: u64, s: u64, micros: u64) -> (r:
    String)
    ensures
        r@ == run_dir_name_spec(y as int, mo as int, d as int, h as int, mi as int, s as int)
            + seq!['.'] + pad6(micros as int),
{
    let mut out = run_dir_name(y, mo, d, h, mi, s);
    proof {
        reveal_strlit(".");
    }
    out.append(".");
    out.append(digit_of((micros / 100000) % 10));
    out.append(digit_of((micros / 10000) % 10));
    out.append(digit_of((micros / 1000) % 10));
    out.append(digit_of((micros / 100) % 10));
    out.append(digit_of((micros / 10) % 10));
    out.append(digit_of(micros % 10));
    proof {
        assert(out@ =~= run_dir_name_spec(
            y as int,
            mo as int,
            d as int,
            h as int,
            mi as int,
            s as int,
        ) + seq!['.'] + pad6(micros as int));
    }
    out
}

} // verus!

//! The instance set: parses user-supplied paths, expands list files,
//! deduplicates by path, and assigns each instance a unique short name.

use crate::digest::InstanceDigest;
use crate::paths::{
    comp_is_skip_or_parent, has_extension, has_glob_chars, lemma_split_slash_len, normalize_path,
    normalize_spec, path_has_stem, path_is_lst, path_last_comp, path_parent_comp, path_stem,
    split_slash, split_slash_spec, stem_of,
};
use crate::strutil::{dec_of, lemma_dec_of_injective, str_eq, trim, trim_spec, u64_to_dec};
use vstd::pervasive::VecAdditionalExecFns;
use vstd::prelude::*;
use vstd::seq_lib::*;
use vstd::set_lib::lemma_len_subset;
use vstd::string::*;

verus! {

/// One benchmark instance: a unique short name, the path it was loaded from,
/// and the digest found in its header, if any.
#[derive(Debug)]
pub struct Instance {
    pub name: String,
    pub path: String,
    pub idigest: Option<InstanceDigest>,
}

impl Instance {
    /// The short name the instance set assigned: inside a well-formed set
    /// it is non-empty and unique for the whole run.
    pub fn name(&self) -> (r: &str)
        ensures
            r@ == self.name@,
    {
        self.name.as_str()
    }

    pub fn path(&self) -> (r: &str)
        ensures
            r@ == self.path@,
    {
        self.path.as_str()
    }

    pub fn idigest(&self) -> (r: &Option<InstanceDigest>)
        ensures
            r == self.idigest,
    {
        &self.idigest
    }
}

/// Errors surfaced while the instance set is being built.
#[derive(Debug)]
pub enum InstancesError {
    PathNotFound(String),
    DirectoryFound(String),
    Io(String),
}

/// What `parse_and_insert_path` decided about one path.
#[derive(Debug, PartialEq, Eq, Structural)]
pub enum PathDisposition {
    /// The path was taken as an instance; the payload tells whether it was
    /// new.
    Inserted(bool),
    /// The path is a list file; the caller reads it and feeds the lines to
    /// `insert_from_list`.
    ListFile,
}

/// Work left for the caller after a list file was processed: glob patterns
/// to expand and nested list files to read.
#[derive(Debug)]
pub enum ListWork {
    Glob(String),
    List(String),
}

/// The view of one work item: the flag says whether it is a glob pattern.
pub open spec fn list_work_view(w: ListWork) -> (bool, Seq<char>) {
    match w {
        ListWork::Glob(p) => (true, p@),
        ListWork::List(p) => (false, p@),
    }
}

/// The set of instances of one run.
#[derive(Debug)]
pub struct Instances {
    pub items: Vec<Instance>,
}

/// The name a fresh prefix gets from the numeric-suffix fallback.
pub open spec fn counter_name(prefix: Seq<char>, i: int) -> Seq<char> {
    prefix + seq!['-'] + dec_of(i as nat)
}

impl Instances {
    /// The paths of the instances, in insertion order.
    pub open spec fn paths(self) -> Seq<Seq<char>> {
        Seq::new(self.items@.len(), |i: int| self.items@[i].path@)
    }

    /// The short names of the instances, in insertion order.
    pub open spec fn names(self) -> Seq<Seq<char>> {
        Seq::new(self.items@.len(), |i: int| self.items@[i].name@)
    }

    /// The instances themselves.
    pub open spec fn items_seq(self) -> Seq<Instance> {
        self.items@
    }

    /// Paths are pairwise distinct, short names are pairwise distinct, and
    /// every short name is non-empty.
    pub open spec fn wf(self) -> bool {
        &&& forall|i: int, j: int|
            0 <= i < j < self.items@.len() ==> self.paths()[i] != self.paths()[j]
                && self.names()[i] != self.names()[j]
        &&& forall|i: int| 0 <= i < self.items@.len() ==> self.names()[i].len() > 0
    }

    /// Room for at least one more insertion without the numeric-suffix
    /// search overflowing a machine integer.
    pub open spec fn has_room(self) -> bool {
        self.items@.len() + 3 < usize::MAX
    }

    pub fn new() -> (r: Instances)
        ensures
            r.wf(),
            r.items_seq().len() == 0,
    {
        Instances { items: Vec::new() }
    }

    /// Returns number of elements in collection
    pub fn len(&self) -> (r: usize)
        ensures
            r == self.items_seq().len(),
    {
        self.items.len()
    }

    /// Returns `true` iff there are no elements in the collection
    pub fn is_empty(&self) -> (r: bool)
        ensures
            r == (self.items_seq().len() == 0),
    {
        self.items.len() == 0
    }

    /// The instances, in insertion order.
    pub fn iter(&self) -> (r: &Vec<Instance>)
        ensures
            r@ == self.items_seq(),
    {
        &self.items
    }

    /// Is some instance registered under this path?
    pub fn contains_path(&self, p: &str) -> (r: bool)
        ensures
            r == self.paths().contains(p@),
    {
        let n = self.items.len();
        let mut i: usize = 0;
        #[verifier::loop_isolation(false)]
        while i < n
            invariant
                i <= n,
                forall|j: int| 0 <= j < i ==> self.paths()[j] != p@,
            decreases n - i,
        {
            if str_eq(self.items[i].path.as_str(), p) {
                proof {
                    assert(self.paths()[i as int] == p@);
                }
                return true;
            }
            i += 1;
        }
        proof {
            if self.paths().contains(p@) {
                let w = choose|w: int| 0 <= w < n && self.paths()[w] == p@;
                assert(self.paths()[w] != p@);
            }
        }
        false
    }

    /// Is this short name already taken?
    pub fn contains_name(&self, x: &str) -> (r: bool)
        ensures
            r == self.names().contains(x@),
    {
        let n = self.items.len();
        let mut i: usize = 0;
        #[verifier::loop_isolation(false)]
        while i < n
            invariant
                i <= n,
                forall|j: int| 0 <= j < i ==> self.names()[j] != x@,
            decreases n - i,
        {
            if str_eq(self.items[i].name.as_str(), x) {
                proof {
                    assert(self.names()[i as int] == x@);
                }
                return true;
            }
            i += 1;
        }
        proof {
            if self.names().contains(x@) {
                let w = choose|w: int| 0 <= w < n && self.names()[w] == x@;
                assert(self.names()[w] != x@);
            }
        }
        false
    }

    /// Constructs a unique name by adding a numeric suffix `-i` where i>=2 is
    /// the smallest possible choice.
    pub fn unique_by_counter(&self, name_prefix: &str) -> (r: String)
        requires
            self.has_room(),
        ensures
            !self.names().contains(r@),
            r@.len() > 0,
            exists|i: int|
                2 <= i && r@ == counter_name(name_prefix@, i) && forall|j: int|
                    2 <= j < i ==> self.names().contains(counter_name(name_prefix@, j)),
    {
        let n = self.items.len();
        let mut k: usize = 0;
        #[verifier::loop_isolation(false)]
        while k <= n
            invariant
                k <= n + 1,
                forall|j: int| 2 <= j < k + 2 ==> self.names().contains(counter_name(name_prefix@, j)),
            decreases n + 1 - k,
        {
            let i: u64 = (k as u64) + 2;
            let mut cand = name_prefix.to_owned();
            proof {
                reveal_strlit("-");
            }
            cand.append("-");
            let digits = u64_to_dec(i);
            cand.append(digits.as_str());
            proof {
                assert(cand@ =~= counter_name(name_prefix@, i as int));
            }
            if !self.contains_name(cand.as_str()) {
                proof {
                    let wi = i as int;
                    assert(2 <= wi && cand@ == counter_name(name_prefix@, wi) && forall|j: int|
                        2 <= j < wi ==> self.names().contains(counter_name(name_prefix@, j)));
                }
                return cand;
            }
            k += 1;
        }
        proof {
            // pigeonhole: the names seen above give n + 1 pairwise distinct
            // strings inside a set of only n names
            broadcast use vstd::seq_lib::seq_to_set_is_finite;

            let names = self.names();
            let cands = Seq::new((n + 1) as nat, |t: int| counter_name(name_prefix@, t + 2));
            assert forall|t1: int, t2: int|
                0 <= t1 < cands.len() && 0 <= t2 < cands.len() && t1 != t2 implies cands[t1]
                != cands[t2] by {
                if cands[t1] == cands[t2] {
                    let a = counter_name(name_prefix@, t1 + 2);
                    let b = counter_name(name_prefix@, t2 + 2);
                    assert(dec_of((t1 + 2) as nat) =~= a.skip(name_prefix@.len() as int + 1));
                    assert(dec_of((t2 + 2) as nat) =~= b.skip(name_prefix@.len() as int + 1));
                    lemma_dec_of_injective((t1 + 2) as nat, (t2 + 2) as nat);
                }
            }
            assert(cands.no_duplicates());
            cands.unique_seq_to_set();
            names.lemma_cardinality_of_set();
            assert forall|c: Seq<char>| cands.to_set().contains(c) implies names.to_set().contains(
                c,
            ) by {
                let t = choose|t: int| 0 <= t < cands.len() && cands[t] == c;
                assert(names.contains(counter_name(name_prefix@, t + 2)));
            }
            lemma_len_subset(cands.to_set(), names.to_set());
            assert(false);
        }
        String::new()
    }

    /// Constructs a unique name `filestem_parent_parent...` where a minimal
    /// number of parents is taken; if a complete traversal of the parents
    /// does not yet yield a unique name, a numeric suffix is added using
    /// [`Instances::unique_by_counter`].
    pub fn unique_name_from_path(&self, path: &str) -> (r: String)
        requires
            self.has_room(),
        ensures
            !self.names().contains(r@),
            r@.len() > 0,
            path_has_stem(path@) && !self.names().contains(path_stem(path@)) ==> r@ == path_stem(
                path@,
            ),
            path_has_stem(path@) && self.names().contains(path_stem(path@)) && split_slash_spec(
                path@,
            ).len() >= 2 && path_parent_comp(path@).len() > 0 && !self.names().contains(
                path_stem(path@) + seq!['_'] + path_parent_comp(path@),
            ) ==> r@ == path_stem(path@) + seq!['_'] + path_parent_comp(path@),
    {
        let comps = split_slash(path);
        proof {
            lemma_split_slash_len(path@);
        }
        let last_idx = comps.len() - 1;
        let last = comps[last_idx].as_str();
        proof {
            assert(comps.deep_view()[last_idx as int] == path_last_comp(path@));
        }
        if comp_is_skip_or_parent(last) {
            proof {
                reveal_strlit("unnamed");
            }
            return self.unique_by_counter("unnamed");
        }
        let cand = stem_of(last);
        proof {
            crate::paths::lemma_stem_nonempty(last@);
        }
        if !self.contains_name(cand.as_str()) {
            return cand;
        }
        if last_idx >= 1 {
            proof {
                assert(comps.deep_view()[last_idx - 1] == path_parent_comp(path@));
            }
            let parent = comps[last_idx - 1].as_str();
            if parent.unicode_len() > 0 {
                proof {
                    reveal_strlit("_");
                }
                let mut first = cand;
                first.append("_");
                first.append(parent);
                proof {
                    assert(first@ =~= path_stem(path@) + seq!['_'] + path_parent_comp(path@));
                }
                if !self.contains_name(first.as_str()) {
                    return first;
                }
                return self.walk_remaining_parents(&comps, last_idx - 1, first);
            }
        }
        self.unique_by_counter(cand.as_str())
    }

    /// Keeps prefixing parent directory names until the candidate is
    /// unique, then falls back to the numeric suffix.
    fn walk_remaining_parents(&self, comps: &Vec<String>, from: usize, taken: String) -> (r:
        String)
        requires
            self.has_room(),
            from < comps@.len(),
            taken@.len() > 0,
        ensures
            !self.names().contains(r@),
            r@.len() > 0,
    {
        let mut cand = taken;
        let mut lvl = from;
        #[verifier::loop_isolation(false)]
        while lvl > 0
            invariant
                lvl < comps@.len(),
                cand@.len() > 0,
            decreases lvl,
        {
            let parent = comps[lvl - 1].as_str();
            if parent.unicode_len() == 0 {
                return self.unique_by_counter(cand.as_str());
            }
            proof {
                reveal_strlit("_");
            }
            cand.append("_");
            cand.append(parent);
            if !self.contains_name(cand.as_str()) {
                return cand;
            }
            lvl -= 1;
        }
        self.unique_by_counter(cand.as_str())
    }

    /// Attempts to insert a new instance fully described by its path;
    /// returns `true` iff the path was not yet in the data set
    pub fn insert_instace_by_path(&mut self, path: String) -> (r: bool)
        requires
            old(self).wf(),
            old(self).has_room(),
        ensures
            final(self).wf(),
            r == !old(self).paths().contains(path@),
            r ==> final(self).paths() == old(self).paths().push(path@) && final(self).items_seq().drop_last() == old(self).items_seq() && final(self).items_seq().last().idigest is None,
            r && path_has_stem(path@) && !old(self).names().contains(path_stem(path@)) ==> final(self).names().last() == path_stem(path@),
            !r ==> final(self).items_seq() == old(self).items_seq(),
            final(self).items_seq().len() == old(self).items_seq().len() + (if r {
                1int
            } else {
                0int
            }),
    {
        self.insert_instance(path, None)
    }

    /// Inserts an instance with an already-extracted header digest; returns
    /// `true` iff the path was not yet in the data set.
    pub fn insert_instance(&mut self, path: String, idigest: Option<InstanceDigest>) -> (r: bool)
        requires
            old(self).wf(),
            old(self).has_room(),
        ensures
            final(self).wf(),
            r == !old(self).paths().contains(path@),
            r ==> final(self).paths() == old(self).paths().push(path@) && final(self).items_seq().drop_last() == old(self).items_seq() && final(self).items_seq().last().idigest == idigest,
            r && path_has_stem(path@) && !old(self).names().contains(path_stem(path@)) ==> final(self).names().last() == path_stem(path@),
            !r ==> final(self).items_seq() == old(self).items_seq(),
            final(self).items_seq().len() == old(self).items_seq().len() + (if r {
                1int
            } else {
                0int
            }),
    {
        if self.contains_path(path.as_str()) {
            return false;
        }
        let name = self.unique_name_from_path(path.as_str());
        let ghost old_self = *self;
        self.items.push(Instance { name, path, idigest });
        proof {
            assert(final(self).items_seq().drop_last() =~= old_self.items_seq());
            assert(final(self).paths() =~= old_self.paths().push(
                final(self).items_seq().last().path@,
            ));
            assert(final(self).names() =~= old_self.names().push(
                final(self).items_seq().last().name@,
            ));
            assert forall|i: int, j: int|
                0 <= i < j < final(self).items_seq().len() implies final(self).paths()[i] != final(self).paths()[j] && final(self).names()[i] != final(self).names()[j] by {
                if j == final(self).items_seq().len() - 1 {
                    assert(!old_self.paths().contains(final(self).paths()[j]));
                    assert(!old_self.names().contains(final(self).names()[j]));
                    assert(old_self.paths()[i] == final(self).paths()[i]);
                }
            }
        }
        true
    }

    /// Decides what one user-supplied path is: a directory is refused, a
    /// `.lst` path is a list file the caller must read, anything else is
    /// inserted as an instance.
    pub fn parse_and_insert_path(&mut self, path: String, is_dir: bool) -> (r: Result<
        PathDisposition,
        InstancesError,
    >)
        requires
            old(self).wf(),
            old(self).has_room(),
        ensures
            final(self).wf(),
            is_dir <==> r is Err,
            is_dir ==> final(self).items_seq() == old(self).items_seq() && (r matches Err(
                InstancesError::DirectoryFound(p),
            ) && p@ == path@),
            !is_dir && path_is_lst(path@) ==> r == Ok::<PathDisposition, InstancesError>(PathDisposition::ListFile) && final(self).items_seq() == old(self).items_seq(),
            !is_dir && !path_is_lst(path@) ==> (r matches Ok(PathDisposition::Inserted(b)) && b
                == !old(self).paths().contains(path@)) && final(self).paths() == (if !old(
                self,
            ).paths().contains(path@) {
                old(self).paths().push(path@)
            } else {
                old(self).paths()
            }),
    {
        if is_dir {
            return Err(InstancesError::DirectoryFound(path));
        }
        let comps = split_slash(path.as_str());
        proof {
            lemma_split_slash_len(path@);
        }
        let last = comps[comps.len() - 1].as_str();
        proof {
            reveal_strlit("lst");
            assert("lst"@ =~= seq!['l', 's', 't']);
        }
        if has_extension(last, "lst") {
            Ok(PathDisposition::ListFile)
        } else {
            let b = self.insert_instace_by_path(path);
            Ok(PathDisposition::Inserted(b))
        }
    }
}

impl Instances {
    /// Records the digest read out of one instance's header. Names and
    /// paths stay as they are.
    pub fn set_idigest_at(&mut self, i: usize, idigest: Option<InstanceDigest>)
        requires
            i < old(self).items_seq().len(),
            old(self).wf(),
        ensures
            final(self).wf(),
            final(self).paths() == old(self).paths(),
            final(self).names() == old(self).names(),
            final(self).items_seq().len() == old(self).items_seq().len(),
            final(self).items_seq()[i as int].idigest == idigest,
            forall|j: int|
                0 <= j < old(self).items_seq().len() && j != i ==> final(self).items_seq()[j]
                    == old(self).items_seq()[j],
    {
        let name = self.items[i].name.clone();
        let path = self.items[i].path.clone();
        self.items.set(i, Instance { name, path, idigest });
        proof {
            assert(final(self).paths() =~= old(self).paths());
            assert(final(self).names() =~= old(self).names());
        }
    }
}

impl Default for Instances {
    fn default() -> (r: Instances)
        ensures
            r.wf(),
            r.items_seq().len() == 0,
    {
        Instances::new()
    }
}

/// Does the path string contain a glob metacharacter?
pub open spec fn has_glob_spec(p: Seq<char>) -> bool {
    exists|i: int| 0 <= i < p.len() && (p[i] == '*' || p[i] == '?')
}

/// How one list-file line resolves: `None` for blank lines, comments and
/// lines whose relative path escapes the root; otherwise the resolved path
/// with a flag that marks glob patterns.
pub open spec fn resolve_entry_spec(line: Seq<char>, rel: Seq<char>) -> Option<(bool, Seq<char>)> {
    let t = trim_spec(line);
    if t.len() == 0 || t[0] == '#' {
        Option::None
    } else if t[0] == '/' {
        Option::Some((has_glob_spec(t), t))
    } else {
        match normalize_spec(rel + seq!['/'] + t) {
            Option::None => Option::None,
            Option::Some(p) => Option::Some((has_glob_spec(p), p)),
        }
    }
}

/// Resolves one line of a list file against the list's directory: blank and
/// `#`-prefixed lines vanish, absolute lines stand as they are, relative
/// lines are joined and normalized. The flag of the result marks a glob
/// pattern.
pub fn resolve_list_entry(line: &str, relative_to: &str) -> (r: Option<(bool, String)>)
    ensures
        match r {
            Option::Some((g, p)) => resolve_entry_spec(line@, relative_to@) == Some((g, p@)),
            Option::None => resolve_entry_spec(line@, relative_to@) is None,
        },
{
    let t = trim(line);
    if t.as_str().unicode_len() == 0 {
        return Option::None;
    }
    let c0 = t.as_str().get_char(0);
    if c0 == '#' {
        return Option::None;
    }
    if c0 == '/' {
        let g = has_glob_chars(t.as_str());
        return Option::Some((g, t));
    }
    let mut joined = relative_to.to_owned();
    proof {
        reveal_strlit("/");
    }
    joined.append("/");
    joined.append(t.as_str());
    proof {
        assert(joined@ =~= relative_to@ + seq!['/'] + trim_spec(line@));
    }
    match normalize_path(joined.as_str()) {
        Option::None => Option::None,
        Option::Some(p) => {
            let g = has_glob_chars(p.as_str());
            Option::Some((g, p))
        },
    }
}

/// The resolved path of a line that directly names an instance: not a glob
/// pattern and not a nested list file.
pub open spec fn entry_instance_path(line: Seq<char>, rel: Seq<char>) -> Option<Seq<char>> {
    match resolve_entry_spec(line, rel) {
        Option::Some((g, p)) => if !g && !path_is_lst(p) {
            Option::Some(p)
        } else {
            Option::None
        },
        Option::None => Option::None,
    }
}

/// The instance paths after the lines of one list file were taken in, line
/// by line: each direct instance line adds its path unless it is already
/// present.
pub open spec fn list_paths_fold(
    paths: Seq<Seq<char>>,
    lines: Seq<Seq<char>>,
    rel: Seq<char>,
) -> Seq<Seq<char>>
    decreases lines.len(),
{
    if lines.len() == 0 {
        paths
    } else {
        let pre = list_paths_fold(paths, lines.drop_last(), rel);
        match entry_instance_path(lines.last(), rel) {
            Option::Some(p) => if pre.contains(p) {
                pre
            } else {
                pre.push(p)
            },
            Option::None => pre,
        }
    }
}

/// The work a list file leaves for the caller, in line order: glob patterns
/// to expand and nested list files to read.
pub open spec fn list_work_fold(lines: Seq<Seq<char>>, rel: Seq<char>) -> Seq<(bool, Seq<char>)>
    decreases lines.len(),
{
    if lines.len() == 0 {
        Seq::<(bool, Seq<char>)>::empty()
    } else {
        let pre = list_work_fold(lines.drop_last(), rel);
        match resolve_entry_spec(lines.last(), rel) {
            Option::Some((g, p)) => if g {
                pre.push((true, p))
            } else if path_is_lst(p) {
                pre.push((false, p))
            } else {
                pre
            },
            Option::None => pre,
        }
    }
}

fn path_is_lst_exec(p: &str) -> (r: bool)
    ensures
        r == path_is_lst(p@),
{
    let comps = split_slash(p);
    proof {
        lemma_split_slash_len(p@);
        reveal_strlit("lst");
        assert("lst"@ =~= seq!['l', 's', 't']);
    }
    has_extension(comps[comps.len() - 1].as_str(), "lst")
}

impl Instances {
    /// Takes in the lines of one list file. Blank lines and `#`-prefixed
    /// lines are ignored; relative entries are resolved against the list
    /// file's directory; entries containing `*` or `?` and entries naming
    /// nested list files are returned as work for the caller, every other
    /// entry is inserted as an instance.
    #[verifier::loop_isolation(false)]
    pub fn insert_from_list(&mut self, lines: &Vec<String>, relative_to: &str) -> (work: Vec<
        ListWork,
    >)
        requires
            old(self).wf(),
            old(self).items_seq().len() + lines@.len() + 3 < usize::MAX,
        ensures
            final(self).wf(),
            final(self).paths() == list_paths_fold(
                old(self).paths(),
                lines.deep_view(),
                relative_to@,
            ),
            Seq::new(work@.len(), |i: int| list_work_view(work@[i])) == list_work_fold(
                lines.deep_view(),
                relative_to@,
            ),
    {
        let n = lines.len();
        let mut work: Vec<ListWork> = Vec::new();
        let mut i: usize = 0;
        while i < n
            invariant
                i <= n,
                self.wf(),
                self.items_seq().len() <= old(self).items_seq().len() + i,
                self.paths() == list_paths_fold(
                    old(self).paths(),
                    lines.deep_view().take(i as int),
                    relative_to@,
                ),
                Seq::new(work@.len(), |t: int| list_work_view(work@[t])) == list_work_fold(
                    lines.deep_view().take(i as int),
                    relative_to@,
                ),
            decreases n - i,
        {
            proof {
                assert(lines.deep_view().take(i + 1).drop_last() =~= lines.deep_view().take(
                    i as int,
                ));
                assert(lines.deep_view().take(i + 1).last() == lines.deep_view()[i as int]);
            }
            let ghost prev_work = Seq::new(work@.len(), |t: int| list_work_view(work@[t]));
            match resolve_list_entry(lines[i].as_str(), relative_to) {
                Option::None => {},
                Option::Some((g, p)) => {
                    if g {
                        work.push(ListWork::Glob(p));
                        proof {
                            assert(Seq::new(work@.len(), |t: int| list_work_view(work@[t]))
                                =~= prev_work.push((true, p@)));
                        }
                    } else if path_is_lst_exec(p.as_str()) {
                        work.push(ListWork::List(p));
                        proof {
                            assert(Seq::new(work@.len(), |t: int| list_work_view(work@[t]))
                                =~= prev_work.push((false, p@)));
                        }
                    } else {
                        let _ = self.insert_instace_by_path(p);
                    }
                },
            }
            i += 1;
        }
        proof {
            assert(lines.deep_view().take(n as int) =~= lines.deep_view());
        }
        work
    }

    /// The number of instances that carry a header digest; only those
    /// participate in remote aggregation.
    pub fn count_with_digest(&self) -> (r: usize)
        ensures
            r == count_digests(self.items_seq()),
    {
        proof {
            lemma_count_digests_bound(self.items_seq());
        }
        let n = self.items.len();
        let mut count: usize = 0;
        let mut i: usize = 0;
        #[verifier::loop_isolation(false)]
        while i < n
            invariant
                i <= n,
                count == count_digests(self.items_seq().take(i as int)),
                count <= i,
            decreases n - i,
        {
            proof {
                assert(self.items_seq().take(i + 1).drop_last() =~= self.items_seq().take(i as int));
                assert(self.items_seq().take(i + 1).last() == self.items_seq()[i as int]);
                lemma_count_digests_bound(self.items_seq().take(i as int));
            }
            if self.items[i].idigest.is_some() {
                count += 1;
            }
            i += 1;
        }
        proof {
            assert(self.items_seq().take(n as int) =~= self.items_seq());
        }
        count
    }
}

/// How many of the instances carry a digest.
pub open spec fn count_digests(items: Seq<Instance>) -> int
    decreases items.len(),
{
    if items.len() == 0 {
        0
    } else {
        count_digests(items.drop_last()) + (if items.last().idigest is Some {
            1int
        } else {
            0int
        })
    }
}

pub proof fn lemma_count_digests_bound(items: Seq<Instance>)
    ensures
        0 <= count_digests(items) <= items.len(),
    decreases items.len(),
{
    if items.len() > 0 {
        lemma_count_digests_bound(items.drop_last());
    }
}

/// The path/digest view of the raw entries handed to `collect_instances`.
pub open spec fn entries_view(entries: Seq<(String, Option<InstanceDigest>)>) -> Seq<
    (Seq<char>, Option<InstanceDigest>),
> {
    Seq::new(entries.len(), |i: int| (entries[i].0@, entries[i].1))
}

/// The paths of the kept entries.
pub open spec fn kept_paths(items: Seq<(Seq<char>, Option<InstanceDigest>)>) -> Seq<Seq<char>> {
    Seq::new(items.len(), |i: int| items[i].0)
}

/// The entries that survive insertion, in order: an entry is kept unless
/// its path appeared before; the first occurrence keeps its digest.
pub open spec fn collect_fold(entries: Seq<(Seq<char>, Option<InstanceDigest>)>) -> Seq<
    (Seq<char>, Option<InstanceDigest>),
>
    decreases entries.len(),
{
    if entries.len() == 0 {
        Seq::<(Seq<char>, Option<InstanceDigest>)>::empty()
    } else {
        let pre = collect_fold(entries.drop_last());
        if kept_paths(pre).contains(entries.last().0) {
            pre
        } else {
            pre.push(entries.last())
        }
    }
}

/// Builds the instance set from already-resolved instance paths, each with
/// the digest found in its header, and counts the instances that carry
/// one: the set holds exactly the first occurrence of every path, in
/// order, each with its entry's digest.
pub fn collect_instances(entries: Vec<(String, Option<InstanceDigest>)>) -> (r: (Instances, usize))
    requires
        entries@.len() + 3 < usize::MAX,
    ensures
        r.0.wf(),
        r.0.items_seq().len() == collect_fold(entries_view(entries@)).len(),
        forall|k: int|
            0 <= k < r.0.items_seq().len() ==> r.0.items_seq()[k].path@ == collect_fold(
                entries_view(entries@),
            )[k].0 && r.0.items_seq()[k].idigest == collect_fold(entries_view(entries@))[k].1,
        r.1 == count_digests(r.0.items_seq()),
{
    let ghost ev = entries_view(entries@);
    let mut instances = Instances::new();
    let n = entries.len();
    let mut i: usize = 0;
    let mut entries = entries;
    #[verifier::loop_isolation(false)]
    while i < n
        invariant
            i <= n,
            entries@.len() == n - i,
            entries_view(entries@) == ev.skip(i as int),
            instances.wf(),
            instances.items_seq().len() <= i,
            instances.items_seq().len() == collect_fold(ev.take(i as int)).len(),
            instances.paths() == kept_paths(collect_fold(ev.take(i as int))),
            forall|k: int|
                0 <= k < instances.items_seq().len() ==> instances.items_seq()[k].path@
                    == collect_fold(ev.take(i as int))[k].0 && instances.items_seq()[k].idigest
                    == collect_fold(ev.take(i as int))[k].1,
        decreases n - i,
    {
        proof {
            assert(ev.take(i + 1).drop_last() =~= ev.take(i as int));
            assert(ev.take(i + 1).last() == ev[i as int]);
            assert(entries_view(entries@)[0] == ev[i as int]);
        }
        let ghost pre = collect_fold(ev.take(i as int));
        let ghost before = entries@;
        let ghost old_items = instances.items_seq();
        let (path, idigest) = entries.remove(0);
        proof {
            assert(path@ == ev[i as int].0);
            assert(idigest == ev[i as int].1);
        }
        let inserted = instances.insert_instance(path, idigest);
        proof {
            assert(entries@ =~= before.skip(1));
            assert(entries_view(entries@) =~= entries_view(before).skip(1));
            assert(entries_view(before).skip(1) =~= ev.skip(i + 1));
            let next = collect_fold(ev.take(i + 1));
            if inserted {
                assert(next == pre.push(ev[i as int]));
                assert(instances.paths() =~= kept_paths(next));
                assert forall|k: int| 0 <= k < instances.items_seq().len() implies
                    instances.items_seq()[k].path@ == next[k].0 && instances.items_seq()[k].idigest
                    == next[k].1 by {
                    if k < instances.items_seq().len() - 1 {
                        assert(instances.items_seq().drop_last()[k] == old_items[k]);
                        assert(instances.items_seq()[k] == old_items[k]);
                    } else {
                        assert(instances.paths()[k] == ev[i as int].0);
                    }
                }
            } else {
                assert(kept_paths(pre).contains(ev[i as int].0));
                assert(next == pre);
                assert(instances.paths() =~= kept_paths(next));
            }
        }
        i += 1;
    }
    proof {
        assert(ev.take(n as int) =~= ev);
    }
    let count = instances.count_with_digest();
    (instances, count)
}

/// Within one run, the short names of the instances are pairwise distinct
/// and non-empty, and so are their paths.
pub proof fn lemma_unique_short_names(s: Instances, i: int, j: int)
    requires
        s.wf(),
        0 <= i < j < s.items_seq().len(),
    ensures
        s.names()[i] != s.names()[j],
        s.paths()[i] != s.paths()[j],
        s.names()[i].len() > 0,
        s.names()[j].len() > 0,
{
}

/// Every direct instance line of the list ends up in the folded path set.
pub proof fn lemma_list_fold_adds(
    paths: Seq<Seq<char>>,
    lines: Seq<Seq<char>>,
    rel: Seq<char>,
    i: int,
    p: Seq<char>,
)
    requires
        0 <= i < lines.len(),
        entry_instance_path(lines[i], rel) == Some(p),
    ensures
        list_paths_fold(paths, lines, rel).contains(p),
    decreases lines.len(),
{
    let pre = list_paths_fold(paths, lines.drop_last(), rel);
    if i == lines.len() - 1 {
        if !pre.contains(p) {
            assert(pre.push(p)[pre.len() as int] == p);
        }
    } else {
        assert(lines.drop_last()[i] == lines[i]);
        lemma_list_fold_adds(paths, lines.drop_last(), rel, i, p);
        match entry_instance_path(lines.last(), rel) {
            Option::Some(q) => {
                if !pre.contains(q) {
                    let w = choose|w: int| 0 <= w < pre.len() && pre[w] == p;
                    assert(pre.push(q)[w] == p);
                }
            },
            Option::None => {},
        }
    }
}

/// When every direct instance line of the list is already present, folding
/// the list changes nothing.
pub proof fn lemma_list_fold_fixed(paths: Seq<Seq<char>>, lines: Seq<Seq<char>>, rel: Seq<char>)
    requires
        forall|i: int, p: Seq<char>|
            0 <= i < lines.len() && entry_instance_path(lines[i], rel) == Some(p)
                ==> paths.contains(p),
    ensures
        list_paths_fold(paths, lines, rel) == paths,
    decreases lines.len(),
{
    if lines.len() > 0 {
        assert(forall|i: int| 0 <= i < lines.len() - 1 ==> lines.drop_last()[i] == lines[i]);
        lemma_list_fold_fixed(paths, lines.drop_last(), rel);
        match entry_instance_path(lines.last(), rel) {
            Option::Some(p) => {
                assert(lines[lines.len() - 1] == lines.last());
                assert(paths.contains(p));
            },
            Option::None => {},
        }
    }
}

/// Parsing the same list twice yields the same instance paths: the second
/// pass adds nothing.
pub proof fn lemma_list_parsing_idempotent(
    paths: Seq<Seq<char>>,
    lines: Seq<Seq<char>>,
    rel: Seq<char>,
)
    ensures
        list_paths_fold(list_paths_fold(paths, lines, rel), lines, rel) == list_paths_fold(
            paths,
            lines,
            rel,
        ),
{
    let once = list_paths_fold(paths, lines, rel);
    assert forall|i: int, p: Seq<char>|
        0 <= i < lines.len() && entry_instance_path(lines[i], rel) == Some(p) implies once.contains(
        p,
    ) by {
        lemma_list_fold_adds(paths, lines, rel, i, p);
    }
    lemma_list_fold_fixed(once, lines, rel);
}

} // verus!

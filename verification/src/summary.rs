//! The summary: one line-delimited JSON record per completed job. The row
//! is assembled and rendered here, field by field; the caller only appends
//! the finished line to the summary file.

use crate::digest::{hex_char, hex_char_str, hex_of, InstanceDigest};
use crate::instances::Instance;
use crate::jobs::{JobResult, SolutionInfos};
use crate::protocol::{is_stride_line, parse_stride_line, stride_key, stride_value};
use crate::strutil::{dec_of, str_eq, u64_to_dec};
use vstd::pervasive::VecAdditionalExecFns;
use vstd::prelude::*;
use vstd::string::*;

verus! {

/// The escape of one character inside a JSON string literal: quotes and
/// backslashes, the named control escapes, a `\u00xy` escape for every
/// other control character, and everything else stands for itself.
pub open spec fn esc_char(c: char) -> Seq<char> {
    if c == '"' {
        seq!['\\', '"']
    } else if c == '\\' {
        seq!['\\', '\\']
    } else if c == '\x08' {
        seq!['\\', 'b']
    } else if c == '\t' {
        seq!['\\', 't']
    } else if c == '\n' {
        seq!['\\', 'n']
    } else if c == '\x0c' {
        seq!['\\', 'f']
    } else if c == '\r' {
        seq!['\\', 'r']
    } else if (c as int) < 32 {
        seq!['\\', 'u', '0', '0', hex_char(c as int / 16), hex_char(c as int % 16)]
    } else {
        seq![c]
    }
}

/// The body of a JSON string literal holding `s`.
pub open spec fn json_escape(s: Seq<char>) -> Seq<char>
    decreases s.len(),
{
    if s.len() == 0 {
        Seq::<char>::empty()
    } else {
        json_escape(s.drop_last()) + esc_char(s.last())
    }
}

/// A JSON string literal holding `s`.
pub open spec fn json_string_of(s: Seq<char>) -> Seq<char> {
    seq!['"'] + json_escape(s) + seq!['"']
}

/// Renders the body of a JSON string literal.
#[verifier::loop_isolation(false)]
pub fn escape_json(s: &str) -> (r: String)
    ensures
        r@ == json_escape(s@),
{
    proof {
        reveal_strlit("\\\"");
        reveal_strlit("\\\\");
        reveal_strlit("\\b");
        reveal_strlit("\\t");
        reveal_strlit("\\n");
        reveal_strlit("\\f");
        reveal_strlit("\\r");
        reveal_strlit("\\u00");
    }
    let n = s.unicode_len();
    let mut r = String::new();
    let mut i: usize = 0;
    while i < n
        invariant
            i <= n,
            r@ == json_escape(s@.take(i as int)),
        decreases n - i,
    {
        proof {
            assert(s@.take(i + 1).drop_last() =~= s@.take(i as int));
            assert(s@.take(i + 1).last() == s@[i as int]);
        }
        let c = s.get_char(i);
        if c == '"' {
            r.append("\\\"");
        } else if c == '\\' {
            r.append("\\\\");
        } else if c == '\x08' {
            r.append("\\b");
        } else if c == '\t' {
            r.append("\\t");
        } else if c == '\n' {
            r.append("\\n");
        } else if c == '\x0c' {
            r.append("\\f");
        } else if c == '\r' {
            r.append("\\r");
        } else if (c as u32) < 32 {
            let v = c as u32;
            r.append("\\u00");
            r.append(hex_char_str((v / 16) as u8));
            r.append(hex_char_str((v % 16) as u8));
        } else {
            let piece = s.substring_char(i, i + 1);
            r.append(piece);
        }
        proof {
            assert(r@ =~= json_escape(s@.take(i + 1)));
        }
        i += 1;
    }
    proof {
        assert(s@.take(n as int) =~= s@);
    }
    r
}

/// Renders a JSON string literal.
pub fn json_string(s: &str) -> (r: String)
    ensures
        r@ == json_string_of(s@),
{
    proof {
        reveal_strlit("\"");
    }
    let mut r = String::new();
    r.append("\"");
    let body = escape_json(s);
    r.append(body.as_str());
    r.append("\"");
    proof {
        assert(r@ =~= json_string_of(s@));
    }
    r
}

/// Index of the first row entry with the given key, or the row's length.
pub open spec fn first_key_idx(row: Seq<(Seq<char>, Seq<char>)>, k: Seq<char>) -> int
    decreases row.len(),
{
    if row.len() == 0 {
        0
    } else if row[0].0 == k {
        0
    } else {
        1 + first_key_idx(row.skip(1), k)
    }
}

pub proof fn lemma_first_key_idx(row: Seq<(Seq<char>, Seq<char>)>, k: Seq<char>)
    ensures
        0 <= first_key_idx(row, k) <= row.len(),
        first_key_idx(row, k) < row.len() ==> row[first_key_idx(row, k)].0 == k,
        forall|j: int| 0 <= j < first_key_idx(row, k) ==> row[j].0 != k,
    decreases row.len(),
{
    if row.len() > 0 && row[0].0 != k {
        lemma_first_key_idx(row.skip(1), k);
        assert forall|j: int| 0 <= j < first_key_idx(row, k) implies row[j].0 != k by {
            if j >= 1 {
                assert(row.skip(1)[j - 1] == row[j]);
                assert(row.skip(1)[j - 1].0 != k);
            }
        }
    }
}

/// Writes a key/value pair into the row: an existing key keeps its place
/// and takes the new value - the last write wins - and a new key is
/// appended.
pub open spec fn upsert(
    row: Seq<(Seq<char>, Seq<char>)>,
    k: Seq<char>,
    v: Seq<char>,
) -> Seq<(Seq<char>, Seq<char>)> {
    if first_key_idx(row, k) < row.len() {
        row.update(first_key_idx(row, k), (k, v))
    } else {
        row.push((k, v))
    }
}

/// The row after all harvested info pairs were merged in, first to last.
pub open spec fn merge_infos(
    row: Seq<(Seq<char>, Seq<char>)>,
    infos: Seq<(Seq<char>, Seq<char>)>,
) -> Seq<(Seq<char>, Seq<char>)>
    decreases infos.len(),
{
    if infos.len() == 0 {
        row
    } else {
        upsert(merge_infos(row, infos.drop_last()), infos.last().0, infos.last().1)
    }
}

/// The key/rendered-value view of an executable row.
pub open spec fn row_view(row: Seq<(String, String)>) -> Seq<(Seq<char>, Seq<char>)> {
    Seq::new(row.len(), |i: int| (row[i].0@, row[i].1@))
}

/// The fixed fields of a summary row, in order: the short name, the path,
/// the digest and the previous best score where present, the result tag,
/// and the solution size for a valid result. Every value is already
/// rendered as JSON.
pub open spec fn summary_row_spec(
    name: Seq<char>,
    path: Seq<char>,
    idigest: Option<InstanceDigest>,
    prev_best_known: Option<u32>,
    job_result: JobResult,
) -> Seq<(Seq<char>, Seq<char>)> {
    seq![("s_name"@, json_string_of(name)), ("s_path"@, json_string_of(path))] + (match idigest {
        Option::Some(d) => seq![("s_idigest"@, json_string_of(hex_of(d.key())))],
        Option::None => Seq::<(Seq<char>, Seq<char>)>::empty(),
    }) + (match prev_best_known {
        Option::Some(b) => seq![("s_prev_best"@, json_string_of(dec_of(b as nat)))],
        Option::None => Seq::<(Seq<char>, Seq<char>)>::empty(),
    }) + seq![("s_result"@, json_string_of(job_result.tag_spec()))] + (match job_result {
        JobResult::Valid { size } => seq![("s_score"@, dec_of(size as nat))],
        _ => Seq::<(Seq<char>, Seq<char>)>::empty(),
    })
}

/// Replaces the value of an existing key in place, or appends a new pair.
#[verifier::loop_isolation(false)]
fn row_upsert(row: &mut Vec<(String, String)>, k: String, v: String)
    ensures
        row_view(final(row)@) == upsert(row_view(old(row)@), k@, v@),
{
    proof {
        lemma_first_key_idx(row_view(row@), k@);
        assert(row_view(row@).skip(0) =~= row_view(row@));
    }
    let n = row.len();
    let mut i: usize = 0;
    while i < n
        invariant
            i <= n,
            row@ == old(row)@,
            forall|j: int| 0 <= j < i ==> row_view(row@)[j].0 != k@,
        decreases n - i,
    {
        if str_eq(row[i].0.as_str(), k.as_str()) {
            proof {
                let p = first_key_idx(row_view(row@), k@);
                if p < i {
                    assert(row_view(row@)[p].0 == k@);
                } else if p > i {
                    assert(row_view(row@)[i as int].0 != k@);
                }
            }
            replace_pair(row, i, k, v);
            proof {
                assert(row_view(row@) =~= upsert(row_view(old(row)@), k@, v@));
            }
            return ;
        }
        i += 1;
    }
    proof {
        let p = first_key_idx(row_view(row@), k@);
        if p < n {
            assert(row_view(row@)[p].0 == k@);
        }
    }
    row.push((k, v));
    proof {
        assert(row_view(row@) =~= upsert(row_view(old(row)@), k@, v@));
    }
}

fn replace_pair(row: &mut Vec<(String, String)>, i: usize, k: String, v: String)
    requires
        i < old(row)@.len(),
    ensures
        final(row)@ == old(row)@.update(i as int, (k, v)),
{
    row.set(i, (k, v));
}

/// Builds the summary row for one finished job: the fixed fields, then
/// every harvested info pair merged in with the last write winning.
pub fn build_summary_row(
    instance: &Instance,
    job_result: JobResult,
    opt_infos: Option<&SolutionInfos>,
    prev_best_known: Option<u32>,
) -> (row: Vec<(String, String)>)
    ensures
        row_view(row@) == merge_infos(
            summary_row_spec(
                instance.name@,
                instance.path@,
                instance.idigest,
                prev_best_known,
                job_result,
            ),
            match opt_infos {
                Option::Some(infos) => info_view(infos.extra@),
                Option::None => Seq::<(Seq<char>, Seq<char>)>::empty(),
            },
        ),
{
    proof {
        reveal_strlit("s_name");
        reveal_strlit("s_path");
        reveal_strlit("s_idigest");
        reveal_strlit("s_prev_best");
        reveal_strlit("s_result");
        reveal_strlit("s_score");
    }
    let mut row: Vec<(String, String)> = Vec::new();
    row.push((String::from_str("s_name"), json_string(instance.name.as_str())));
    row.push((String::from_str("s_path"), json_string(instance.path.as_str())));
    match &instance.idigest {
        Option::Some(d) => {
            let hexs = crate::digest::idigest_to_hex(d);
            row.push((String::from_str("s_idigest"), json_string(hexs.as_str())));
        },
        Option::None => {},
    }
    match prev_best_known {
        Option::Some(b) => {
            let num = u64_to_dec(b as u64);
            row.push((String::from_str("s_prev_best"), json_string(num.as_str())));
        },
        Option::None => {},
    }
    row.push((String::from_str("s_result"), json_string(job_result.tag_str())));
    match job_result {
        JobResult::Valid { size } => {
            row.push((String::from_str("s_score"), u64_to_dec(size as u64)));
        },
        _ => {},
    }
    let ghost base = summary_row_spec(
        instance.name@,
        instance.path@,
        instance.idigest,
        prev_best_known,
        job_result,
    );
    proof {
        assert(row_view(row@) =~= base);
    }
    match opt_infos {
        Option::Some(infos) => {
            let n = infos.extra.len();
            let mut i: usize = 0;
            #[verifier::loop_isolation(false)]
            while i < n
                invariant
                    i <= n,
                    row_view(row@) == merge_infos(base, info_view(infos.extra@).take(i as int)),
                decreases n - i,
            {
                proof {
                    assert(info_view(infos.extra@).take(i + 1).drop_last() =~= info_view(
                        infos.extra@,
                    ).take(i as int));
                    assert(info_view(infos.extra@).take(i + 1).last() == info_view(infos.extra@)[i as int]);
                }
                let k = infos.extra[i].0.clone();
                let v = infos.extra[i].1.clone();
                row_upsert(&mut row, k, v);
                i += 1;
            }
            proof {
                assert(info_view(infos.extra@).take(n as int) =~= info_view(infos.extra@));
            }
        },
        Option::None => {},
    }
    row
}

/// The key/value view of harvested info pairs.
pub open spec fn info_view(infos: Seq<(String, String)>) -> Seq<(Seq<char>, Seq<char>)> {
    Seq::new(infos.len(), |i: int| (infos[i].0@, infos[i].1@))
}

/// One rendered row entry: the quoted key, a colon, the rendered value.
pub open spec fn render_entry(e: (Seq<char>, Seq<char>)) -> Seq<char> {
    json_string_of(e.0) + seq![':'] + e.1
}

/// All entries of the row, joined with commas.
pub open spec fn render_entries(row: Seq<(Seq<char>, Seq<char>)>) -> Seq<char>
    decreases row.len(),
{
    if row.len() == 0 {
        Seq::<char>::empty()
    } else if row.len() == 1 {
        render_entry(row[0])
    } else {
        render_entries(row.drop_last()) + seq![','] + render_entry(row.last())
    }
}

/// The row as one JSON object.
pub open spec fn render_row_spec(row: Seq<(Seq<char>, Seq<char>)>) -> Seq<char> {
    seq!['{'] + render_entries(row) + seq!['}']
}

/// Renders the row as one JSON object on a single line.
#[verifier::loop_isolation(false)]
pub fn render_row(row: &Vec<(String, String)>) -> (r: String)
    ensures
        r@ == render_row_spec(row_view(row@)),
{
    proof {
        reveal_strlit("{");
        reveal_strlit("}");
        reveal_strlit(",");
        reveal_strlit(":");
    }
    let mut r = String::new();
    r.append("{");
    let n = row.len();
    let mut i: usize = 0;
    while i < n
        invariant
            i <= n,
            r@ == seq!['{'] + render_entries(row_view(row@).take(i as int)),
        decreases n - i,
    {
        proof {
            assert(row_view(row@).take(i + 1).drop_last() =~= row_view(row@).take(i as int));
            assert(row_view(row@).take(i + 1).last() == row_view(row@)[i as int]);
        }
        if i > 0 {
            r.append(",");
        }
        let key_lit = json_string(row[i].0.as_str());
        r.append(key_lit.as_str());
        r.append(":");
        r.append(row[i].1.as_str());
        proof {
            assert(r@ =~= seq!['{'] + render_entries(row_view(row@).take(i + 1)));
        }
        i += 1;
    }
    proof {
        assert(row_view(row@).take(n as int) =~= row_view(row@));
    }
    r.append("}");
    proof {
        assert(r@ =~= render_row_spec(row_view(row@)));
    }
    r
}

/// The append-only summary: one rendered JSON line per completed job.
/// Writing the lines to disk, under the writer's lock, is the caller's
/// I/O.
#[derive(Debug)]
pub struct SummaryWriter {
    pub rows: Vec<String>,
}

impl SummaryWriter {
    pub fn new() -> (r: SummaryWriter)
        ensures
            r.rows@.len() == 0,
    {
        SummaryWriter { rows: Vec::new() }
    }

    /// Appends the record of one completed job and returns the rendered
    /// line: every call adds exactly one row, so the number of rows equals
    /// the number of jobs recorded.
    pub fn add_entry(
        &mut self,
        instance: &Instance,
        job_result: JobResult,
        opt_infos: Option<&SolutionInfos>,
        prev_best_known: Option<u32>,
    ) -> (line: String)
        ensures
            final(self).rows@ == old(self).rows@.push(line),
            final(self).rows@.len() == old(self).rows@.len() + 1,
            line@ == render_row_spec(
                merge_infos(
                    summary_row_spec(
                        instance.name@,
                        instance.path@,
                        instance.idigest,
                        prev_best_known,
                        job_result,
                    ),
                    match opt_infos {
                        Option::Some(infos) => info_view(infos.extra@),
                        Option::None => Seq::<(Seq<char>, Seq<char>)>::empty(),
                    },
                ),
            ),
    {
        let row = build_summary_row(instance, job_result, opt_infos, prev_best_known);
        let line = render_row(&row);
        self.rows.push(line.clone());
        line
    }
}

/// What serde_json makes of a text: the canonical rendering of the JSON
/// value the text parses to, or nothing when the text is not valid JSON.
/// The result depends on the text alone.
pub uninterp spec fn json_reserialized(s: Seq<char>) -> Option<Seq<char>>;

/// Relies on serde_json::from_str and serde_json::to_string: parses the
/// text as one JSON value and renders it back canonically; not valid JSON
/// gives `None`.
#[verifier::external_body]
fn normalize_json_text(s: &str) -> (r: Option<String>)
    ensures
        match r {
            Option::Some(t) => json_reserialized(s@) == Some(t@),
            Option::None => json_reserialized(s@) is None,
        },
{
    match serde_json::from_str::<serde_json::Value>(s) {
        Ok(v) => serde_json::to_string(&v).ok(),
        Err(_) => None,
    }
}

/// The info pairs harvested from the solver's stdout lines: each `#s`
/// protocol line whose value is valid JSON contributes its key and the
/// canonical rendering of its value, in line order.
pub open spec fn harvest_fold(lines: Seq<Seq<char>>) -> Seq<(Seq<char>, Seq<char>)>
    decreases lines.len(),
{
    if lines.len() == 0 {
        Seq::<(Seq<char>, Seq<char>)>::empty()
    } else {
        let pre = harvest_fold(lines.drop_last());
        let l = lines.last();
        if is_stride_line(l) {
            match json_reserialized(stride_value(l)) {
                Option::Some(t) => pre.push((stride_key(l), t)),
                Option::None => pre,
            }
        } else {
            pre
        }
    }
}

/// Harvests the `#s <key> <json>` information lines out of the solver's
/// stdout.
#[verifier::loop_isolation(false)]
pub fn harvest_stride_infos(lines: &Vec<String>) -> (r: Vec<(String, String)>)
    ensures
        info_view(r@) == harvest_fold(lines.deep_view()),
{
    let mut r: Vec<(String, String)> = Vec::new();
    let n = lines.len();
    let mut i: usize = 0;
    while i < n
        invariant
            i <= n,
            info_view(r@) == harvest_fold(lines.deep_view().take(i as int)),
        decreases n - i,
    {
        proof {
            assert(lines.deep_view().take(i + 1).drop_last() =~= lines.deep_view().take(i as int));
            assert(lines.deep_view().take(i + 1).last() == lines.deep_view()[i as int]);
        }
        match parse_stride_line(lines[i].as_str()) {
            Option::Some((k, v)) => {
                match normalize_json_text(v.as_str()) {
                    Option::Some(t) => {
                        r.push((k, t));
                        proof {
                            assert(info_view(r@) =~= harvest_fold(
                                lines.deep_view().take(i + 1),
                            ));
                        }
                    },
                    Option::None => {},
                }
            },
            Option::None => {},
        }
        i += 1;
    }
    proof {
        assert(lines.deep_view().take(n as int) =~= lines.deep_view());
    }
    r
}

} // verus!

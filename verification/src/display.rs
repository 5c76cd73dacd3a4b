//! The decisions behind the per-job progress bar: when a bar appears, how
//! the instance name is fitted to its column, how elapsed time is clamped,
//! and which message each phase shows.

use crate::jobs::JobProgress;
use crate::strutil::{dec_of, is_ws, lemma_trail_ws, trail_ws, u64_to_dec};
use vstd::prelude::*;
use vstd::string::*;

verus! {

/// One counter entry of the status line: the label with its colon pulled in
/// before the label's own trailing padding, then the count right-aligned in
/// a six-character column.
pub open spec fn count_entry_spec(label: Seq<char>, value: nat) -> Seq<char> {
    let cut = label.len() - trail_ws(label);
    let digits = dec_of(value);
    let pad = if digits.len() < 6 {
        Seq::new((6 - digits.len()) as nat, |i: int| ' ')
    } else {
        Seq::<char>::empty()
    };
    label.take(cut) + seq![':'] + label.skip(cut) + seq![' '] + pad + digits
}

/// Renders one counter of the status line.
pub fn count_entry(label: &str, value: u64) -> (r: String)
    ensures
        r@ == count_entry_spec(label@, value as nat),
{
    proof {
        reveal_strlit(":");
        reveal_strlit(" ");
        lemma_trail_ws(label@);
    }
    let n = label.unicode_len();
    let mut cut: usize = n;
    #[verifier::loop_isolation(false)]
    while cut > 0 && is_ws_char(label.get_char(cut - 1))
        invariant
            cut <= n,
            forall|j: int| cut <= j < n ==> is_ws(label@[j]),
        decreases cut,
    {
        cut -= 1;
    }
    proof {
        let t = label@.len() - trail_ws(label@);
        if t < cut {
            assert(is_ws(label@[t]));
        }
        if t > cut {
            assert(is_ws(label@[cut - 1]));
        }
    }
    let head = label.substring_char(0, cut);
    let tail = label.substring_char(cut, n);
    let mut r = head.to_owned();
    r.append(":");
    r.append(tail);
    r.append(" ");
    let digits = u64_to_dec(value);
    let dlen = digits.as_str().unicode_len();
    let mut k: usize = dlen;
    #[verifier::loop_isolation(false)]
    while k < 6
        invariant
            k >= dlen,
            dlen < 6 ==> k <= 6,
            dlen >= 6 ==> k == dlen,
            r@ == label@.take(label@.len() - trail_ws(label@)) + seq![':'] + label@.skip(
                label@.len() - trail_ws(label@),
            ) + seq![' '] + Seq::new((k - dlen) as nat, |i: int| ' '),
        decreases 6 - k,
    {
        r.append(" ");
        proof {
            assert(r@ =~= label@.take(label@.len() - trail_ws(label@)) + seq![':'] + label@.skip(
                label@.len() - trail_ws(label@),
            ) + seq![' '] + Seq::new((k + 1 - dlen) as nat, |i: int| ' '));
        }
        k += 1;
    }
    r.append(digits.as_str());
    proof {
        assert(r@ =~= count_entry_spec(label@, value as nat));
    }
    r
}

fn is_ws_char(c: char) -> (r: bool)
    ensures
        r == is_ws(c),
{
    c == ' ' || c == '\t' || c == '\r' || c == '\n'
}

/// A job shorter than this never gets its own bar, in milliseconds.
pub const MILLIS_BEFORE_PROGRESS_BAR: u64 = 100;

/// The width of the instance-name column.
pub const MAX_INSTANCE_NAME_LENGTH: usize = 20;

/// The name as the bar shows it: cut to the column width, padded with
/// spaces up to it.
pub open spec fn fitted_name_spec(name: Seq<char>, width: int) -> Seq<char> {
    if name.len() >= width {
        name.take(width)
    } else {
        name + Seq::new((width - name.len()) as nat, |i: int| ' ')
    }
}

/// Fits an instance name to the bar's name column.
pub fn fit_instance_name(name: &str) -> (r: String)
    ensures
        r@ == fitted_name_spec(name@, MAX_INSTANCE_NAME_LENGTH as int),
        r@.len() == MAX_INSTANCE_NAME_LENGTH,
{
    let n = name.unicode_len();
    if n >= MAX_INSTANCE_NAME_LENGTH {
        let cut = name.substring_char(0, MAX_INSTANCE_NAME_LENGTH);
        proof {
            assert(cut@ =~= fitted_name_spec(name@, MAX_INSTANCE_NAME_LENGTH as int));
        }
        cut.to_owned()
    } else {
        proof {
            reveal_strlit(" ");
        }
        let mut r = name.to_owned();
        let mut i: usize = n;
        #[verifier::loop_isolation(false)]
        while i < MAX_INSTANCE_NAME_LENGTH
            invariant
                n <= i <= MAX_INSTANCE_NAME_LENGTH,
                r@ == name@ + Seq::new((i - n) as nat, |t: int| ' '),
            decreases MAX_INSTANCE_NAME_LENGTH - i,
        {
            r.append(" ");
            proof {
                assert(r@ =~= name@ + Seq::new((i + 1 - n) as nat, |t: int| ' '));
            }
            i += 1;
        }
        proof {
            assert(r@ =~= fitted_name_spec(name@, MAX_INSTANCE_NAME_LENGTH as int));
        }
        r
    }
}

/// The elapsed time as the bar shows it, clamped to the job's whole time
/// budget.
pub fn clamp_elapsed(elapsed_millis: u64, max_time_millis: u64) -> (r: u64)
    ensures
        r == (if elapsed_millis < max_time_millis {
            elapsed_millis
        } else {
            max_time_millis
        }),
{
    if elapsed_millis < max_time_millis {
        elapsed_millis
    } else {
        max_time_millis
    }
}

/// Does the job get its own bar yet? Short-running jobs never show one.
pub fn show_job_bar(elapsed_millis: u64) -> (r: bool)
    ensures
        r == (elapsed_millis >= MILLIS_BEFORE_PROGRESS_BAR),
{
    elapsed_millis >= MILLIS_BEFORE_PROGRESS_BAR
}

/// The message the bar shows for the phase: a running job that has passed
/// its soft timeout is in its grace period.
pub fn progress_message(progress: JobProgress, elapsed_millis: u64, soft_timeout_millis: u64) -> (r:
    &'static str)
    ensures
        progress is Starting ==> r@ == "starting"@,
        progress is Running && elapsed_millis > soft_timeout_millis ==> r@ == "grace"@,
        progress is Running && elapsed_millis <= soft_timeout_millis ==> r@ == "running"@,
        progress is Checking ==> r@ == "checking"@,
        progress is Finished ==> r@ == "done"@,
{
    match progress {
        JobProgress::Starting => "starting",
        JobProgress::Running => {
            if elapsed_millis > soft_timeout_millis {
                "grace"
            } else {
                "running"
            }
        },
        JobProgress::Checking => "checking",
        JobProgress::Finished => "done",
    }
}

} // verus!

//! The report of the profile wrapper: after the real solver exits, the
//! wrapper prints `#s` lines with wall time, CPU times and resource
//! counters. The syscall that measures them, and printing, are the
//! caller's I/O; the lines themselves are built here.

use crate::strutil::{dec_of, digit_char, digit_str, secs_of_millis, u64_to_dec};
use vstd::arithmetic::div_mod::lemma_breakdown;
use vstd::prelude::*;
use vstd::string::*;

verus! {

/// The six digits of a microsecond remainder, most significant first.
pub open spec fn micro_digits(usec: nat) -> Seq<char> {
    seq![
        digit_char((usec / 100000) % 10),
        digit_char((usec / 10000) % 10),
        digit_char((usec / 1000) % 10),
        digit_char((usec / 100) % 10),
        digit_char((usec / 10) % 10),
        digit_char(usec % 10),
    ]
}

/// Drops the trailing zero digits.
pub open spec fn trim_zeros(s: Seq<char>) -> Seq<char>
    decreases s.len(),
{
    if s.len() == 0 {
        s
    } else if s.last() == '0' {
        trim_zeros(s.drop_last())
    } else {
        s
    }
}

/// A duration in seconds at microsecond resolution, rendered the way a
/// plain decimal prints: the whole seconds, then the fractional digits
/// without trailing zeros.
pub open spec fn secs_of_micros(sec: nat, usec: nat) -> Seq<char> {
    if usec == 0 {
        dec_of(sec)
    } else {
        dec_of(sec) + seq!['.'] + trim_zeros(micro_digits(usec))
    }
}

/// Renders a second/microsecond pair as fractional seconds.
pub fn secs_micros_string(sec: u64, usec: u64) -> (r: String)
    requires
        usec < 1000000,
    ensures
        r@ == secs_of_micros(sec as nat, usec as nat),
{
    let mut r = u64_to_dec(sec);
    if usec == 0 {
        return r;
    }
    proof {
        reveal_strlit(".");
        lemma_breakdown(usec as int, 10, 10);
        lemma_breakdown(usec as int, 100, 10);
        lemma_breakdown(usec as int, 1000, 10);
        lemma_breakdown(usec as int, 10000, 10);
    }
    r.append(".");
    r.append(digit_str((usec / 100000) % 10));
    if usec % 100000 != 0 {
        r.append(digit_str((usec / 10000) % 10));
    }
    if usec % 10000 != 0 {
        r.append(digit_str((usec / 1000) % 10));
    }
    if usec % 1000 != 0 {
        r.append(digit_str((usec / 100) % 10));
    }
    if usec % 100 != 0 {
        r.append(digit_str((usec / 10) % 10));
    }
    if usec % 10 != 0 {
        r.append(digit_str(usec % 10));
    }
    proof {
        reveal_with_fuel(trim_zeros, 8);
        assert(r@ =~= secs_of_micros(sec as nat, usec as nat));
    }
    r
}

/// One `#s <key> <value>` report line.
pub fn report_line(key: &str, value: &str) -> (r: String)
    ensures
        r@ == "#s "@ + key@ + seq![' '] + value@,
{
    proof {
        reveal_strlit("#s ");
        reveal_strlit(" ");
    }
    let mut r = String::new();
    r.append("#s ");
    r.append(key);
    r.append(" ");
    r.append(value);
    proof {
        assert(r@ =~= "#s "@ + key@ + seq![' '] + value@);
    }
    r
}

/// The resource usage the wrapper reports, as plain integers: CPU times in
/// whole seconds and microseconds, the peak resident set in kibibytes, and
/// the fault and context-switch counters.
#[derive(Clone, Copy, PartialEq, Eq, Debug, Structural)]
pub struct ChildUsage {
    pub utime_sec: u64,
    pub utime_usec: u64,
    pub stime_sec: u64,
    pub stime_usec: u64,
    pub maxrss_kib: u64,
    pub minflt: u64,
    pub majflt: u64,
    pub nvcsw: u64,
    pub nivcsw: u64,
}

impl ChildUsage {
    /// Microsecond fields carry less than one second.
    pub open spec fn wf(self) -> bool {
        self.utime_usec < 1000000 && self.stime_usec < 1000000
    }
}

/// The report the wrapper prints after the child exited: the wall time of
/// the whole run, the CPU times, the peak resident set scaled to bytes,
/// and the counters, one `#s` line each, in this order.
pub fn build_usage_report(wall_millis: u64, usage: &ChildUsage) -> (r: Vec<String>)
    requires
        usage.wf(),
        usage.maxrss_kib <= u64::MAX / 1024,
    ensures
        r.deep_view().len() == 8,
        r.deep_view()[0] == "#s "@ + "s_wtime"@ + seq![' '] + secs_of_millis(wall_millis as nat),
        r.deep_view()[1] == "#s "@ + "s_utime"@ + seq![' '] + secs_of_micros(
            usage.utime_sec as nat,
            usage.utime_usec as nat,
        ),
        r.deep_view()[2] == "#s "@ + "s_stime"@ + seq![' '] + secs_of_micros(
            usage.stime_sec as nat,
            usage.stime_usec as nat,
        ),
        r.deep_view()[3] == "#s "@ + "s_maxrss"@ + seq![' '] + dec_of(
            (usage.maxrss_kib * 1024) as nat,
        ),
        r.deep_view()[4] == "#s "@ + "s_minflt"@ + seq![' '] + dec_of(usage.minflt as nat),
        r.deep_view()[5] == "#s "@ + "s_majflt"@ + seq![' '] + dec_of(usage.majflt as nat),
        r.deep_view()[6] == "#s "@ + "s_nvcsw"@ + seq![' '] + dec_of(usage.nvcsw as nat),
        r.deep_view()[7] == "#s "@ + "s_nivcsw"@ + seq![' '] + dec_of(usage.nivcsw as nat),
{
    proof {
        reveal_strlit("s_wtime");
        reveal_strlit("s_utime");
        reveal_strlit("s_stime");
        reveal_strlit("s_maxrss");
        reveal_strlit("s_minflt");
        reveal_strlit("s_majflt");
        reveal_strlit("s_nvcsw");
        reveal_strlit("s_nivcsw");
    }
    let mut r: Vec<String> = Vec::new();
    let wtime = crate::strutil::secs_string(wall_millis);
    r.push(report_line("s_wtime", wtime.as_str()));
    let utime = secs_micros_string(usage.utime_sec, usage.utime_usec);
    r.push(report_line("s_utime", utime.as_str()));
    let stime = secs_micros_string(usage.stime_sec, usage.stime_usec);
    r.push(report_line("s_stime", stime.as_str()));
    let rss = u64_to_dec(usage.maxrss_kib * 1024);
    r.push(report_line("s_maxrss", rss.as_str()));
    let minflt = u64_to_dec(usage.minflt);
    r.push(report_line("s_minflt", minflt.as_str()));
    let majflt = u64_to_dec(usage.majflt);
    r.push(report_line("s_majflt", majflt.as_str()));
    let nvcsw = u64_to_dec(usage.nvcsw);
    r.push(report_line("s_nvcsw", nvcsw.as_str()));
    let nivcsw = u64_to_dec(usage.nivcsw);
    r.push(report_line("s_nivcsw", nivcsw.as_str()));
    r
}

} // verus!

//! The per-instance job processor: a state machine
//! `Starting -> Running -> Checking -> Finished` that drives one solver run
//! and turns raw outcomes into a `JobResult`.
//!
//! Spawning, waiting and the validator call are the caller's I/O; every
//! transition and every classification is verified, and each transition
//! only ever moves the progress forward.

use crate::jobs::{
    exit_tentative_result, ChildExitStatus, JobProgress, JobResult,
};
use crate::strutil::{secs_of_millis, secs_string};
use vstd::prelude::*;
use vstd::string::*;

verus! {

/// Environment variable naming the instance file handed to the solver.
pub fn env_instance_path() -> (r: &'static str)
    ensures
        r@ == "STRIDE_INSTANCE_PATH"@,
{
    "STRIDE_INSTANCE_PATH"
}

/// Environment variable carrying the soft timeout in seconds.
pub fn env_soft_timeout() -> (r: &'static str)
    ensures
        r@ == "STRIDE_TIMEOUT"@,
{
    "STRIDE_TIMEOUT"
}

/// Environment variable carrying the grace period in seconds.
pub fn env_grace_period() -> (r: &'static str)
    ensures
        r@ == "STRIDE_GRACE"@,
{
    "STRIDE_GRACE"
}

/// The state of one job. Durations are in milliseconds; a recorded runtime
/// of zero means "not measured yet".
#[derive(Debug)]
pub struct JobProcessor {
    pub work_dir: String,
    pub instance_path: String,
    pub solver: String,
    pub soft_timeout_millis: u64,
    pub grace_period_millis: u64,
    pub solver_args: Vec<String>,
    pub progress: JobProgress,
    pub profiler: bool,
    pub profiler_executable: Option<String>,
    pub set_stride_envs: bool,
    pub solver_runtime_millis: u64,
}

impl JobProcessor {
    pub fn new(
        work_dir: String,
        instance_path: String,
        solver: String,
        soft_timeout_millis: u64,
        grace_period_millis: u64,
        solver_args: Vec<String>,
        profiler: bool,
        profiler_executable: Option<String>,
        set_stride_envs: bool,
    ) -> (r: JobProcessor)
        ensures
            r.work_dir@ == work_dir@,
            r.instance_path@ == instance_path@,
            r.solver@ == solver@,
            r.soft_timeout_millis == soft_timeout_millis,
            r.grace_period_millis == grace_period_millis,
            r.solver_args@ == solver_args@,
            r.progress == JobProgress::Starting,
            r.profiler == profiler,
            r.profiler_executable == profiler_executable,
            r.set_stride_envs == set_stride_envs,
            r.solver_runtime_millis == 0,
    {
        JobProcessor {
            work_dir,
            instance_path,
            solver,
            soft_timeout_millis,
            grace_period_millis,
            solver_args,
            progress: JobProgress::Starting,
            profiler,
            profiler_executable,
            set_stride_envs,
            solver_runtime_millis: 0,
        }
    }

    pub fn instance_path(&self) -> (r: &str)
        ensures
            r@ == self.instance_path@,
    {
        self.instance_path.as_str()
    }

    /// The soft timeout, in milliseconds.
    pub fn soft_timeout(&self) -> (r: u64)
        ensures
            r == self.soft_timeout_millis,
    {
        self.soft_timeout_millis
    }

    /// The grace period, in milliseconds.
    pub fn grace_period(&self) -> (r: u64)
        ensures
            r == self.grace_period_millis,
    {
        self.grace_period_millis
    }

    pub fn progress(&self) -> (r: JobProgress)
        ensures
            r == self.progress,
    {
        self.progress
    }

    /// The measured solver wall time; `None` while nothing was measured.
    pub fn runtime(&self) -> (r: Option<u64>)
        ensures
            self.solver_runtime_millis > 0 ==> r == Some(self.solver_runtime_millis),
            self.solver_runtime_millis == 0 ==> r is None,
    {
        if self.solver_runtime_millis > 0 {
            Some(self.solver_runtime_millis)
        } else {
            None
        }
    }

    /// The extra environment the solver receives, unless suppressed: the
    /// instance path and the two time budgets in seconds.
    pub fn env_vars(&self) -> (r: Vec<(String, String)>)
        ensures
            !self.set_stride_envs ==> r@.len() == 0,
            self.set_stride_envs ==> {
                &&& r@.len() == 3
                &&& r@[0].0@ == "STRIDE_INSTANCE_PATH"@ && r@[0].1@ == self.instance_path@
                &&& r@[1].0@ == "STRIDE_TIMEOUT"@ && r@[1].1@ == secs_of_millis(
                    self.soft_timeout_millis as nat,
                )
                &&& r@[2].0@ == "STRIDE_GRACE"@ && r@[2].1@ == secs_of_millis(
                    self.grace_period_millis as nat,
                )
            },
    {
        if !self.set_stride_envs {
            return Vec::new();
        }
        let mut r: Vec<(String, String)> = Vec::new();
        r.push((env_instance_path().to_owned(), self.instance_path.clone()));
        r.push((env_soft_timeout().to_owned(), secs_string(self.soft_timeout_millis)));
        r.push((env_grace_period().to_owned(), secs_string(self.grace_period_millis)));
        r
    }

    /// The solver binary and argument list the executor is built with: the
    /// profile wrapper, when enabled, stands in for the solver and receives
    /// it as its first payload argument.
    pub fn executor_plan(&self, profiler_path: &str) -> (r: (String, Vec<String>))
        ensures
            !self.profiler ==> r.0@ == self.solver@ && r.1.deep_view() == self.solver_args.deep_view(),
            self.profiler ==> r.0@ == profiler_path@ && r.1.deep_view() == seq![
                "p"@,
                self.solver@,
                "--"@,
            ] + self.solver_args.deep_view(),
    {
        if self.profiler {
            proof {
                reveal_strlit("p");
                reveal_strlit("--");
            }
            let mut args: Vec<String> = Vec::new();
            args.push(String::from_str("p"));
            args.push(self.solver.clone());
            args.push(String::from_str("--"));
            let ghost pre = seq!["p"@, self.solver@, "--"@];
            proof {
                assert(args.deep_view() =~= pre + self.solver_args.deep_view().take(0));
            }
            let mut i: usize = 0;
            let n = self.solver_args.len();
            #[verifier::loop_isolation(false)]
            while i < n
                invariant
                    i <= n,
                    args@.len() == 3 + i,
                    args.deep_view() == pre + self.solver_args.deep_view().take(i as int),
                decreases n - i,
            {
                args.push(self.solver_args[i].clone());
                proof {
                    assert(args@[3 + i as int] == self.solver_args@[i as int]);
                    assert forall|t: int| 0 <= t < args.deep_view().len() implies args.deep_view()[t]
                        == (pre + self.solver_args.deep_view().take(i + 1))[t] by {
                        if t < 3 + i {
                            assert(args.deep_view()[t] == (pre
                                + self.solver_args.deep_view().take(i as int))[t]);
                        }
                    }
                    assert(args.deep_view() =~= pre + self.solver_args.deep_view().take(i + 1));
                }
                i += 1;
            }
            proof {
                assert(self.solver_args.deep_view().take(n as int) =~= self.solver_args.deep_view());
            }
            (profiler_path.to_owned(), args)
        } else {
            (self.solver.clone(), clone_args(&self.solver_args))
        }
    }

    /// Moves the job from `Starting` to `Running`. Progress only moves
    /// forward.
    pub fn start_running(&mut self)
        requires
            old(self).progress == JobProgress::Starting,
        ensures
            *final(self) == (JobProcessor { progress: JobProgress::Running, ..*old(self) }),
            old(self).progress.le(final(self).progress),
    {
        self.progress = JobProgress::Running;
    }

    /// Records the measured solver wall time; a measurement below one
    /// millisecond is reported as one, zero being reserved for "not
    /// measured".
    pub fn record_runtime(&mut self, elapsed_millis: u64)
        ensures
            *final(self) == (JobProcessor {
                solver_runtime_millis: if elapsed_millis == 0 {
                    1u64
                } else {
                    elapsed_millis
                },
                ..*old(self)
            }),
            final(self).solver_runtime_millis > 0,
            old(self).progress.le(final(self).progress),
    {
        self.solver_runtime_millis = if elapsed_millis == 0 {
            1
        } else {
            elapsed_millis
        };
    }

    /// Classifies the child's exit status: `None` means the solution must
    /// still be checked, `Some` is the final tentative result. A child that
    /// went over its budget - killed, or dead to the escalation's SIGTERM
    /// within grace - is a timeout; a child that failed on its own is a
    /// solver error.
    pub fn classify_exit(&self, status: ChildExitStatus) -> (r: Option<JobResult>)
        ensures
            status.is_success_spec() <==> r is None,
            status is Timeout ==> r == Some(JobResult::Timeout),
            status == ChildExitStatus::WithinGrace(None::<i32>) ==> r == Some(JobResult::Timeout),
            !status.is_success_spec() && !(status is Timeout) && status
                != ChildExitStatus::WithinGrace(None::<i32>) ==> r == Some(JobResult::SolverError),
    {
        exit_tentative_result(status)
    }

    /// Moves the job from `Running` to `Checking` while the validator
    /// works. Progress only moves forward.
    pub fn start_checking(&mut self)
        requires
            old(self).progress == JobProgress::Running,
        ensures
            *final(self) == (JobProcessor { progress: JobProgress::Checking, ..*old(self) }),
            old(self).progress.le(final(self).progress),
    {
        self.progress = JobProgress::Checking;
    }

    /// Moves the job to `Finished`, whatever came before: even a job whose
    /// pipeline failed ends in `Finished`. Progress only moves forward.
    pub fn finish(&mut self)
        ensures
            *final(self) == (JobProcessor { progress: JobProgress::Finished, ..*old(self) }),
            old(self).progress.le(final(self).progress),
    {
        self.progress = JobProgress::Finished;
    }
}

fn clone_args(args: &Vec<String>) -> (r: Vec<String>)
    ensures
        r.deep_view() == args.deep_view(),
{
    let mut r: Vec<String> = Vec::new();
    let n = args.len();
    let mut i: usize = 0;
    #[verifier::loop_isolation(false)]
    while i < n
        invariant
            i <= n,
            r.deep_view() == args.deep_view().take(i as int),
        decreases n - i,
    {
        r.push(args[i].clone());
        proof {
            assert(r.deep_view() =~= args.deep_view().take(i + 1));
        }
        i += 1;
    }
    proof {
        assert(args.deep_view().take(n as int) =~= args.deep_view());
    }
    r
}

/// A run of progress values in which every step moves forward is globally
/// non-decreasing: whatever two instants of one job's life are compared,
/// the later one is at least as far along, and a job that took its last
/// step through `finish` ends in `Finished`.
pub proof fn lemma_monotone_progress(ps: Seq<JobProgress>, i: int, j: int)
    requires
        forall|k: int| 0 <= k < ps.len() - 1 ==> #[trigger] ps[k].le(ps[k + 1]),
        0 <= i <= j < ps.len(),
    ensures
        ps[i].le(ps[j]),
    decreases j - i,
{
    if i < j {
        lemma_monotone_progress(ps, i + 1, j);
        assert(ps[i].le(ps[i + 1]));
    }
}

} // verus!

//! Outcome classification for one solver run: the observable job phases, the
//! final result tags, the three-valued child exit status, and the mapping
//! from validator errors to result tags.

use vstd::prelude::*;

verus! {

/// Externally observable state of one job, totally ordered
/// `Starting < Running < Checking < Finished`.
#[derive(Clone, Copy, PartialEq, Eq, Debug, Structural)]
pub enum JobProgress {
    Starting,
    Running,
    Checking,
    Finished,
}

impl JobProgress {
    /// Position of the phase in the pipeline order.
    pub open spec fn rank(self) -> int {
        match self {
            JobProgress::Starting => 0,
            JobProgress::Running => 1,
            JobProgress::Checking => 2,
            JobProgress::Finished => 3,
        }
    }

    /// The pipeline order on phases.
    pub open spec fn le(self, other: JobProgress) -> bool {
        self.rank() <= other.rank()
    }
}

/// The pipeline order on job phases is a total order, so any run of phases in
/// which each step only moves forward is a non-decreasing sequence.
pub proof fn lemma_job_progress_total_order(a: JobProgress, b: JobProgress, c: JobProgress)
    ensures
        a.le(a),
        a.le(b) && b.le(a) ==> a == b,
        a.le(b) && b.le(c) ==> a.le(c),
        a.le(b) || b.le(a),
{
}

/// Classification of one solver invocation, final for the summary row.
#[derive(Clone, Copy, PartialEq, Eq, Debug, Structural)]
pub enum JobResult {
    Valid { size: usize },
    Infeasible,
    InvalidInstance,
    EmptySolution,
    SyntaxError,
    SystemError,
    SolverError,
    Timeout,
}

impl JobResult {
    /// The result tag as it appears in the summary's `s_result` field.
    pub open spec fn tag_spec(self) -> Seq<char> {
        match self {
            JobResult::Valid { .. } => "Valid"@,
            JobResult::Infeasible => "Infeasible"@,
            JobResult::InvalidInstance => "InvalidInstance"@,
            JobResult::EmptySolution => "EmptySolution"@,
            JobResult::SyntaxError => "SyntaxError"@,
            JobResult::SystemError => "SystemError"@,
            JobResult::SolverError => "SolverError"@,
            JobResult::Timeout => "Timeout"@,
        }
    }

    /// The lower-case tag, used as the name of the per-outcome bucket that a
    /// kept working directory is moved into.
    pub open spec fn bucket_spec(self) -> Seq<char> {
        match self {
            JobResult::Valid { .. } => "valid"@,
            JobResult::Infeasible => "infeasible"@,
            JobResult::InvalidInstance => "invalidinstance"@,
            JobResult::EmptySolution => "emptysolution"@,
            JobResult::SyntaxError => "syntaxerror"@,
            JobResult::SystemError => "systemerror"@,
            JobResult::SolverError => "solvererror"@,
            JobResult::Timeout => "timeout"@,
        }
    }

    pub fn is_valid(self) -> (r: bool)
        ensures
            r == (self is Valid),
    {
        matches!(self, JobResult::Valid { .. })
    }

    /// The result tag as a string.
    pub fn tag_str(self) -> (r: &'static str)
        ensures
            r@ == self.tag_spec(),
    {
        match self {
            JobResult::Valid { .. } => "Valid",
            JobResult::Infeasible => "Infeasible",
            JobResult::InvalidInstance => "InvalidInstance",
            JobResult::EmptySolution => "EmptySolution",
            JobResult::SyntaxError => "SyntaxError",
            JobResult::SystemError => "SystemError",
            JobResult::SolverError => "SolverError",
            JobResult::Timeout => "Timeout",
        }
    }

    /// The lower-case bucket name as a string.
    pub fn bucket_str(self) -> (r: &'static str)
        ensures
            r@ == self.bucket_spec(),
    {
        match self {
            JobResult::Valid { .. } => "valid",
            JobResult::Infeasible => "infeasible",
            JobResult::InvalidInstance => "invalidinstance",
            JobResult::EmptySolution => "emptysolution",
            JobResult::SyntaxError => "syntaxerror",
            JobResult::SystemError => "systemerror",
            JobResult::SolverError => "solvererror",
            JobResult::Timeout => "timeout",
        }
    }
}

/// The information harvested from one solver run's stdout: the solution
/// tree lines, and the `#s` key/value pairs, each value already rendered
/// as JSON text.
#[derive(Debug)]
pub struct SolutionInfos {
    pub trees: Vec<String>,
    pub extra: Vec<(String, String)>,
}

/// How the child process ended: before the soft timeout, between SIGTERM and
/// SIGKILL, or not at all (killed). The payload is the child's own exit
/// code, or `None` when a signal ended it instead.
#[derive(Clone, Copy, PartialEq, Eq, Debug, Structural)]
pub enum ChildExitStatus {
    BeforeTimeout(Option<i32>),
    WithinGrace(Option<i32>),
    Timeout,
}

impl ChildExitStatus {
    /// A run counts as success exactly when the child exited by itself with
    /// code zero.
    pub open spec fn is_success_spec(self) -> bool {
        match self {
            ChildExitStatus::BeforeTimeout(code) => code == Some(0int as i32),
            ChildExitStatus::WithinGrace(code) => code == Some(0int as i32),
            ChildExitStatus::Timeout => false,
        }
    }

    pub fn is_success(self) -> (r: bool)
        ensures
            r == self.is_success_spec(),
    {
        match self {
            ChildExitStatus::BeforeTimeout(code) => code == Some(0),
            ChildExitStatus::WithinGrace(code) => code == Some(0),
            ChildExitStatus::Timeout => false,
        }
    }
}

/// The error classes the external validator can report for one
/// instance/solution pair.
#[derive(Clone, Copy, PartialEq, Eq, Debug, Structural)]
pub enum CheckerError {
    Io,
    CreateInstanceDir,
    InstanceInput,
    SolutionInput,
    ForestConstruction,
    SolutionTreeMatching { instance_line: usize, solution_lineno: usize },
    EmptySolution,
}

/// Maps a validator error to the result tag recorded for the job.
pub fn map_checker_error_to_job_result(e: CheckerError) -> (r: JobResult)
    ensures
        r == map_checker_error_spec(e),
{
    match e {
        CheckerError::Io => JobResult::SystemError,
        CheckerError::CreateInstanceDir => JobResult::SystemError,
        CheckerError::InstanceInput => JobResult::InvalidInstance,
        CheckerError::SolutionInput => JobResult::SyntaxError,
        CheckerError::ForestConstruction => JobResult::InvalidInstance,
        CheckerError::SolutionTreeMatching { .. } => JobResult::Infeasible,
        CheckerError::EmptySolution => JobResult::EmptySolution,
    }
}

/// What [`map_checker_error_to_job_result`] returns for each error class.
pub open spec fn map_checker_error_spec(e: CheckerError) -> JobResult {
    match e {
        CheckerError::Io => JobResult::SystemError,
        CheckerError::CreateInstanceDir => JobResult::SystemError,
        CheckerError::InstanceInput => JobResult::InvalidInstance,
        CheckerError::SolutionInput => JobResult::SyntaxError,
        CheckerError::ForestConstruction => JobResult::InvalidInstance,
        CheckerError::SolutionTreeMatching { .. } => JobResult::Infeasible,
        CheckerError::EmptySolution => JobResult::EmptySolution,
    }
}

/// Classifies what the validator reported: a passing solution yields `Valid` with the
/// number of solution trees, a failed one is mapped by error class.
pub fn classify_check(result: Result<usize, CheckerError>) -> (r: JobResult)
    ensures
        match result {
            Ok(size) => r == (JobResult::Valid { size }),
            Err(e) => r == map_checker_error_spec(e),
        },
{
    match result {
        Ok(size) => JobResult::Valid { size },
        Err(e) => map_checker_error_to_job_result(e),
    }
}

/// The tentative result read off the child's exit status: `None` means the
/// child succeeded and the solution must still be checked. A child that was
/// still gone over its budget counts as a timeout: killed outright, or dead
/// to the escalation's SIGTERM within the grace period. Only a child that
/// failed on its own - a nonzero exit code, or a signal before any was
/// sent - is a solver error.
pub fn exit_tentative_result(status: ChildExitStatus) -> (r: Option<JobResult>)
    ensures
        status.is_success_spec() <==> r is None,
        status is Timeout ==> r == Some(JobResult::Timeout),
        status == ChildExitStatus::WithinGrace(None::<i32>) ==> r == Some(JobResult::Timeout),
        !status.is_success_spec() && !(status is Timeout) && status != ChildExitStatus::WithinGrace(
            None::<i32>,
        ) ==> r == Some(JobResult::SolverError),
{
    if status.is_success() {
        None
    } else {
        match status {
            ChildExitStatus::Timeout | ChildExitStatus::WithinGrace(Option::None) => Some(
                JobResult::Timeout,
            ),
            ChildExitStatus::BeforeTimeout(_) | ChildExitStatus::WithinGrace(_) => Some(
                JobResult::SolverError,
            ),
        }
    }
}

} // verus!

//! The solver executor model: the configuration of one child process, the
//! informational header it writes, and the timeout escalation
//! soft-timeout -> SIGTERM -> grace -> SIGKILL.
//!
//! The waits and signals themselves are the caller's I/O; what is verified
//! is every decision between them, and that the escalation is bounded.

use crate::jobs::ChildExitStatus;
use vstd::prelude::*;
use vstd::string::*;

verus! {

/// File name of the child's captured standard output inside its working
/// directory.
pub fn path_stdout() -> (r: &'static str)
    ensures
        r@ == "stdout"@,
{
    "stdout"
}

/// File name of the child's captured standard error inside its working
/// directory.
pub fn path_stderr() -> (r: &'static str)
    ensures
        r@ == "stderr"@,
{
    "stderr"
}

/// Configuration of one solver child process. Durations are in
/// milliseconds.
#[derive(Debug)]
pub struct SolverExecutor {
    pub instance_path: String,
    pub working_dir: String,
    pub solver_path: String,
    pub args: Vec<String>,
    pub env: Vec<(String, String)>,
    pub timeout_millis: u64,
    pub grace_millis: u64,
    pub runtime_millis: Option<u64>,
}

impl SolverExecutor {
    pub fn new(
        instance_path: String,
        working_dir: String,
        solver_path: String,
        args: Vec<String>,
        env: Vec<(String, String)>,
        timeout_millis: u64,
        grace_millis: u64,
    ) -> (r: SolverExecutor)
        ensures
            r.instance_path@ == instance_path@,
            r.working_dir@ == working_dir@,
            r.solver_path@ == solver_path@,
            r.args@ == args@,
            r.env@ == env@,
            r.timeout_millis == timeout_millis,
            r.grace_millis == grace_millis,
            r.runtime_millis is None,
    {
        SolverExecutor {
            instance_path,
            working_dir,
            solver_path,
            args,
            env,
            timeout_millis,
            grace_millis,
            runtime_millis: None,
        }
    }

    /// Records the measured wall time of the finished run.
    pub fn record_runtime(&mut self, elapsed_millis: u64)
        ensures
            *final(self) == (SolverExecutor { runtime_millis: Some(elapsed_millis), ..*old(self) }),
    {
        self.runtime_millis = Some(elapsed_millis);
    }
}

/// What one bounded wait on the child observed: the child ended - with its
/// own exit code, or to a signal (`None`) - or the deadline passed first.
#[derive(Clone, Copy, PartialEq, Eq, Debug, Structural)]
pub enum WaitOutcome {
    Exited(Option<i32>),
    DeadlinePassed,
}

/// What the executor does after the two bounded waits: the final exit
/// status, and whether SIGKILL must be sent.
pub open spec fn escalation_spec(first: WaitOutcome, grace_millis: u64, second: WaitOutcome) -> (
    ChildExitStatus,
    bool,
) {
    match first {
        WaitOutcome::Exited(code) => (ChildExitStatus::BeforeTimeout(code), false),
        WaitOutcome::DeadlinePassed => {
            if grace_millis > 0 {
                match second {
                    WaitOutcome::Exited(code) => (ChildExitStatus::WithinGrace(code), false),
                    WaitOutcome::DeadlinePassed => (ChildExitStatus::Timeout, true),
                }
            } else {
                (ChildExitStatus::Timeout, true)
            }
        },
    }
}

/// Decides the exit status of one run from what the two deadline-bounded
/// waits observed: an exit before the soft timeout is `BeforeTimeout`, one
/// after SIGTERM but within the grace period is `WithinGrace`, and a child
/// that survives both windows is `Timeout` and must be SIGKILLed. The
/// `second` outcome only matters when the first deadline passed and a grace
/// period was granted.
pub fn escalation_result(first: WaitOutcome, grace_millis: u64, second: WaitOutcome) -> (r: (
    ChildExitStatus,
    bool,
))
    ensures
        r == escalation_spec(first, grace_millis, second),
        r.0 is Timeout <==> r.1,
{
    match first {
        WaitOutcome::Exited(code) => (ChildExitStatus::BeforeTimeout(code), false),
        WaitOutcome::DeadlinePassed => {
            if grace_millis > 0 {
                match second {
                    WaitOutcome::Exited(code) => (ChildExitStatus::WithinGrace(code), false),
                    WaitOutcome::DeadlinePassed => (ChildExitStatus::Timeout, true),
                }
            } else {
                (ChildExitStatus::Timeout, true)
            }
        },
    }
}

/// The escalation is bounded: the two waits last at most the soft timeout
/// and the grace period, so the child is done, one way or the other, no
/// later than `timeout + grace` after spawn; and when it exited in neither
/// window, SIGKILL is sent.
pub proof fn lemma_bounded_runtime(
    timeout_millis: u64,
    grace_millis: u64,
    wait1_millis: u64,
    wait2_millis: u64,
    first: WaitOutcome,
    second: WaitOutcome,
)
    requires
        wait1_millis <= timeout_millis,
        wait2_millis <= grace_millis,
    ensures
        wait1_millis + wait2_millis <= timeout_millis + grace_millis,
        !(escalation_spec(first, grace_millis, second).0 matches ChildExitStatus::BeforeTimeout(_))
            && !(escalation_spec(first, grace_millis, second).0
            matches ChildExitStatus::WithinGrace(_)) ==> escalation_spec(
            first,
            grace_millis,
            second,
        ).1,
{
}

/// The components joined with one space between neighbours.
pub open spec fn join_space_spec(parts: Seq<Seq<char>>) -> Seq<char>
    decreases parts.len(),
{
    if parts.len() == 0 {
        Seq::<char>::empty()
    } else if parts.len() == 1 {
        parts[0]
    } else {
        join_space_spec(parts.drop_last()) + seq![' '] + parts.last()
    }
}

/// Joins strings with single spaces.
pub fn join_space(parts: &Vec<String>) -> (r: String)
    ensures
        r@ == join_space_spec(parts.deep_view()),
{
    let mut r = String::new();
    let n = parts.len();
    let mut i: usize = 0;
    proof {
        reveal_strlit(" ");
    }
    #[verifier::loop_isolation(false)]
    while i < n
        invariant
            i <= n,
            r@ == join_space_spec(parts.deep_view().take(i as int)),
        decreases n - i,
    {
        proof {
            assert(parts.deep_view().take(i + 1).drop_last() =~= parts.deep_view().take(i as int));
            assert(parts.deep_view().take(i + 1).last() == parts.deep_view()[i as int]);
        }
        if i > 0 {
            r.append(" ");
        }
        r.append(parts[i].as_str());
        proof {
            if i == 0 {
                assert(r@ =~= join_space_spec(parts.deep_view().take(1)));
            }
        }
        i += 1;
    }
    proof {
        assert(parts.deep_view().take(n as int) =~= parts.deep_view());
    }
    r
}

/// The informational header the executor writes to the child's stdout file
/// before the child inherits it: the command line, then the instance path.
pub fn stdout_header_lines(solver: &str, args: &Vec<String>, instance: &str) -> (r: Vec<String>)
    ensures
        r.deep_view().len() == 2,
        r.deep_view()[0] == "# cmd:  "@ + solver@ + seq![' '] + join_space_spec(args.deep_view()),
        r.deep_view()[1] == "# instance: "@ + instance@,
{
    proof {
        reveal_strlit("# cmd:  ");
        reveal_strlit("# instance: ");
        reveal_strlit(" ");
    }
    let mut cmd = String::new();
    cmd.append("# cmd:  ");
    cmd.append(solver);
    cmd.append(" ");
    let joined = join_space(args);
    cmd.append(joined.as_str());
    let mut inst = String::new();
    inst.append("# instance: ");
    inst.append(instance);
    let mut r: Vec<String> = Vec::new();
    r.push(cmd);
    r.push(inst);
    proof {
        assert(r.deep_view()[0] =~= "# cmd:  "@ + solver@ + seq![' '] + join_space_spec(
            args.deep_view(),
        ));
        assert(r.deep_view()[1] =~= "# instance: "@ + instance@);
    }
    r
}

} // verus!

use pace26stride::executor::{
    escalation_result, join_space, stdout_header_lines, SolverExecutor, WaitOutcome,
};
use pace26stride::jobs::{
    classify_check, exit_tentative_result, map_checker_error_to_job_result, CheckerError,
    ChildExitStatus, JobProgress, JobResult,
};
use pace26stride::processor::JobProcessor;

fn processor_for(path: &str) -> JobProcessor {
    JobProcessor::new(
        String::from("/run/work"),
        String::from(path),
        String::from("./solver"),
        2000,
        1000,
        vec![],
        false,
        None,
        true,
    )
}

#[test]
fn valid_run_classifies_and_scores() {
    // solver exits 0 within the timeout; the checker accepts a solution of
    // size 2
    let status = escalation_result(
        WaitOutcome::Exited(Some(0)),
        1000,
        WaitOutcome::DeadlinePassed,
    );
    assert_eq!(status.0, ChildExitStatus::BeforeTimeout(Some(0)));
    assert!(!status.1);
    assert!(status.0.is_success());
    assert_eq!(exit_tentative_result(status.0), None);
    let result = classify_check(Ok(2));
    assert_eq!(result, JobResult::Valid { size: 2 });
    assert_eq!(result.tag_str(), "Valid");
}

#[test]
fn idle_timeout_respects_sigterm() {
    // the child outlives the soft timeout and dies to the SIGTERM during
    // the grace period: the job is a timeout, and no SIGKILL is needed
    let status = escalation_result(WaitOutcome::DeadlinePassed, 1000, WaitOutcome::Exited(None));
    assert_eq!(status.0, ChildExitStatus::WithinGrace(None));
    assert!(!status.1);
    assert_eq!(exit_tentative_result(status.0), Some(JobResult::Timeout));
}

#[test]
fn clean_exit_within_grace_still_checks() {
    // a child that manages a clean exit of its own inside the grace period
    // still has its solution checked
    let status = escalation_result(
        WaitOutcome::DeadlinePassed,
        1000,
        WaitOutcome::Exited(Some(0)),
    );
    assert_eq!(status.0, ChildExitStatus::WithinGrace(Some(0)));
    assert_eq!(exit_tentative_result(status.0), None);
}

#[test]
fn stubborn_timeout_gets_sigkill() {
    // the child ignores SIGTERM and survives the grace period: the verdict
    // is Timeout and SIGKILL goes out
    let status = escalation_result(
        WaitOutcome::DeadlinePassed,
        1000,
        WaitOutcome::DeadlinePassed,
    );
    assert_eq!(status.0, ChildExitStatus::Timeout);
    assert!(status.1);
    assert_eq!(exit_tentative_result(status.0), Some(JobResult::Timeout));
}

#[test]
fn zero_grace_kills_at_once() {
    let status = escalation_result(WaitOutcome::DeadlinePassed, 0, WaitOutcome::Exited(Some(0)));
    assert_eq!(status.0, ChildExitStatus::Timeout);
    assert!(status.1);
}

#[test]
fn solver_error_from_nonzero_exit() {
    let status = escalation_result(
        WaitOutcome::Exited(Some(1)),
        1000,
        WaitOutcome::DeadlinePassed,
    );
    assert_eq!(status.0, ChildExitStatus::BeforeTimeout(Some(1)));
    assert!(!status.0.is_success());
    assert_eq!(exit_tentative_result(status.0), Some(JobResult::SolverError));
}

#[test]
fn signal_death_before_timeout_is_solver_error() {
    // a child that dies to a signal of its own making, before any signal
    // was sent, failed on its own
    let status = escalation_result(WaitOutcome::Exited(None), 1000, WaitOutcome::DeadlinePassed);
    assert_eq!(status.0, ChildExitStatus::BeforeTimeout(None));
    assert_eq!(exit_tentative_result(status.0), Some(JobResult::SolverError));
}

#[test]
fn grace_exit_code_still_counts() {
    let status = ChildExitStatus::WithinGrace(Some(3));
    assert!(!status.is_success());
    assert_eq!(exit_tentative_result(status), Some(JobResult::SolverError));
}

#[test]
fn checker_errors_map_to_results() {
    assert_eq!(
        map_checker_error_to_job_result(CheckerError::Io),
        JobResult::SystemError
    );
    assert_eq!(
        map_checker_error_to_job_result(CheckerError::CreateInstanceDir),
        JobResult::SystemError
    );
    assert_eq!(
        map_checker_error_to_job_result(CheckerError::InstanceInput),
        JobResult::InvalidInstance
    );
    assert_eq!(
        map_checker_error_to_job_result(CheckerError::SolutionInput),
        JobResult::SyntaxError
    );
    assert_eq!(
        map_checker_error_to_job_result(CheckerError::ForestConstruction),
        JobResult::InvalidInstance
    );
    assert_eq!(
        map_checker_error_to_job_result(CheckerError::SolutionTreeMatching {
            instance_line: 1,
            solution_lineno: 2
        }),
        JobResult::Infeasible
    );
    assert_eq!(
        map_checker_error_to_job_result(CheckerError::EmptySolution),
        JobResult::EmptySolution
    );
}

#[test]
fn progress_moves_forward_to_finished() {
    let mut p = processor_for("/data/x.gr");
    let mut observed = vec![p.progress()];
    p.start_running();
    observed.push(p.progress());
    p.record_runtime(0);
    assert_eq!(p.runtime(), Some(1));
    p.start_checking();
    observed.push(p.progress());
    p.finish();
    observed.push(p.progress());

    assert_eq!(
        observed,
        vec![
            JobProgress::Starting,
            JobProgress::Running,
            JobProgress::Checking,
            JobProgress::Finished
        ]
    );
    // non-decreasing, ending in Finished
    for w in observed.windows(2) {
        assert!(w[0] == w[1] || ranks(w[0]) < ranks(w[1]));
    }
    assert_eq!(*observed.last().unwrap(), JobProgress::Finished);
}

fn ranks(p: JobProgress) -> u32 {
    match p {
        JobProgress::Starting => 0,
        JobProgress::Running => 1,
        JobProgress::Checking => 2,
        JobProgress::Finished => 3,
    }
}

#[test]
fn env_vars_render_seconds() {
    let p = JobProcessor::new(
        String::from("/run/work"),
        String::from("/data/x.gr"),
        String::from("./solver"),
        2500,
        1000,
        vec![],
        false,
        None,
        true,
    );
    let envs = p.env_vars();
    assert_eq!(envs.len(), 3);
    assert_eq!(envs[0].0, "STRIDE_INSTANCE_PATH");
    assert_eq!(envs[0].1, "/data/x.gr");
    assert_eq!(envs[1].0, "STRIDE_TIMEOUT");
    assert_eq!(envs[1].1, "2.5");
    assert_eq!(envs[2].0, "STRIDE_GRACE");
    assert_eq!(envs[2].1, "1");
}

#[test]
fn env_vars_suppressed() {
    let p = JobProcessor::new(
        String::from("/run/work"),
        String::from("/data/x.gr"),
        String::from("./solver"),
        2000,
        1000,
        vec![],
        false,
        None,
        false,
    );
    assert!(p.env_vars().is_empty());
}

#[test]
fn profiler_plan_prefixes_arguments() {
    let p = JobProcessor::new(
        String::from("/run/work"),
        String::from("/data/x.gr"),
        String::from("./solver"),
        2000,
        1000,
        vec![String::from("-v"), String::from("--fast")],
        true,
        None,
        true,
    );
    let (bin, args) = p.executor_plan("/proc/self/exe");
    assert_eq!(bin, "/proc/self/exe");
    assert_eq!(args, vec!["p", "./solver", "--", "-v", "--fast"]);

    let plain = JobProcessor::new(
        String::from("/run/work"),
        String::from("/data/x.gr"),
        String::from("./solver"),
        2000,
        1000,
        vec![String::from("-v")],
        false,
        None,
        true,
    );
    let (bin2, args2) = plain.executor_plan("/proc/self/exe");
    assert_eq!(bin2, "./solver");
    assert_eq!(args2, vec!["-v"]);
}

#[test]
fn executor_header_lines() {
    let args = vec![String::from("-a"), String::from("-b")];
    let lines = stdout_header_lines("./solver", &args, "/data/x.gr");
    assert_eq!(lines[0], "# cmd:  ./solver -a -b");
    assert_eq!(lines[1], "# instance: /data/x.gr");
    assert_eq!(join_space(&args), "-a -b");

    let ex = SolverExecutor::new(
        String::from("/data/x.gr"),
        String::from("/run/work"),
        String::from("./solver"),
        args,
        vec![],
        2000,
        1000,
    );
    assert_eq!(ex.timeout_millis, 2000);
    assert!(ex.runtime_millis.is_none());
}

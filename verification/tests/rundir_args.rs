use pace26stride::arguments::{parse_duration, parse_u64, solver_path_is_explicit};
use pace26stride::display::{clamp_elapsed, fit_instance_name, progress_message, show_job_bar};
use pace26stride::jobs::JobProgress;
use pace26stride::profile::{build_usage_report, secs_micros_string, ChildUsage};
use pace26stride::rundir::{
    run_dir_name, run_dir_name_long, should_replace_latest, RunDirectory,
};
use pace26stride::strutil::{secs_string, u64_to_dec};

#[test]
fn test_instance_dir_creation() {
    let mut log_dir = RunDirectory::new(String::from("stride-logs/run_250101_000000"));
    let instance_name = "instance1";

    // first job
    let dir1 = log_dir.create_instance_dir(instance_name).unwrap();

    // second job with same instance name
    let dir2 = log_dir.create_instance_dir(instance_name).unwrap();

    // make sure the two directories are different
    assert!(dir1 != dir2);
    assert_eq!(dir1, "stride-logs/run_250101_000000/instance1");
    assert_eq!(dir2, "stride-logs/run_250101_000000/instance1_2");

    // a third collision takes the next suffix
    let dir3 = log_dir.create_instance_dir(instance_name).unwrap();
    assert_eq!(dir3, "stride-logs/run_250101_000000/instance1_3");
}

#[test]
fn instance_dir_for_path_uses_stem() {
    let mut log_dir = RunDirectory::new(String::from("root"));
    let dir = log_dir.create_instance_dir_for_path("/data/cases/alpha.gr").unwrap();
    assert_eq!(dir, "root/alpha");
    let err = log_dir.create_instance_dir("");
    assert!(matches!(
        err,
        Err(pace26stride::rundir::CreateInstanceDirError::EmptyInstanceName)
    ));
    // a path whose last component names no file yields no directory
    let err = log_dir.create_instance_dir_for_path("/data/cases/..");
    assert!(matches!(
        err,
        Err(pace26stride::rundir::CreateInstanceDirError::EmptyInstanceName)
    ));
}

#[test]
fn latest_link_moves_forward_only() {
    assert!(should_replace_latest("run_250101_000000", "run_250102_000000"));
    assert!(!should_replace_latest("run_250102_000000", "run_250101_000000"));
    assert!(!should_replace_latest("run_250101_000000", "run_250101_000000"));
    // the microsecond form sorts after the short form of the same second
    assert!(should_replace_latest("run_250101_000000", "run_250101_000000.000001"));
}

#[test]
fn run_dir_names() {
    assert_eq!(run_dir_name(25, 12, 3, 4, 5, 6), "run_251203_040506");
    assert_eq!(
        run_dir_name_long(25, 12, 3, 4, 5, 6, 42),
        "run_251203_040506.000042"
    );
}

#[test]
fn duration_parsing() {
    assert_eq!(parse_duration("30"), Ok(30));
    assert_eq!(parse_duration("0"), Ok(0));
    assert_eq!(parse_duration(""), Err(String::from("Invalid duration")));
    assert_eq!(parse_duration("3x"), Err(String::from("Invalid duration")));
    assert_eq!(parse_u64("18446744073709551615"), Some(u64::MAX));
    assert_eq!(parse_u64("18446744073709551616"), None);
}

#[test]
fn solver_path_rule() {
    assert!(solver_path_is_explicit("./solver"));
    assert!(solver_path_is_explicit("/usr/bin/solver"));
    assert!(solver_path_is_explicit("bin/solver"));
    assert!(!solver_path_is_explicit("solver"));
}

#[test]
fn number_rendering() {
    assert_eq!(u64_to_dec(0), "0");
    assert_eq!(u64_to_dec(1234), "1234");
    assert_eq!(secs_string(2500), "2.5");
    assert_eq!(secs_string(2050), "2.05");
    assert_eq!(secs_string(2005), "2.005");
    assert_eq!(secs_string(2000), "2");
    assert_eq!(secs_string(250), "0.25");
}

#[test]
fn usage_report_lines() {
    let usage = ChildUsage {
        utime_sec: 1,
        utime_usec: 250000,
        stime_sec: 0,
        stime_usec: 4999,
        maxrss_kib: 2048,
        minflt: 7,
        majflt: 0,
        nvcsw: 3,
        nivcsw: 1,
    };
    let report = build_usage_report(2500, &usage);
    assert_eq!(
        report,
        vec![
            "#s s_wtime 2.5",
            "#s s_utime 1.25",
            "#s s_stime 0.004999",
            "#s s_maxrss 2097152",
            "#s s_minflt 7",
            "#s s_majflt 0",
            "#s s_nvcsw 3",
            "#s s_nivcsw 1",
        ]
    );
    assert_eq!(secs_micros_string(2, 0), "2");
    assert_eq!(secs_micros_string(0, 500000), "0.5");
}

#[test]
fn job_bar_decisions() {
    assert_eq!(fit_instance_name("short"), "short               ");
    assert_eq!(
        fit_instance_name("a_very_long_instance_name_indeed"),
        "a_very_long_instance"
    );
    assert_eq!(clamp_elapsed(5000, 3000), 3000);
    assert_eq!(clamp_elapsed(100, 3000), 100);
    assert!(!show_job_bar(50));
    assert!(show_job_bar(100));
    assert_eq!(progress_message(JobProgress::Starting, 0, 2000), "starting");
    assert_eq!(progress_message(JobProgress::Running, 1000, 2000), "running");
    assert_eq!(progress_message(JobProgress::Running, 2500, 2000), "grace");
    assert_eq!(progress_message(JobProgress::Checking, 0, 2000), "checking");
    assert_eq!(progress_message(JobProgress::Finished, 0, 2000), "done");
}

#[test]
fn normalized_paths_feed_stems() {
    assert_eq!(
        pace26stride::paths::stem_of("archive.tar.gz"),
        "archive.tar"
    );
    assert_eq!(pace26stride::paths::stem_of(".bashrc"), ".bashrc");
    assert_eq!(pace26stride::paths::stem_of("plain"), "plain");
    assert!(pace26stride::paths::has_extension("batch.lst", "lst"));
    assert!(!pace26stride::paths::has_extension("batch.lst.bak", "lst"));
    assert!(pace26stride::paths::has_glob_chars("data/*.gr"));
    assert!(!pace26stride::paths::has_glob_chars("data/a.gr"));
}

#[test]
fn prune_keeps_newest_runs() {
    let names = vec![
        String::from("run_250103_000000"),
        String::from("run_250101_000000"),
        String::from("run_250104_000000"),
        String::from("run_250102_000000"),
    ];
    let pruned = pace26stride::rundir::select_dirs_to_prune(&names, 2);
    assert_eq!(pruned, vec!["run_250101_000000", "run_250102_000000"]);
    let none = pace26stride::rundir::select_dirs_to_prune(&names, 4);
    assert!(none.is_empty());
}

#[test]
fn status_counter_entries() {
    assert_eq!(pace26stride::display::count_entry("Valid", 12), "Valid:     12");
    assert_eq!(
        pace26stride::display::count_entry("Empty   ", 0),
        "Empty:         0"
    );
    assert_eq!(
        pace26stride::display::count_entry("Best ", 1234567),
        "Best:  1234567"
    );
}

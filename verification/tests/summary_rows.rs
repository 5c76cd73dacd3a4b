use pace26stride::digest::{idigest_from_hex, idigest_to_hex};
use pace26stride::instances::Instances;
use pace26stride::jobs::{JobResult, SolutionInfos};
use pace26stride::protocol::{extract_idigest_line, parse_stride_line};
use pace26stride::summary::{
    build_summary_row, escape_json, harvest_stride_infos, json_string, render_row, SummaryWriter,
};

fn instance_named(path: &str) -> pace26stride::instances::Instance {
    let mut set = Instances::default();
    assert!(set.insert_instace_by_path(String::from(path)));
    let item = &set.iter()[0];
    pace26stride::instances::Instance {
        name: item.name().to_string(),
        path: item.path().to_string(),
        idigest: None,
    }
}

#[test]
fn valid_row_carries_score_and_info() {
    // the Valid scenario: exit 0, solution of size 2, one info line
    let instance = instance_named("/data/X.gr");
    let stdout_lines = vec![
        String::from("# cmd:  ./solver"),
        String::from("#s test_info \"there\""),
        String::from("(1,2);"),
    ];
    let extra = harvest_stride_infos(&stdout_lines);
    assert_eq!(extra, vec![(String::from("test_info"), String::from("\"there\""))]);

    let infos = SolutionInfos { trees: vec![String::from("(1,2);")], extra };
    let mut writer = SummaryWriter::new();
    let line = writer.add_entry(&instance, JobResult::Valid { size: 2 }, Some(&infos), None);
    assert_eq!(
        line,
        "{\"s_name\":\"X\",\"s_path\":\"/data/X.gr\",\"s_result\":\"Valid\",\"s_score\":2,\"test_info\":\"there\"}"
    );
}

#[test]
fn timeout_row_has_no_score() {
    let instance = instance_named("/data/X.gr");
    let mut writer = SummaryWriter::new();
    let line = writer.add_entry(&instance, JobResult::Timeout, None, None);
    assert_eq!(line, "{\"s_name\":\"X\",\"s_path\":\"/data/X.gr\",\"s_result\":\"Timeout\"}");
}

#[test]
fn solver_error_row() {
    let instance = instance_named("/data/X.gr");
    let mut writer = SummaryWriter::new();
    let line = writer.add_entry(&instance, JobResult::SolverError, None, None);
    assert!(line.contains("\"s_result\":\"SolverError\""));
}

#[test]
fn infeasible_row() {
    let instance = instance_named("/data/X.gr");
    let mut writer = SummaryWriter::new();
    let line = writer.add_entry(&instance, JobResult::Infeasible, None, None);
    assert!(line.contains("\"s_result\":\"Infeasible\""));
}

#[test]
fn empty_solution_row() {
    let instance = instance_named("/data/X.gr");
    let mut writer = SummaryWriter::new();
    let line = writer.add_entry(&instance, JobResult::EmptySolution, None, None);
    assert!(line.contains("\"s_result\":\"EmptySolution\""));
}

#[test]
fn one_row_per_entry() {
    let instance = instance_named("/data/X.gr");
    let mut writer = SummaryWriter::new();
    assert_eq!(writer.rows.len(), 0);
    writer.add_entry(&instance, JobResult::Valid { size: 1 }, None, None);
    writer.add_entry(&instance, JobResult::Timeout, None, None);
    writer.add_entry(&instance, JobResult::SystemError, None, None);
    assert_eq!(writer.rows.len(), 3);
}

#[test]
fn digest_and_prev_best_fields() {
    let mut instance = instance_named("/data/X.gr");
    instance.idigest = idigest_from_hex("015e2a313c3470afe151d1ac2a20b0f3");
    let mut writer = SummaryWriter::new();
    let line = writer.add_entry(&instance, JobResult::Valid { size: 4 }, None, Some(17));
    assert!(line.contains("\"s_idigest\":\"015e2a313c3470afe151d1ac2a20b0f3\""));
    assert!(line.contains("\"s_prev_best\":\"17\""));
    assert!(line.contains("\"s_score\":4"));
}

#[test]
fn info_merge_last_wins() {
    let instance = instance_named("/data/X.gr");
    let infos = SolutionInfos {
        trees: vec![],
        extra: vec![
            (String::from("k"), String::from("1")),
            (String::from("s_result"), String::from("\"spoofed\"")),
            (String::from("k"), String::from("2")),
        ],
    };
    let row = build_summary_row(&instance, JobResult::Timeout, Some(&infos), None);
    let line = render_row(&row);
    // the duplicate key keeps its place and the latest value; the spoofed
    // field overrides in place
    assert_eq!(
        line,
        "{\"s_name\":\"X\",\"s_path\":\"/data/X.gr\",\"s_result\":\"spoofed\",\"k\":2}"
    );
}

#[test]
fn json_escaping() {
    assert_eq!(escape_json("a\"b\\c\nd"), "a\\\"b\\\\c\\nd");
    assert_eq!(json_string("plain"), "\"plain\"");
    assert_eq!(json_string("tab\there"), "\"tab\\there\"");
    // every other control character gets a \u00xy escape, as the canonical
    // JSON rendering does
    assert_eq!(
        escape_json("a\u{1}b\u{8}c\u{c}d\u{1f}e"),
        "a\\u0001b\\bc\\fd\\u001fe"
    );
}

#[test]
fn harvest_normalizes_json() {
    // the value is reserialized canonically, so whitespace vanishes; an
    // invalid value drops its line
    let lines = vec![
        String::from("#s data { \"a\" : 1 }"),
        String::from("#s broken not json at all"),
        String::from("no protocol line"),
    ];
    let extra = harvest_stride_infos(&lines);
    assert_eq!(extra, vec![(String::from("data"), String::from("{\"a\":1}"))]);
}

#[test]
fn stride_line_parsing() {
    assert_eq!(
        parse_stride_line("#s key {\"v\":1}"),
        Some((String::from("key"), String::from("{\"v\":1}")))
    );
    assert_eq!(parse_stride_line("# not stride"), None);
    assert_eq!(parse_stride_line("#s nokey"), None);
}

#[test]
fn idigest_extraction_and_round_trip() {
    let d = extract_idigest_line("#s idigest \"000a5d234052384b8fd9ea7bac0d3c17\"").unwrap();
    assert_eq!(idigest_to_hex(&d), "000a5d234052384b8fd9ea7bac0d3c17");
    assert_eq!(extract_idigest_line("#s idigest \"too-short\""), None);
    assert_eq!(extract_idigest_line("#s other \"000a5d234052384b8fd9ea7bac0d3c17\""), None);

    let parsed = idigest_from_hex("000102030405060708090a0b0C0D0e0f").unwrap();
    assert_eq!(idigest_to_hex(&parsed), "000102030405060708090a0b0c0d0e0f");
    assert!(idigest_from_hex("xyz").is_none());
}

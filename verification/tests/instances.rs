use pace26stride::instances::{Instances, ListWork, PathDisposition};
use pace26stride::paths::normalize_path;

#[test]
fn test_insert_by_path_new_instance() {
    let mut instances = Instances::default();
    let path = String::from("/home/user/data/file.txt");

    assert!(instances.insert_instace_by_path(path));
    assert_eq!(instances.len(), 1);
}

#[test]
fn test_insert_by_path_duplicate() {
    let mut instances = Instances::default();
    let path = String::from("/home/user/data/file.txt");

    assert!(instances.insert_instace_by_path(path.clone()));
    assert!(!instances.insert_instace_by_path(path));
    assert_eq!(instances.len(), 1);
}

#[test]
fn test_insert_by_path_unique_names() {
    let mut instances = Instances::default();
    let path1 = String::from("/home/user/data/file.txt");
    let path2 = String::from("/home/user/other/file.txt");

    assert!(instances.insert_instace_by_path(path1));
    assert!(instances.insert_instace_by_path(path2));
    assert_eq!(instances.len(), 2);

    let names: Vec<String> = instances.iter().iter().map(|i| i.name().to_string()).collect();
    assert!(names.iter().all(|n| !n.is_empty()));
    assert_eq!(names.len(), 2, "{names:?}");
    assert_ne!(names[0], names[1]);
}

#[test]
fn test_insert_from_list_files_only() {
    let list = String::from("#comment\nfoo/bar.nw\nbar/bar.nw\n/fizz/buzz.nw\n#comment\n");
    let lines: Vec<String> = list.lines().map(String::from).collect();
    let mut instances = Instances::default();
    let work = instances.insert_from_list(&lines, "/tmp");

    assert_eq!(instances.len(), 3);
    assert!(work.is_empty());
}

#[test]
fn insert_from_list_twice_is_idempotent() {
    let lines: Vec<String> = vec![
        String::from("a/one.gr"),
        String::from("  b/two.gr  "),
        String::from("/abs/three.gr"),
        String::from(""),
        String::from("# comment"),
    ];
    let mut instances = Instances::default();
    instances.insert_from_list(&lines, "/data");
    let after_first = instances.len();
    let paths_first: Vec<String> =
        instances.iter().iter().map(|i| i.path().to_string()).collect();

    instances.insert_from_list(&lines, "/data");
    let paths_second: Vec<String> =
        instances.iter().iter().map(|i| i.path().to_string()).collect();

    assert_eq!(after_first, 3);
    assert_eq!(instances.len(), after_first);
    assert_eq!(paths_first, paths_second);
}

#[test]
fn insert_from_list_resolves_and_collects_work() {
    let lines: Vec<String> = vec![
        String::from("plain.gr"),
        String::from("patterns/*.gr"),
        String::from("more.lst"),
        String::from("../../escape.gr"),
    ];
    let mut instances = Instances::default();
    let work = instances.insert_from_list(&lines, "/data");

    // only the plain instance line is inserted directly
    assert_eq!(instances.len(), 1);
    assert_eq!(instances.iter()[0].path(), "/data/plain.gr");

    // the glob and the nested list come back as work; the line escaping the
    // root is dropped
    assert_eq!(work.len(), 2);
    match &work[0] {
        ListWork::Glob(p) => assert_eq!(p, "/data/patterns/*.gr"),
        other => panic!("expected a glob, got {other:?}"),
    }
    match &work[1] {
        ListWork::List(p) => assert_eq!(p, "/data/more.lst"),
        other => panic!("expected a list, got {other:?}"),
    }
}

#[test]
fn short_name_collision_walks_parents() {
    let mut instances = Instances::default();
    assert!(instances.insert_instace_by_path(String::from("/x/a/file.txt")));
    assert!(instances.insert_instace_by_path(String::from("/x/b/file.txt")));
    assert!(instances.insert_instace_by_path(String::from("/y/b/file.txt")));

    let names: Vec<String> = instances.iter().iter().map(|i| i.name().to_string()).collect();
    assert_eq!(names[0], "file");
    assert_eq!(names[1], "file_b");
    assert_eq!(names[2], "file_b_y");
}

#[test]
fn short_name_falls_back_to_counter() {
    let mut instances = Instances::default();
    assert!(instances.insert_instace_by_path(String::from("file.txt")));
    assert!(instances.insert_instace_by_path(String::from("other/file.txt")));
    // a third relative path with the same walk runs out of parents
    let mut more = Instances::default();
    assert!(more.insert_instace_by_path(String::from("file.txt")));
    let name = more.unique_name_from_path("file.txt");
    assert_eq!(name, "file-2");
}

#[test]
fn parse_and_insert_path_dispatch() {
    let mut instances = Instances::default();

    let err = instances.parse_and_insert_path(String::from("/data/somedir"), true);
    assert!(matches!(
        err,
        Err(pace26stride::instances::InstancesError::DirectoryFound(p)) if p == "/data/somedir"
    ));

    let lst = instances
        .parse_and_insert_path(String::from("/data/batch.lst"), false)
        .unwrap();
    assert_eq!(lst, PathDisposition::ListFile);
    assert_eq!(instances.len(), 0);

    let ins = instances
        .parse_and_insert_path(String::from("/data/one.gr"), false)
        .unwrap();
    assert_eq!(ins, PathDisposition::Inserted(true));
    assert_eq!(instances.len(), 1);

    let dup = instances
        .parse_and_insert_path(String::from("/data/one.gr"), false)
        .unwrap();
    assert_eq!(dup, PathDisposition::Inserted(false));
    assert_eq!(instances.len(), 1);
}

#[test]
fn normalize_path_handles_dots() {
    assert_eq!(normalize_path("/a/./b/../c"), Some(String::from("/a/c")));
    assert_eq!(normalize_path("a//b/"), Some(String::from("a/b")));
    assert_eq!(normalize_path("../up"), None);
    assert_eq!(normalize_path("/"), Some(String::from("/")));
}

#[test]
fn collect_instances_counts_digests() {
    let digest =
        pace26stride::digest::idigest_from_hex("000102030405060708090a0b0c0d0e0f").unwrap();
    let entries = vec![
        (String::from("/data/a.gr"), Some(digest)),
        (String::from("/data/b.gr"), None),
        (String::from("/data/a.gr"), None),
    ];
    let (instances, with_digest) = pace26stride::instances::collect_instances(entries);
    assert_eq!(instances.len(), 2);
    assert_eq!(with_digest, 1);
}

use theseus::pcl::{
    config_exists, find_instance_path, get_pcl_instance_path, get_pcl_instances,
    get_pclce_instance_path, get_pclce_instances, launch_folder_entries, parse_pcl_folders,
    pick_instance_path, read_pcl_registry,
};

fn dir_in(root: &tempfile::TempDir, name: &str) -> String {
    let d = tempfile::Builder::new().prefix(name).rand_bytes(0).tempdir_in(root.path()).unwrap();
    let p = d.path().to_string_lossy().to_string();
    std::mem::forget(d);
    p
}

#[test]
fn entries_are_split_and_trimmed() {
    let e = launch_folder_entries(" a > /x | |b>/y|noarrow|c>|>/z");
    assert_eq!(
        e,
        vec![
            ("a".to_string(), "/x".to_string()),
            ("b".to_string(), "/y".to_string()),
            ("c".to_string(), "".to_string()),
            ("".to_string(), "/z".to_string()),
        ]
    );
    assert!(launch_folder_entries("").is_empty());
    assert!(launch_folder_entries("|||").is_empty());
}

#[test]
fn entries_split_at_first_arrow() {
    let e = launch_folder_entries("n>a>b");
    assert_eq!(e, vec![("n".to_string(), "a>b".to_string())]);
}

#[test]
fn parse_keeps_directories_sorted_by_name() {
    let root = tempfile::tempdir().unwrap();
    let d1 = dir_in(&root, "one");
    let d2 = dir_in(&root, "two");
    let raw = format!("zeta>{d1}|alpha>{d2}|beta>{}/missing|Alpha>{d1}", root.path().display());
    let r = parse_pcl_folders(&raw);
    assert_eq!(
        r,
        vec![
            ("Alpha".to_string(), d1.clone()),
            ("alpha".to_string(), d2.clone()),
            ("zeta".to_string(), d1.clone()),
        ]
    );
}

#[test]
fn parse_sort_is_stable() {
    let root = tempfile::tempdir().unwrap();
    let d1 = dir_in(&root, "p1");
    let d2 = dir_in(&root, "p2");
    let raw = format!("same>{d2}|other>{d1}|same>{d1}");
    let r = parse_pcl_folders(&raw);
    assert_eq!(
        r,
        vec![
            ("other".to_string(), d1.clone()),
            ("same".to_string(), d2.clone()),
            ("same".to_string(), d1.clone()),
        ]
    );
}

#[test]
fn find_path_takes_first_existing_of_the_name() {
    let root = tempfile::tempdir().unwrap();
    let d1 = dir_in(&root, "q1");
    let d2 = dir_in(&root, "q2");
    let missing = format!("{}/missing", root.path().display());
    let raw = format!("pack>{missing}|other>{d1}| pack > {d2} |pack>{d1}");
    assert_eq!(find_instance_path(&raw, "pack"), Some(d2.clone()));
    assert_eq!(find_instance_path(&raw, "other"), Some(d1.clone()));
    assert_eq!(find_instance_path(&raw, "none"), None);
    assert_eq!(find_instance_path(&format!("x>{missing}"), "x"), None);
}

#[test]
fn lookup_agrees_with_listing() {
    let root = tempfile::tempdir().unwrap();
    let d1 = dir_in(&root, "r1");
    let d2 = dir_in(&root, "r2");
    let raw = format!("b>{d1}|a>{d2}|b>{d2}");
    let listing = parse_pcl_folders(&raw);
    for name in ["a", "b", "c"] {
        let first = listing.iter().find(|(n, _)| n == name).map(|(_, p)| p.clone());
        assert_eq!(find_instance_path(&raw, name), first);
    }
}

#[test]
fn pcl_without_registry() {
    assert_eq!(read_pcl_registry(), None);
    assert!(get_pcl_instances(&read_pcl_registry()).is_empty());
    assert_eq!(get_pcl_instance_path(&read_pcl_registry(), "anything"), None);
}

#[test]
fn pcl_from_registry_value() {
    let root = tempfile::tempdir().unwrap();
    let d1 = dir_in(&root, "p1");
    let d2 = dir_in(&root, "p2");
    let missing = format!("{d1}-missing");
    let raw = Some(format!(" z > {d2} |a>{missing}|a>{d1}"));
    assert_eq!(
        get_pcl_instances(&raw),
        vec![("a".to_string(), d1.clone()), ("z".to_string(), d2.clone())]
    );
    assert_eq!(get_pcl_instance_path(&raw, "a"), Some(d1.clone()));
    assert_eq!(get_pcl_instance_path(&raw, "z"), Some(d2.clone()));
    assert_eq!(get_pcl_instance_path(&raw, "q"), None);
}

#[test]
fn listing_checks_the_path_not_the_name() {
    let root = tempfile::tempdir().unwrap();
    let d1 = dir_in(&root, "n1");
    // the name is an existing directory, the path is not
    let raw = format!("{d1}>{d1}-missing|ok>{d1}");
    assert_eq!(parse_pcl_folders(&raw), vec![("ok".to_string(), d1.clone())]);
    assert_eq!(find_instance_path(&raw, &d1), None);
}

#[test]
fn pclce_from_launch_folders() {
    let root = tempfile::tempdir().unwrap();
    let d1 = dir_in(&root, "s1");
    let raw = Some(format!("b>{d1}|a>{d1}"));
    assert!(config_exists(&raw));
    assert!(!config_exists(&None));
    assert_eq!(
        get_pclce_instances(&raw),
        vec![("a".to_string(), d1.clone()), ("b".to_string(), d1.clone())]
    );
    assert!(get_pclce_instances(&None).is_empty());
    assert_eq!(get_pclce_instance_path(&raw, "b"), Some(d1.clone()));
    assert_eq!(get_pclce_instance_path(&None, "b"), None);
}

#[test]
fn pick_takes_first_existing_entry_of_the_name() {
    let e = vec![
        ("a".to_string(), "/1".to_string()),
        ("b".to_string(), "/2".to_string()),
        ("a".to_string(), "/3".to_string()),
        ("a".to_string(), "/4".to_string()),
    ];
    assert_eq!(pick_instance_path(&e, &vec![false, true, true, true], "a"), Some("/3".to_string()));
    assert_eq!(pick_instance_path(&e, &vec![true, true, true, true], "a"), Some("/1".to_string()));
    assert_eq!(pick_instance_path(&e, &vec![false, true, false, false], "a"), None);
    assert_eq!(pick_instance_path(&e, &vec![true, true, true, true], " a"), None);
    assert_eq!(pick_instance_path(&e, &vec![true, false, true, true], "b"), None);
    assert_eq!(pick_instance_path(&Vec::new(), &Vec::new(), "a"), None);
}

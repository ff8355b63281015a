use theseus::hmcl::{config_exists, find_config, get_instance_path, get_instances};

fn sub(root: &std::path::Path, name: &str) -> tempfile::TempDir {
    tempfile::Builder::new().prefix(name).rand_bytes(0).tempdir_in(root).unwrap()
}

#[test]
fn config_found_under_dot_hmcl() {
    let root = tempfile::tempdir().unwrap();
    let base_path = root.path().to_path_buf();
    let base = base_path.to_string_lossy().to_string();
    assert!(!config_exists(&base));
    assert!(find_config(&base).is_none());
    let dot = sub(root.path(), ".hmcl");
    let file = tempfile::Builder::new()
        .prefix("hmcl")
        .suffix(".json")
        .rand_bytes(0)
        .tempfile_in(dot.path())
        .unwrap();
    assert!(config_exists(&base));
    assert_eq!(
        find_config(&base),
        Some(base_path.join(".hmcl").join("hmcl.json").to_string_lossy().to_string())
    );
    drop(file);
}

#[test]
fn instances_with_existing_dirs_sorted_by_key() {
    let root = tempfile::tempdir().unwrap();
    let base = root.path().to_string_lossy().to_string();
    let _rel = sub(root.path(), "relgame");
    let abs_dir = tempfile::tempdir().unwrap();
    let abs = abs_dir.path().to_string_lossy().to_string();
    let configs = vec![
        ("zz".to_string(), "relgame".to_string()),
        ("Default".to_string(), abs.clone()),
        ("gone".to_string(), "missing".to_string()),
        ("aa".to_string(), abs.clone()),
    ];
    let r = get_instances(&base, &configs);
    assert_eq!(
        r,
        vec![
            ("Default".to_string(), abs.clone()),
            ("aa".to_string(), abs.clone()),
            ("zz".to_string(), "relgame".to_string()),
        ]
    );
    assert_eq!(get_instance_path(&r, "zz"), Some("relgame".to_string()));
    assert_eq!(get_instance_path(&r, "gone"), None);
    assert_eq!(get_instance_path(&r, "Default"), Some(abs.clone()));
}

#[test]
fn instance_path_is_first_of_key() {
    let list = vec![
        ("a".to_string(), "1".to_string()),
        ("b".to_string(), "2".to_string()),
        ("b".to_string(), "3".to_string()),
    ];
    assert_eq!(get_instance_path(&list, "b"), Some("2".to_string()));
    assert_eq!(get_instance_path(&list, "c"), None);
    assert_eq!(get_instance_path(&Vec::new(), "a"), None);
}

#[test]
fn no_configurations_no_instances() {
    let base = "/nonexistent-base".to_string();
    assert!(get_instances(&base, &Vec::new()).is_empty());
}

#[test]
fn config_needs_the_file_not_the_directory() {
    let root = tempfile::tempdir().unwrap();
    let base = root.path().to_string_lossy().to_string();
    let _dot = sub(root.path(), ".hmcl");
    // `.hmcl` alone is no configuration
    assert!(!config_exists(&base));
    assert_eq!(find_config(&base), None);
}

#[test]
fn absolute_game_dir_is_not_joined_to_the_base() {
    let root = tempfile::tempdir().unwrap();
    let base = root.path().to_string_lossy().to_string();
    let abs_dir = tempfile::tempdir().unwrap();
    let abs = abs_dir.path().to_string_lossy().to_string();
    // a directory of the same text under the base does not exist
    let configs = vec![("k".to_string(), abs.clone())];
    assert_eq!(get_instances(&base, &configs), vec![("k".to_string(), abs.clone())]);
}

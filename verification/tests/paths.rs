use theseus::hmcl::{config_path, resolved_game_dir};
use theseus::paths::{dir_exists, is_absolute_text, join_text, path_exists};

#[test]
fn join_appends_relative_parts() {
    let j = join_text("/base/dir", "game");
    assert_eq!(
        j,
        std::path::Path::new("/base/dir").join("game").to_string_lossy().to_string()
    );
    assert_ne!(j, "/base/dir");
    assert_ne!(j, "game");
}

#[test]
fn join_with_absolute_part_takes_the_part() {
    let d = tempfile::tempdir().unwrap();
    let abs = d.path().to_string_lossy().to_string();
    assert_eq!(join_text("base", &abs), abs);
}

#[test]
fn absolute_and_relative_texts() {
    let d = tempfile::tempdir().unwrap();
    let abs = d.path().to_string_lossy().to_string();
    assert!(is_absolute_text(&abs));
    assert!(!is_absolute_text("relative/dir"));
    assert!(!is_absolute_text(""));
}

#[test]
fn config_path_is_dot_hmcl_hmcl_json() {
    let dir = tempfile::tempdir().unwrap();
    let base = dir.path().to_path_buf();
    let b = base.to_string_lossy().to_string();
    assert_eq!(
        config_path(&b),
        base.join(".hmcl").join("hmcl.json").to_string_lossy().to_string()
    );
}

#[test]
fn game_dir_resolution() {
    let dir = tempfile::tempdir().unwrap();
    let base = dir.path().to_path_buf();
    let b = base.to_string_lossy().to_string();
    let abs_dir = tempfile::tempdir().unwrap();
    let abs = abs_dir.path().to_string_lossy().to_string();
    assert_eq!(resolved_game_dir(&b, &abs), abs);
    assert_eq!(
        resolved_game_dir(&b, "versions/x"),
        base.join("versions/x").to_string_lossy().to_string()
    );
}

#[test]
fn existence_checks() {
    let d = tempfile::tempdir().unwrap();
    let p = d.path().to_string_lossy().to_string();
    assert!(path_exists(&p));
    assert!(dir_exists(&p));
    let f = tempfile::NamedTempFile::new().unwrap();
    let fp = f.path().to_string_lossy().to_string();
    assert!(path_exists(&fp));
    assert!(!dir_exists(&fp));
    assert!(!path_exists(&format!("{p}/missing")));
}

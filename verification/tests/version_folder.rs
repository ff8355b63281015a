use theseus::version_folder::{choose_version_json, primary_json_name, JsonChoice};

fn names(v: &[&str]) -> Vec<String> {
    v.iter().map(|s| s.to_string()).collect()
}

fn sole(r: Option<JsonChoice>) -> Option<(usize, String)> {
    match r {
        Some(JsonChoice::Sole(i, s)) => Some((i, s)),
        _ => None,
    }
}

#[test]
fn primary_name_is_folder_dot_json() {
    assert_eq!(primary_json_name("1.20.1-forge"), "1.20.1-forge.json");
    assert_eq!(primary_json_name(""), ".json");
}

#[test]
fn existing_primary_wins() {
    let r = choose_version_json(true, &names(&["a.json", "b.json"]));
    assert!(matches!(r, Some(JsonChoice::ByName)));
}

#[test]
fn sole_json_entry_is_taken_under_its_stem() {
    let r = choose_version_json(false, &names(&["natives", "x.jar", "pack.json", "log.txt"]));
    assert_eq!(sole(r), Some((2, "pack".to_string())));
    let r = choose_version_json(false, &names(&["a.b.json"]));
    assert_eq!(sole(r), Some((0, "a.b".to_string())));
    let r = choose_version_json(false, &names(&["..json"]));
    assert_eq!(sole(r), Some((0, ".".to_string())));
}

#[test]
fn several_or_no_json_entries_give_none() {
    assert!(choose_version_json(false, &names(&["a.json", "b.json"])).is_none());
    assert!(choose_version_json(false, &names(&["a.txt", "json", ".json", "x.JSON"])).is_none());
    assert!(choose_version_json(false, &Vec::new()).is_none());
}

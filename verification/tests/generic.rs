use theseus::generic::{import_dependencies, import_title, loader_dependency, PackDependency};
use theseus::instance_json::InstanceInfo;

fn info(v: &str, l: Option<&str>, lv: Option<&str>) -> InstanceInfo {
    InstanceInfo {
        vanilla_name: v.to_string(),
        loader: l.map(|s| s.to_string()),
        loader_version: lv.map(|s| s.to_string()),
    }
}

#[test]
fn loader_names_map_to_dependencies() {
    assert_eq!(loader_dependency("forge"), Some(PackDependency::Forge));
    assert_eq!(loader_dependency("neoforge"), Some(PackDependency::NeoForge));
    assert_eq!(loader_dependency("fabric"), Some(PackDependency::FabricLoader));
    assert_eq!(loader_dependency("quilt"), Some(PackDependency::QuiltLoader));
    assert_eq!(loader_dependency("Forge"), None);
    assert_eq!(loader_dependency("liteloader"), None);
}

#[test]
fn dependencies_with_loader() {
    let d = import_dependencies(&info("1.20.1", Some("fabric"), Some("0.15.11")));
    assert_eq!(
        d,
        vec![
            (PackDependency::Minecraft, "1.20.1".to_string()),
            (PackDependency::FabricLoader, "0.15.11".to_string()),
        ]
    );
}

#[test]
fn dependencies_without_loader_version() {
    let d = import_dependencies(&info("1.20.1", Some("forge"), None));
    assert_eq!(d, vec![(PackDependency::Minecraft, "1.20.1".to_string())]);
    let d = import_dependencies(&info("1.8.9", None, None));
    assert_eq!(d, vec![(PackDependency::Minecraft, "1.8.9".to_string())]);
    let d = import_dependencies(&info("1.8.9", Some("other"), Some("1")));
    assert_eq!(d, vec![(PackDependency::Minecraft, "1.8.9".to_string())]);
}

#[test]
fn title_defaults_to_imported() {
    assert_eq!(import_title(Some("My Pack".to_string())), "My Pack");
    assert_eq!(import_title(None), "imported");
}

//! The decisions of the import of a plain instance folder: the title of the
//! new instance and the dependencies that its detected version and loader
//! call for.

use vstd::prelude::*;
use crate::instance_json::{InstanceInfo, spec_detect_loader};
use crate::json::JsonValue;
use crate::text::{chars_eq, chars_of};

verus! {

/// A dependency of an instance, by what provides it.
#[derive(Clone, Copy, Debug, PartialEq, Eq, Structural)]
pub enum PackDependency {
    Minecraft,
    Forge,
    NeoForge,
    FabricLoader,
    QuiltLoader,
}

/// The dependency that installs a detected loader: `forge`, `neoforge`,
/// `fabric` and `quilt`; no other.
pub open spec fn spec_loader_dependency(loader: Seq<char>) -> Option<PackDependency> {
    if loader == "forge"@ {
        Some(PackDependency::Forge)
    } else if loader == "neoforge"@ {
        Some(PackDependency::NeoForge)
    } else if loader == "fabric"@ {
        Some(PackDependency::FabricLoader)
    } else if loader == "quilt"@ {
        Some(PackDependency::QuiltLoader)
    } else {
        None
    }
}

/// The dependency that installs a detected loader.
pub fn loader_dependency(loader: &str) -> (r: Option<PackDependency>)
    ensures
        r == spec_loader_dependency(loader@),
{
    let l = chars_of(loader);
    if chars_eq(&l, &chars_of("forge")) {
        Some(PackDependency::Forge)
    } else if chars_eq(&l, &chars_of("neoforge")) {
        Some(PackDependency::NeoForge)
    } else if chars_eq(&l, &chars_of("fabric")) {
        Some(PackDependency::FabricLoader)
    } else if chars_eq(&l, &chars_of("quilt")) {
        Some(PackDependency::QuiltLoader)
    } else {
        None
    }
}

/// The loader dependency of an instance, with its version: where a loader
/// was detected that can be installed and its version is known.
pub open spec fn spec_loader_entry(info: InstanceInfo) -> Option<(PackDependency, Seq<char>)> {
    match info.loader {
        Some(l) => match (spec_loader_dependency(l@), info.loader_version) {
            (Some(d), Some(v)) => Some((d, v@)),
            _ => None,
        },
        None => None,
    }
}

/// The dependencies of an imported instance: Minecraft at the detected
/// version, then the loader's dependency where there is one.
pub fn import_dependencies(info: &InstanceInfo) -> (r: Vec<(PackDependency, String)>)
    ensures
        r@.len() >= 1,
        r@[0].0 == PackDependency::Minecraft,
        r@[0].1@ == info.vanilla_name@,
        match spec_loader_entry(*info) {
            Some((d, v)) => r@.len() == 2 && r@[1].0 == d && r@[1].1@ == v,
            None => r@.len() == 1,
        },
{
    let mut deps: Vec<(PackDependency, String)> = Vec::new();
    deps.push((PackDependency::Minecraft, info.vanilla_name.clone()));
    if let Some(loader) = &info.loader {
        let dep = loader_dependency(loader.as_str());
        if let (Some(d), Some(version)) = (dep, &info.loader_version) {
            deps.push((d, version.clone()));
        }
    }
    deps
}

/// The title of an imported instance: the folder's name, else `imported`.
pub fn import_title(folder_name: Option<String>) -> (r: String)
    ensures
        r@ == match folder_name {
            Some(n) => n@,
            None => "imported"@,
        },
{
    match folder_name {
        Some(n) => n,
        None => "imported".to_string(),
    }
}


/// Only loaders that can be installed are detected: every loader that the
/// detection reports has a pack dependency.
pub proof fn lemma_detected_loaders_installable(content: Seq<char>, json: JsonValue)
    ensures
        spec_detect_loader(content, json) matches Some((t, _)) ==> spec_loader_dependency(
            t,
        ) is Some,
{
}

} // verus!

//! Detection of Minecraft instances of other launchers (HMCL, PCL, plain
//! version folders) and the symlink probe, with their contracts.

pub mod text;
pub mod version_folder;
pub mod order;
pub mod json;
pub mod instance_json;
pub mod paths;
pub mod pcl;
pub mod hmcl;
pub mod symlink;
pub mod generic;

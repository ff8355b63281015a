# theseus — instance detection for other launchers

A Verus library that finds Minecraft instances of other launchers and reads
what they are:

- `src/instance_json.rs`: the Minecraft version and mod loader of a version
  JSON (`clientVersion`, HMCL patches, `--fml.mcVersion`, `jar`,
  `inheritsFrom`, library coordinates, the id), each step specified over
  character sequences; `src/json.rs` holds the JSON tree it reads.
- `src/pcl.rs`, `src/hmcl.rs`: the `name>path|…` lists of PCL / PCL CE and
  the configurations of HMCL, filtered by existing directories and sorted by
  name with the stable sort of `src/order.rs`.
- `src/paths.rs`: paths held as their text; joining and `is_absolute` are
  named by the platform's rules, existence is the file system's answer.
- `src/version_folder.rs`: which JSON file of a version folder is read.
- `src/symlink.rs`: the decisions of the probe for directory links.
- `src/generic.rs`: title and dependencies of an imported folder.
- `src/text.rs`: trimming, searching and UTF-8 lengths of character sequences.

`app/` reads the files, the registry and the directory listings, runs the
symlink probe with tokio, and hands plain values to the library.

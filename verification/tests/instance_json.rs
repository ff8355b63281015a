use theseus::instance_json::{
    checked_detect_loader, checked_extract_loader_version, checked_parse_loader_version_from_id,
    detect_from_json, extract_version_from_id, extract_version_from_libraries, normalize_version,
    parse_loader_version_from_id,
};

#[test]
fn normalize_adds_prefix_to_bare_versions() {
    assert_eq!(normalize_version("20.4"), "1.20.4");
    assert_eq!(normalize_version("21.1"), "1.21.1");
    assert_eq!(normalize_version("1.20.4"), "1.20.4");
    assert_eq!(normalize_version("22.1"), "22.1");
}

#[test]
fn normalize_removes_unobfuscated_and_trims() {
    assert_eq!(normalize_version("1.21.5_unobfuscated"), "1.21.5");
    assert_eq!(normalize_version("25w14a Unobfuscated"), "25w14a");
    assert_eq!(normalize_version("  1.8.9 \n"), "1.8.9");
    assert_eq!(normalize_version("20.1_unobfuscated "), "1.20.1");
}

#[test]
fn normalize_replacement_is_one_pass() {
    // removing the inner occurrence leaves a new one behind, which stays
    assert_eq!(normalize_version("x_unobfusc_unobfuscatedated"), "x_unobfuscated");
}

#[test]
fn libraries_forge_coordinate() {
    let c = r#"{"libraries":[{"name":"net.minecraftforge:forge:1.8.9-11.15.1.1722"}]}"#;
    assert_eq!(extract_version_from_libraries(c), Some("1.8.9".to_string()));
}

#[test]
fn libraries_forge_without_dash() {
    let c = "minecraftforge:forge:1.12.2\n";
    assert_eq!(extract_version_from_libraries(c), Some("1.12.2".to_string()));
}

#[test]
fn libraries_optifine_coordinate() {
    let c = r#"{"name":"optifine:OptiFine:1.8.9_HD_U_H5"}"#;
    assert_eq!(extract_version_from_libraries(c), Some("1.8.9".to_string()));
}

#[test]
fn libraries_fabric_coordinate() {
    let c = r#"{"name":"net.fabricmc:fabric-loader:0.15.11-1.20.1"}"#;
    assert_eq!(extract_version_from_libraries(c), Some("1.20.1".to_string()));
}

#[test]
fn libraries_fabric_without_dash_gives_none() {
    let c = r#"{"name":"net.fabricmc:fabric-loader:0.15.11"}"#;
    assert_eq!(extract_version_from_libraries(c), None);
}

#[test]
fn libraries_without_terminator_falls_through() {
    // the Forge coordinate has no terminator after it, so OptiFine is used
    let c = r#"{"a":"optifine:OptiFine:1.7.10_HD"} minecraftforge:forge:1.8"#;
    assert_eq!(extract_version_from_libraries(c), Some("1.7.10".to_string()));
    assert_eq!(extract_version_from_libraries("nothing here"), None);
}

#[test]
fn version_from_id_leading_part() {
    assert_eq!(extract_version_from_id("1.8.9-forge-11.15.1.1722"), Some("1.8.9".to_string()));
    assert_eq!(extract_version_from_id("1.20.1_fabric"), Some("1.20.1".to_string()));
    assert_eq!(extract_version_from_id("  1.16.5 OptiFine "), Some("1.16.5".to_string()));
    assert_eq!(extract_version_from_id("24w14a"), Some("24w14a".to_string()));
    assert_eq!(extract_version_from_id("1.19"), Some("1.19".to_string()));
}

#[test]
fn version_from_id_rejects() {
    assert_eq!(extract_version_from_id(""), None);
    assert_eq!(extract_version_from_id("   "), None);
    assert_eq!(extract_version_from_id("forge-1.8.9"), None);
    assert_eq!(extract_version_from_id("My Pack"), None);
}

#[test]
fn version_from_id_skips_hash_like_ids() {
    let hash = "2f1c3a9b0d8e7f6a5b4c3d2e1f0a9b8c";
    assert_eq!(hash.len(), 32);
    assert_eq!(extract_version_from_id(hash), None);
    // one byte shorter is not hash-like: it starts with '2'
    assert_eq!(extract_version_from_id(&hash[..31]), Some(hash[..31].to_string()));
    // with a separator it is not hash-like either
    let with_dot = "2f1c3a9b0d8e7f6a5b4c3d2e1f0a9b8c.";
    assert_eq!(extract_version_from_id(with_dot), Some(with_dot.to_string()));
}

#[test]
fn version_from_id_counts_bytes() {
    // 17 characters but 32 bytes: hash-like
    let s = format!("22{}", "é".repeat(15));
    assert_eq!(s.chars().count(), 17);
    assert_eq!(s.len(), 32);
    assert_eq!(extract_version_from_id(&s), None);
    // 16 characters and 31 bytes: kept
    let t = format!("2{}", "é".repeat(15));
    assert_eq!(t.len(), 31);
    assert_eq!(extract_version_from_id(&t), Some(t.clone()));
}

#[test]
fn loader_version_from_id_examples() {
    assert_eq!(
        parse_loader_version_from_id("1.8.9-forge-11.15.1.1722", "forge"),
        Some("11.15.1.1722".to_string())
    );
    assert_eq!(
        parse_loader_version_from_id("1.20.1-fabric-0.15.11", "fabric"),
        Some("0.15.11".to_string())
    );
    assert_eq!(
        parse_loader_version_from_id("1.8.9-Forge11.15.1", "forge"),
        Some("11.15.1".to_string())
    );
    assert_eq!(
        parse_loader_version_from_id("1.20.1 Quilt_0.25.0 extra", "quilt"),
        Some("0.25.0".to_string())
    );
}

#[test]
fn loader_version_from_id_second_pattern() {
    // after the separators comes a letter, so the first digit run is taken
    assert_eq!(
        parse_loader_version_from_id("1.20.1-neoforge-beta-20.4.80", "neoforge"),
        Some("20.4.80".to_string())
    );
}

#[test]
fn loader_version_from_id_none() {
    assert_eq!(parse_loader_version_from_id("1.20.1-fabric", "fabric"), None);
    assert_eq!(parse_loader_version_from_id("1.20.1-fabric-0.15", "forge"), None);
    assert_eq!(parse_loader_version_from_id("1.20.1-forge-47.2.0", "liteloader"), None);
}

#[test]
fn detect_pcl_client_version() {
    let c = r#"{"id":"My Modpack","clientVersion":"1.20.1","libraries":[]}"#;
    let info = detect_from_json(c).unwrap();
    assert_eq!(info.vanilla_name, "1.20.1");
    assert_eq!(info.loader, None);
    assert_eq!(info.loader_version, None);
}

#[test]
fn detect_hmcl_patches() {
    let c = r#"{"id":"pack","patches":[{"id":"fabric","version":"0.15.11"},{"id":"game","version":""},{"id":"game","version":"1.20.4"}],
        "libraries":[{"name":"net.fabricmc:fabric-loader:0.15.11"}]}"#;
    let info = detect_from_json(c).unwrap();
    assert_eq!(info.vanilla_name, "1.20.4");
    assert_eq!(info.loader.as_deref(), Some("fabric"));
    assert_eq!(info.loader_version.as_deref(), Some("0.15.11"));
}

#[test]
fn detect_forge_arguments() {
    let c = r#"{"id":"1.20.1-forge-47.2.0","arguments":{"game":["--launchTarget","forgeclient","--fml.mcVersion",3,"1.20.1","--fml.forgeVersion","47.2.0"]},
        "libraries":[{"name":"net.minecraftforge:forge:1.20.1-47.2.0"}]}"#;
    let info = detect_from_json(c).unwrap();
    assert_eq!(info.vanilla_name, "1.20.1");
    assert_eq!(info.loader.as_deref(), Some("forge"));
    assert_eq!(info.loader_version.as_deref(), Some("47.2.0"));
}

#[test]
fn detect_neoforge_before_forge() {
    let c = r#"{"id":"NeoPack","inheritsFrom":"21.1","libraries":[{"name":"net.neoforged:neoforge:21.1.77"},{"name":"net.minecraftforge:something"}]}"#;
    let info = detect_from_json(c).unwrap();
    assert_eq!(info.vanilla_name, "1.21.1");
    assert_eq!(info.loader.as_deref(), Some("neoforge"));
    assert_eq!(info.loader_version.as_deref(), Some("21.1.77"));
}

#[test]
fn detect_fabric_before_quilt() {
    let c = r#"{"jar":"1.19.2","libraries":[{"name":"org.quiltmc:quilt-loader:0.19.0"},{"name":"net.fabricmc:fabric-loader:0.14.0-1.19.2"}]}"#;
    let info = detect_from_json(c).unwrap();
    assert_eq!(info.vanilla_name, "1.19.2");
    assert_eq!(info.loader.as_deref(), Some("fabric"));
    assert_eq!(info.loader_version.as_deref(), Some("0.14.0-1.19.2"));
}

#[test]
fn detect_forge_library_version_after_last_dash() {
    let c = r#"{"id":"custom","libraries":[{"name":"net.minecraftforge:forge:1.8.9-11.15.1.1722"}]}"#;
    let info = detect_from_json(c).unwrap();
    assert_eq!(info.vanilla_name, "1.8.9");
    assert_eq!(info.loader.as_deref(), Some("forge"));
    assert_eq!(info.loader_version.as_deref(), Some("11.15.1.1722"));
}

#[test]
fn detect_from_id_only() {
    let c = r#"{"id":"1.12.2-OptiFine_HD_U_G5"}"#;
    let info = detect_from_json(c).unwrap();
    assert_eq!(info.vanilla_name, "1.12.2");
    assert_eq!(info.loader, None);
}

#[test]
fn detect_quilt_without_version() {
    let c = r#"{"id":"1.20.1-quilt","clientVersion":"1.20.1","x":"org.quiltmc:quilt-loader"}"#;
    let info = detect_from_json(c).unwrap();
    assert_eq!(info.loader.as_deref(), Some("quilt"));
    assert_eq!(info.loader_version, None);
}

#[test]
fn detect_fails_without_version() {
    assert!(detect_from_json(r#"{"id":"My Pack"}"#).is_none());
    assert!(detect_from_json(r#"{"clientVersion":""}"#).is_none());
    assert!(detect_from_json(r#"[1, 2, 3]"#).is_none());
}

#[test]
fn detect_fails_on_invalid_json() {
    assert!(detect_from_json("{ not json").is_none());
    assert!(detect_from_json("").is_none());
}

#[test]
fn detect_version_from_number_is_ignored() {
    // a non-string clientVersion is skipped; the id gives the version
    let c = r#"{"clientVersion":12,"id":"1.7.10"}"#;
    assert_eq!(detect_from_json(c).unwrap().vanilla_name, "1.7.10");
}

#[test]
fn loader_version_slices_id_at_lowercase_byte_offset() {
    // 'İ' lowercases to two characters of three bytes in all, so the byte
    // offset found in the lowercased id falls one byte later in the id
    assert_eq!("İ".to_lowercase().len(), 3);
    assert_eq!(parse_loader_version_from_id("İİforge-12", "forge"), Some("2".to_string()));
    assert_eq!(parse_loader_version_from_id("1.8.9-FORGE-11.15", "forge"), Some("11.15".to_string()));
}

#[test]
fn detect_refuses_id_sliced_inside_a_character() {
    // slicing "İforgeé1" at the keyword's end in the lowercased id would cut 'é'
    let c = r#"{"clientVersion":"1.20","id":"İforgeé1","x":"minecraftforge"}"#;
    assert!(detect_from_json(c).is_none());
    // without a loader keyword in the text the id is not searched
    let c = r#"{"clientVersion":"1.20","id":"İforgeé1"}"#;
    assert_eq!(detect_from_json(c).unwrap().vanilla_name, "1.20");
}

#[test]
fn checked_loader_version_reports_cut_characters() {
    assert_eq!(checked_parse_loader_version_from_id("İforgeé1", "forge"), None);
    assert_eq!(
        checked_parse_loader_version_from_id("1.20.1-fabric-0.15.11", "fabric"),
        Some(Some("0.15.11".to_string()))
    );
    assert_eq!(checked_parse_loader_version_from_id("1.20.1", "fabric"), Some(None));
}

#[test]
fn lowercase_of_ascii_is_ascii_lowercase() {
    assert_eq!(theseus::text::to_lowercase("1.20.1-NeoForge-21.1"), "1.20.1-neoforge-21.1");
    assert_eq!(theseus::text::to_lowercase("ÀB"), "àb");
}

#[test]
fn checked_extract_loader_version_in_and_out_of_bounds() {
    let c = r#"{"id":"1.20.1-forge-47.2.0"}"#;
    let j = theseus::json::parse_json(c).unwrap();
    assert_eq!(
        checked_extract_loader_version(c, &j, "forge"),
        Some(Some("47.2.0".to_string()))
    );
    let c2 = r#"{"id":"İforgeé1"}"#;
    let j2 = theseus::json::parse_json(c2).unwrap();
    assert_eq!(checked_extract_loader_version(c2, &j2, "forge"), None);
}

#[test]
fn checked_detect_loader_in_and_out_of_bounds() {
    let c = r#"{"id":"1.20.1-fabric-0.15.0","libraries":[{"name":"net.fabricmc:fabric-loader:0.15.0"}]}"#;
    let j = theseus::json::parse_json(c).unwrap();
    assert_eq!(
        checked_detect_loader(c, &j),
        Some(Some(("fabric".to_string(), Some("0.15.0".to_string()))))
    );
    let plain = r#"{"id":"1.20.1"}"#;
    let jp = theseus::json::parse_json(plain).unwrap();
    assert_eq!(checked_detect_loader(plain, &jp), Some(None));
    let cut = r#"{"id":"İforgeé1","x":"minecraftforge"}"#;
    let jc = theseus::json::parse_json(cut).unwrap();
    assert_eq!(checked_detect_loader(cut, &jc), None);
}

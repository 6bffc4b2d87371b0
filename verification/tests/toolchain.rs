use quickpreview::toolchain::{
    find_msvc_lib_path, join_with_semicolons, latest_sdk_version, lib_arch_for,
    msvc_tool_path_candidates, str_lex_lt,
};

fn path(components: &[&str]) -> Vec<String> {
    components.iter().map(|s| s.to_string()).collect()
}

#[test]
fn lib_path_replaces_last_three_components() {
    let toolchain = path(&["VC", "Tools", "MSVC", "14.30", "bin", "Hostx64", "x64"]);
    let r = find_msvc_lib_path(&toolchain, &"x64".to_string());
    assert_eq!(r, Some(path(&["VC", "Tools", "MSVC", "14.30", "lib", "x64"])));
}

#[test]
fn lib_path_honours_requested_architecture() {
    let toolchain = path(&["tools", "bin", "Hostx64", "arm64"]);
    let r = find_msvc_lib_path(&toolchain, &"arm64".to_string());
    assert_eq!(r, Some(path(&["tools", "lib", "arm64"])));
}

#[test]
fn lib_path_of_exactly_three_components_is_just_lib_and_arch() {
    let toolchain = path(&["bin", "Hostx86", "x86"]);
    let r = find_msvc_lib_path(&toolchain, &"x86".to_string());
    assert_eq!(r, Some(path(&["lib", "x86"])));
}

#[test]
fn too_short_a_path_has_no_lib_directory() {
    assert_eq!(find_msvc_lib_path(&path(&["bin", "x64"]), &"x64".to_string()), None);
    assert_eq!(find_msvc_lib_path(&path(&[]), &"x64".to_string()), None);
}

#[test]
fn lib_environment_value_joins_with_semicolons() {
    assert_eq!(join_with_semicolons(&path(&["a", "b", "c"])), "a;b;c");
    assert_eq!(join_with_semicolons(&path(&["solo"])), "solo");
    assert_eq!(join_with_semicolons(&path(&[])), "");
}

#[test]
fn tool_path_candidates_cover_every_arch_pair_in_probing_order() {
    let vc = path(&["VC"]);
    let version = "14.30".to_string();
    let candidates = msvc_tool_path_candidates(&vc, &version);
    assert_eq!(candidates.len(), 9);
    assert_eq!(
        candidates[0],
        path(&["VC", "Tools", "MSVC", "14.30", "bin", "Hostx64", "x64"])
    );
    assert_eq!(
        candidates[4],
        path(&["VC", "Tools", "MSVC", "14.30", "bin", "Hostx86", "x86"])
    );
    assert_eq!(
        candidates[8],
        path(&["VC", "Tools", "MSVC", "14.30", "bin", "Hostarm64", "arm64"])
    );
}

#[test]
fn version_name_order_is_lexicographic() {
    assert!(str_lex_lt(&"10.0.19041.0".to_string(), &"10.0.22621.0".to_string()));
    assert!(!str_lex_lt(&"10.0.22621.0".to_string(), &"10.0.19041.0".to_string()));
    assert!(!str_lex_lt(&"10.0".to_string(), &"10.0".to_string()));
    assert!(str_lex_lt(&"10.0".to_string(), &"10.0.1".to_string()));
    assert!(!str_lex_lt(&"10.0.1".to_string(), &"10.0".to_string()));
}

#[test]
fn latest_sdk_version_picks_greatest_qualifying_name() {
    let names = path(&["10.0.19041.0", "old", "10.0.22621.0", "9.9", "10.0.17763.0"]);
    assert_eq!(latest_sdk_version(&names), Some("10.0.22621.0".to_string()));
}

#[test]
fn latest_sdk_version_without_qualifying_name_is_none() {
    assert_eq!(latest_sdk_version(&path(&["9.9", "Include", "11.0"])), None);
    assert_eq!(latest_sdk_version(&path(&[])), None);
}

#[test]
fn target_architectures_map_to_lib_directories() {
    assert_eq!(lib_arch_for(&"x86_64".to_string()), "x64");
    assert_eq!(lib_arch_for(&"x86".to_string()), "x86");
    assert_eq!(lib_arch_for(&"aarch64".to_string()), "arm64");
    assert_eq!(lib_arch_for(&"riscv64".to_string()), "x64");
}

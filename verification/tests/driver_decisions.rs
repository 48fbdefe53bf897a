//! The driver's decisions: argument scanning, target classification,
//! sysroot selection, package selection and dispatch.

use callgraph::args::{
    any_arg_flag_is_lib, get_arg_flag_value, get_first_arg_with_rs_suffix, has_arg_flag,
};
use callgraph::driver::{driver_mode, plan_rustc_phase, DriverMode};
use callgraph::package::{find_package_index, parent_dir};
use callgraph::sysroot::compile_time_sysroot;
use callgraph::target::TargetKind;

fn args(v: &[&str]) -> Vec<String> {
    v.iter().map(|s| s.to_string()).collect()
}

#[test]
fn flag_presence_stops_at_double_dash() {
    let a = args(&["cargo", "-v", "--", "-q"]);
    assert!(has_arg_flag(&a, "-v"));
    assert!(!has_arg_flag(&a, "-q"));
}

#[test]
fn flag_value_from_next_argument() {
    let a = args(&["x", "--manifest-path", "dir/Cargo.toml", "rest"]);
    assert_eq!(get_arg_flag_value(&a, "--manifest-path"), Some("dir/Cargo.toml".to_string()));
}

#[test]
fn flag_value_from_equals_spelling() {
    let a = args(&["x", "--target=wasm", "rest"]);
    assert_eq!(get_arg_flag_value(&a, "--target"), Some("wasm".to_string()));
}

#[test]
fn flag_value_none_when_absent_or_after_double_dash() {
    let a = args(&["x", "--", "--target", "wasm"]);
    assert_eq!(get_arg_flag_value(&a, "--target"), None);
    let b = args(&["x", "--target"]);
    assert_eq!(get_arg_flag_value(&b, "--target"), None);
}

#[test]
fn flag_with_unrelated_suffix_is_passed_over() {
    let a = args(&["x", "--targets", "first", "--target", "second"]);
    assert_eq!(get_arg_flag_value(&a, "--target"), Some("second".to_string()));
}

#[test]
fn crate_type_lib_found_in_either_spelling() {
    assert!(any_arg_flag_is_lib(&args(&["x", "--crate-type", "rlib"]), "--crate-type"));
    assert!(any_arg_flag_is_lib(&args(&["x", "--crate-type=staticlib"]), "--crate-type"));
    assert!(!any_arg_flag_is_lib(&args(&["x", "--crate-type", "bin"]), "--crate-type"));
    assert!(!any_arg_flag_is_lib(&args(&["x", "--", "--crate-type", "lib"]), "--crate-type"));
    assert!(any_arg_flag_is_lib(
        &args(&["x", "--crate-type", "bin", "--crate-type", "lib"]),
        "--crate-type"
    ));
}

#[test]
fn first_rs_argument_is_found() {
    let a = args(&["rustc", "--edition", "2021", "src/main.rs", "other.rs"]);
    assert_eq!(get_first_arg_with_rs_suffix(&a), Some("src/main.rs".to_string()));
    let b = args(&["rustc", "--", "src/main.rs"]);
    assert_eq!(get_first_arg_with_rs_suffix(&b), None);
}

#[test]
fn target_kinds_classify() {
    assert!(TargetKind::is_lib_str("lib"));
    assert!(TargetKind::is_lib_str("rlib"));
    assert!(TargetKind::is_lib_str("staticlib"));
    assert!(!TargetKind::is_lib_str("bin"));
    assert_eq!(TargetKind::from_kinds(&args(&["rlib"])), TargetKind::Library);
    assert_eq!(TargetKind::from_kinds(&args(&["bin"])), TargetKind::Bin);
    assert_eq!(TargetKind::from_kinds(&args(&["example"])), TargetKind::Unknown);
    assert_eq!(TargetKind::from_kinds(&args(&[])), TargetKind::Unknown);
    assert_eq!(TargetKind::from_kinds(&args(&["custom", "lib"])), TargetKind::Library);
}

#[test]
fn libraries_sort_before_binaries() {
    assert!(TargetKind::Library.rank() < TargetKind::Bin.rank());
    assert!(TargetKind::Bin.rank() < TargetKind::Unknown.rank());
    assert_eq!(TargetKind::Library.name_str(), "lib");
    assert_eq!(TargetKind::Bin.name_str(), "bin");
    assert_eq!(TargetKind::Unknown.name_str(), "unknown");
}

#[test]
fn sysroot_from_toolchain_env() {
    let r = compile_time_sysroot(
        &None,
        &Some("/home/u/.rustup".to_string()),
        &None,
        &Some("nightly".to_string()),
        &None,
        &None,
    );
    assert_eq!(r, Some("/home/u/.rustup/toolchains/nightly".to_string()));
}

#[test]
fn sysroot_fallback_and_stage() {
    let r = compile_time_sysroot(&None, &None, &None, &None, &None, &Some("/sysroot".to_string()));
    assert_eq!(r, Some("/sysroot".to_string()));
    let r = compile_time_sysroot(
        &Some("1".to_string()),
        &None,
        &None,
        &None,
        &None,
        &None,
    );
    assert_eq!(r, None);
}

#[test]
fn multirust_names_serve_as_fallback() {
    let r = compile_time_sysroot(
        &None,
        &None,
        &Some("/mr".to_string()),
        &None,
        &Some("stable".to_string()),
        &None,
    );
    assert_eq!(r, Some("/mr/toolchains/stable".to_string()));
}

#[test]
fn package_found_by_manifest_or_directory() {
    let manifests = args(&["/a/x/Cargo.toml", "/a/y/Cargo.toml"]);
    assert_eq!(
        find_package_index(&manifests, &Some("/a/y/Cargo.toml".to_string()), "/elsewhere"),
        Some(1)
    );
    assert_eq!(find_package_index(&manifests, &None, "/a/x"), Some(0));
    assert_eq!(find_package_index(&manifests, &None, "/a/z"), None);
}

#[test]
fn parent_directory_of_path_text() {
    assert_eq!(parent_dir("/a/x/Cargo.toml"), "/a/x");
    assert_eq!(parent_dir("Cargo.toml"), "");
}

#[test]
fn driver_dispatch_modes() {
    assert_eq!(driver_mode("callgraph"), DriverMode::CargoCallgraph);
    assert_eq!(driver_mode("/usr/bin/rustc"), DriverMode::RustcWrapper);
    assert_eq!(driver_mode("rustc"), DriverMode::RustcWrapper);
    assert_eq!(driver_mode("build"), DriverMode::Unsupported);
}

#[test]
fn snippet_renders_as_code_block() {
    assert_eq!(
        callgraph::text::span_snippet_block("let x = 1;"),
        "```rust\nlet x = 1;\n```\n"
    );
}

#[test]
fn wrapper_plan_matches_target_role() {
    let p = plan_rustc_phase(true, false);
    assert!(p.run_analyzer && !p.run_compiler);
    let p = plan_rustc_phase(true, true);
    assert!(p.run_analyzer && p.run_compiler);
    let p = plan_rustc_phase(false, false);
    assert!(!p.run_analyzer && p.run_compiler);
}

use luau_build::runtime::{resolve_runtime_library, runtime_override_names};

fn no_overrides() -> Vec<Option<String>> {
    vec![None, None, None, None]
}

#[test]
fn apple_uses_platform_cpp_runtime() {
    let t = "x86_64-apple-darwin";
    let r = resolve_runtime_library(t, t, &no_overrides());
    assert_eq!(r.as_deref(), Some("c++"));
}

#[test]
fn msvc_needs_no_runtime_library() {
    let t = "x86_64-pc-windows-msvc";
    let r = resolve_runtime_library(t, t, &no_overrides());
    assert_eq!(r, None);
}

#[test]
fn android_uses_shared_cpp_runtime() {
    let t = "aarch64-linux-android";
    let r = resolve_runtime_library(t, t, &no_overrides());
    assert_eq!(r.as_deref(), Some("c++_shared"));
}

#[test]
fn bsd_uses_platform_cpp_runtime() {
    let t = "x86_64-unknown-freebsd";
    assert_eq!(resolve_runtime_library(t, t, &no_overrides()).as_deref(), Some("c++"));
    let t2 = "x86_64-unknown-openbsd";
    assert_eq!(resolve_runtime_library(t2, t2, &no_overrides()).as_deref(), Some("c++"));
}

#[test]
fn other_targets_default_to_gnu_runtime() {
    let t = "x86_64-unknown-linux-gnu";
    let r = resolve_runtime_library(t, t, &no_overrides());
    assert_eq!(r.as_deref(), Some("stdc++"));
}

#[test]
fn an_override_beats_the_builtin_table() {
    let t = "x86_64-pc-windows-msvc";
    let overrides = vec![None, None, None, Some(String::from("custom_cpp"))];
    let r = resolve_runtime_library(t, t, &overrides);
    assert_eq!(r.as_deref(), Some("custom_cpp"));
}

#[test]
fn the_first_set_override_wins() {
    let t = "x86_64-unknown-linux-gnu";
    let overrides = vec![
        None,
        Some(String::from("from_normalized")),
        Some(String::from("from_kind")),
        Some(String::from("generic")),
    ];
    let r = resolve_runtime_library(t, t, &overrides);
    assert_eq!(r.as_deref(), Some("from_normalized"));
}

#[test]
fn override_names_follow_precedence_order() {
    let t = "x86_64-apple-darwin";
    let names = runtime_override_names(t, t);
    assert_eq!(names.len(), 4);
    assert_eq!(names[0], "CXXSTDLIB_x86_64-apple-darwin");
    assert_eq!(names[1], "CXXSTDLIB_x86_64_apple_darwin");
    assert_eq!(names[2], "HOST_CXXSTDLIB");
    assert_eq!(names[3], "CXXSTDLIB");
}

#[test]
fn cross_builds_consult_the_target_kind() {
    let names = runtime_override_names("aarch64-linux-android", "x86_64-unknown-linux-gnu");
    assert_eq!(names[2], "TARGET_CXXSTDLIB");
}

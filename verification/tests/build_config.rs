use luau_build::config::Build;
use luau_build::config::BuildError;

fn full_config() -> Build {
    let mut b = Build::new();
    b.target("x86_64-unknown-linux-gnu");
    b.host("x86_64-unknown-linux-gnu");
    b.out_dir("/tmp/out");
    b
}

#[test]
fn new_has_fixed_defaults() {
    let b = Build::new();
    assert!(b.target.is_none());
    assert!(b.host.is_none());
    assert!(b.out_dir.is_none());
    assert_eq!(b.max_cstack_size, 1000000);
    assert!(!b.use_longjmp);
    assert!(!b.enable_codegen);
    assert_eq!(b.vector_size, 3);
}

#[test]
fn setters_store_their_values() {
    let mut b = Build::new();
    b.target("aarch64-apple-darwin");
    b.host("x86_64-apple-darwin");
    b.out_dir("/some/dir");
    b.set_max_cstack_size(4096);
    b.use_longjmp(true);
    b.enable_codegen(true);
    b.set_vector_size(4);
    assert_eq!(b.target.as_deref(), Some("aarch64-apple-darwin"));
    assert_eq!(b.host.as_deref(), Some("x86_64-apple-darwin"));
    assert_eq!(b.out_dir.as_deref(), Some("/some/dir"));
    assert_eq!(b.max_cstack_size, 4096);
    assert!(b.use_longjmp);
    assert!(b.enable_codegen);
    assert_eq!(b.vector_size, 4);
}

#[test]
fn vector_size_three_and_four_pass_validation() {
    let mut b = full_config();
    b.set_vector_size(3);
    assert!(b.plan(false).is_ok());
    b.set_vector_size(4);
    assert!(b.plan(false).is_ok());
}

#[test]
fn vector_size_five_fails_validation() {
    let mut b = full_config();
    b.set_vector_size(5);
    let r = b.plan(false);
    assert!(matches!(r, Err(BuildError::InvalidConfiguration)));
}

#[test]
fn missing_target_fails() {
    let mut b = Build::new();
    b.host("x86_64-unknown-linux-gnu");
    b.out_dir("/tmp/out");
    assert!(matches!(b.plan(false), Err(BuildError::MissingConfiguration)));
}

#[test]
fn missing_host_fails() {
    let mut b = Build::new();
    b.target("x86_64-unknown-linux-gnu");
    b.out_dir("/tmp/out");
    assert!(matches!(b.plan(false), Err(BuildError::MissingConfiguration)));
}

#[test]
fn missing_out_dir_fails() {
    let mut b = Build::new();
    b.target("x86_64-unknown-linux-gnu");
    b.host("x86_64-unknown-linux-gnu");
    assert!(matches!(b.plan(false), Err(BuildError::MissingConfiguration)));
}

#[test]
fn missing_configuration_beats_invalid_vector_size() {
    let mut b = Build::new();
    b.set_vector_size(9);
    assert!(matches!(b.plan(false), Err(BuildError::MissingConfiguration)));
}

#[test]
fn fill_defaults_respects_explicit_values() {
    let mut b = Build::new();
    b.target("explicit-target");
    b.fill_defaults(
        Some(String::from("ambient-target")),
        Some(String::from("ambient-host")),
        Some(String::from("ambient-out")),
    );
    assert_eq!(b.target.as_deref(), Some("explicit-target"));
    assert_eq!(b.host.as_deref(), Some("ambient-host"));
    assert_eq!(b.out_dir.as_deref(), Some("ambient-out"));
}

#[test]
fn codegen_on_emscripten_is_refused() {
    let mut b = Build::new();
    b.target("wasm32-unknown-emscripten");
    b.host("x86_64-unknown-linux-gnu");
    b.out_dir("/tmp/out");
    b.enable_codegen(true);
    let r = b.plan(false);
    assert!(matches!(r, Err(BuildError::UnsupportedPlatformFeature)));
}

#[test]
fn emscripten_without_codegen_is_accepted() {
    let mut b = Build::new();
    b.target("wasm32-unknown-emscripten");
    b.host("x86_64-unknown-linux-gnu");
    b.out_dir("/tmp/out");
    let p = b.plan(false).unwrap();
    // The web-target exception flag is requested for every component.
    assert!(p.baseline.tentative_flags.iter().any(|f| f == "-fexceptions"));
}

#[test]
fn codegen_elsewhere_is_accepted() {
    let mut b = full_config();
    b.enable_codegen(true);
    let p = b.plan(false).unwrap();
    assert!(p.steps.iter().any(|s| s.lib_name == "luaucodegen"));
    assert_eq!(p.libs.last().map(|s| s.as_str()), Some("luaucodegen"));
}

use luau_build::artifacts::{assemble_artifacts, derive_version};
use luau_build::components::{luau_components, ComponentSpec, DirKind, DirRef, Gate};
use luau_build::config::Build;
use luau_build::plan::plan_components;
use luau_build::text::usize_to_string;

fn valid_build() -> Build {
    let mut b = Build::new();
    b.target("x86_64-unknown-linux-gnu");
    b.host("x86_64-unknown-linux-gnu");
    b.out_dir("/work/out");
    b
}

fn simple_component(name: &str, rank: u64, search: Vec<DirRef>) -> ComponentSpec {
    ComponentSpec {
        name: String::from(name),
        lib_name: String::from(name),
        sources: vec![DirRef { part: String::from(name), kind: DirKind::Sources }],
        search,
        defines: Vec::new(),
        gate: Gate::Always,
        manifest_rank: rank,
    }
}

#[test]
fn two_component_tree_yields_dependency_ordered_manifest() {
    // B leans on A's headers; the manifest lists exactly [A, B].
    let a = simple_component(
        "A",
        0,
        vec![DirRef { part: String::from("A"), kind: DirKind::Headers }],
    );
    let b = simple_component(
        "B",
        1,
        vec![
            DirRef { part: String::from("B"), kind: DirKind::Headers },
            DirRef { part: String::from("A"), kind: DirKind::Headers },
        ],
    );
    let table = vec![a, b];
    let cfg = valid_build();
    let plan = plan_components(&table, &cfg, false).unwrap();
    assert_eq!(plan.libs, vec![String::from("A"), String::from("B")]);
    let artifacts = assemble_artifacts(&plan, None, "1.0.0");
    let lines = artifacts.metadata_lines();
    assert_eq!(
        lines,
        vec![
            String::from("library-search-path = /work/out/luau-build"),
            String::from("link-static-library = A"),
            String::from("link-static-library = B"),
        ]
    );
}

#[test]
fn emission_is_reproducible() {
    let table = luau_components();
    let cfg = valid_build();
    let plan1 = plan_components(&table, &cfg, false).unwrap();
    let plan2 = plan_components(&table, &cfg, false).unwrap();
    let a1 = assemble_artifacts(&plan1, Some(String::from("stdc++")), "0.1.0+luau999");
    let a2 = assemble_artifacts(&plan2, Some(String::from("stdc++")), "0.1.0+luau999");
    assert_eq!(a1.metadata_lines(), a2.metadata_lines());
}

#[test]
fn luau_manifest_lists_dependents_before_dependencies() {
    let table = luau_components();
    let cfg = valid_build();
    let plan = plan_components(&table, &cfg, false).unwrap();
    let libs: Vec<&str> = plan.libs.iter().map(|s| s.as_str()).collect();
    assert_eq!(
        libs,
        vec![
            "luauvm",
            "luaucompiler",
            "luauast",
            "luaucommon",
            "luauconfig",
            "luaucustom",
            "luaurequire",
        ]
    );
    let steps: Vec<&str> = plan.steps.iter().map(|s| s.name.as_str()).collect();
    assert_eq!(
        steps,
        vec!["Ast", "Common", "Compiler", "Config", "Custom", "Require", "VM"]
    );
}

#[test]
fn codegen_library_is_appended_last() {
    let table = luau_components();
    let mut cfg = valid_build();
    cfg.enable_codegen(true);
    let plan = plan_components(&table, &cfg, false).unwrap();
    assert_eq!(plan.libs.len(), 8);
    assert_eq!(plan.libs.last().map(|s| s.as_str()), Some("luaucodegen"));
    let steps: Vec<&str> = plan.steps.iter().map(|s| s.name.as_str()).collect();
    assert_eq!(
        steps,
        vec!["Ast", "CodeGen", "Common", "Compiler", "Config", "Custom", "Require", "VM"]
    );
}

#[test]
fn every_step_searches_the_common_headers_first() {
    let table = luau_components();
    let cfg = valid_build();
    let plan = plan_components(&table, &cfg, false).unwrap();
    for step in &plan.steps {
        assert_eq!(step.search[0].part, "Common");
        assert!(matches!(step.search[0].kind, DirKind::Headers));
    }
}

#[test]
fn baseline_carries_the_configured_limits() {
    let table = luau_components();
    let mut cfg = valid_build();
    cfg.set_max_cstack_size(4096);
    cfg.set_vector_size(4);
    cfg.use_longjmp(true);
    let plan = plan_components(&table, &cfg, true).unwrap();
    let names: Vec<&str> = plan.baseline.defines.iter().map(|d| d.name.as_str()).collect();
    assert_eq!(
        names,
        vec![
            "LUAI_MAXCSTACK",
            "LUA_VECTOR_SIZE",
            "LUA_API",
            "LUA_USE_LONGJMP",
            "LUAU_ENABLE_ASSERT",
        ]
    );
    assert_eq!(plan.baseline.std_level, "c++17");
    assert!(!plan.baseline.warnings);
    // Debug profile: no square-root lowering flag.
    assert!(plan.baseline.tentative_flags.is_empty());
    match &plan.baseline.defines[0].value {
        luau_build::components::DefineValue::Text(v) => assert_eq!(v, "4096"),
        other => panic!("unexpected value: {other:?}"),
    }
    match &plan.baseline.defines[1].value {
        luau_build::components::DefineValue::Text(v) => assert_eq!(v, "4"),
        other => panic!("unexpected value: {other:?}"),
    }
    assert!(matches!(
        plan.baseline.defines[2].value,
        luau_build::components::DefineValue::CLinkage
    ));
}

#[test]
fn compiler_component_searches_its_dependencies() {
    let table = luau_components();
    let cfg = valid_build();
    let plan = plan_components(&table, &cfg, false).unwrap();
    let compiler = plan.steps.iter().find(|s| s.name == "Compiler").unwrap();
    let dirs: Vec<(&str, bool)> = compiler
        .search
        .iter()
        .map(|d| (d.part.as_str(), matches!(d.kind, DirKind::Headers)))
        .collect();
    assert_eq!(dirs, vec![("Common", true), ("Compiler", true), ("Ast", true)]);
    assert_eq!(compiler.defines.len(), 1);
    assert_eq!(compiler.defines[0].name, "LUACODE_API");
}

#[test]
fn release_profile_requests_square_root_lowering() {
    let table = luau_components();
    let cfg = valid_build();
    let plan = plan_components(&table, &cfg, false).unwrap();
    assert_eq!(plan.baseline.tentative_flags, vec![String::from("-fno-math-errno")]);
}

#[test]
fn build_dir_is_under_the_output_location() {
    let table = luau_components();
    let cfg = valid_build();
    let plan = plan_components(&table, &cfg, false).unwrap();
    assert_eq!(plan.build_dir, "/work/out/luau-build");
}

#[test]
fn version_is_derived_from_the_marker() {
    assert_eq!(derive_version("0.5.0+luau678").as_deref(), Some("0.678"));
    assert_eq!(derive_version("1.2.3"), None);
    assert_eq!(derive_version("2.0.0+luau123.456").as_deref(), Some("0.123.456"));
}

#[test]
fn manifest_reports_runtime_library_and_version() {
    let table = luau_components();
    let cfg = valid_build();
    let plan = plan_components(&table, &cfg, false).unwrap();
    let artifacts = assemble_artifacts(&plan, Some(String::from("stdc++")), "0.1.0+luau663");
    assert_eq!(artifacts.lib_dir(), "/work/out/luau-build");
    assert_eq!(artifacts.libs().len(), 7);
    assert_eq!(artifacts.version().as_deref(), Some("0.663"));
    let lines = artifacts.metadata_lines();
    assert_eq!(lines.len(), 10);
    assert_eq!(lines[0], "library-search-path = /work/out/luau-build");
    assert_eq!(lines[1], "link-static-library = luauvm");
    assert_eq!(lines[7], "link-static-library = luaurequire");
    assert_eq!(lines[8], "link-runtime-library = stdc++");
    assert_eq!(lines[9], "derived-version = 0.663");
}

#[test]
fn test_metatablepointer() {
    // The metatable-pointer primitive is supplied by the customization
    // hooks; every plan compiles them against the virtual machine's
    // internals and links them into the manifest.
    let table = luau_components();
    let cfg = valid_build();
    let plan = plan_components(&table, &cfg, false).unwrap();
    let custom = plan.steps.iter().find(|s| s.name == "Custom").unwrap();
    assert_eq!(custom.lib_name, "luaucustom");
    assert!(custom
        .search
        .iter()
        .any(|d| d.part == "VM" && matches!(d.kind, DirKind::Sources)));
    assert!(plan.libs.iter().any(|l| l == "luaucustom"));
}

#[test]
fn decimal_rendering_is_exact() {
    assert_eq!(usize_to_string(0), "0");
    assert_eq!(usize_to_string(7), "7");
    assert_eq!(usize_to_string(10), "10");
    assert_eq!(usize_to_string(1000000), "1000000");
    assert_eq!(usize_to_string(987654321), "987654321");
}

use luau_build::sources::{has_extension, list_sources};

fn names(v: &[&str]) -> Vec<String> {
    v.iter().map(|s| String::from(*s)).collect()
}

fn strs(v: &Vec<String>) -> Vec<&str> {
    v.iter().map(|s| s.as_str()).collect()
}

#[test]
fn listing_filters_and_sorts() {
    let entries = names(&["lvm.cpp", "lapi.cpp", "lapi.h", "README.md", "ldo.cpp"]);
    let r = list_sources(entries, "cpp");
    assert_eq!(strs(&r), vec!["lapi.cpp", "ldo.cpp", "lvm.cpp"]);
}

#[test]
fn listing_is_order_independent() {
    let a = names(&["c.cpp", "a.cpp", "b.cpp", "z.h"]);
    let b = names(&["z.h", "b.cpp", "c.cpp", "a.cpp"]);
    let ra = list_sources(a, "cpp");
    let rb = list_sources(b, "cpp");
    assert_eq!(ra, rb);
    assert_eq!(strs(&ra), vec!["a.cpp", "b.cpp", "c.cpp"]);
}

#[test]
fn repeated_listing_is_identical() {
    let entries = names(&["b.cpp", "a.cpp"]);
    let r1 = list_sources(entries.clone(), "cpp");
    let r2 = list_sources(entries, "cpp");
    assert_eq!(r1, r2);
}

#[test]
fn extension_needs_a_stem_and_a_final_dot() {
    assert!(has_extension("x.cpp", "cpp"));
    assert!(has_extension("a.b.cpp", "cpp"));
    assert!(has_extension("a..cpp", "cpp"));
    // A leading dot alone marks no extension.
    assert!(!has_extension(".cpp", "cpp"));
    assert!(!has_extension("cpp", "cpp"));
    // The suffix must follow the dot exactly.
    assert!(!has_extension("x.acpp", "cpp"));
    assert!(!has_extension("x.cpp.h", "cpp"));
    assert!(!has_extension("x.CPP", "cpp"));
    // An extension holding a dot matches nothing.
    assert!(!has_extension("a.b.cpp", "b.cpp"));
}

#[test]
fn listing_keeps_duplicates() {
    let entries = names(&["a.cpp", "a.cpp", "b.cpp"]);
    let r = list_sources(entries, "cpp");
    assert_eq!(strs(&r), vec!["a.cpp", "a.cpp", "b.cpp"]);
}

#[test]
fn empty_listing_stays_empty() {
    let r = list_sources(Vec::new(), "cpp");
    assert!(r.is_empty());
}

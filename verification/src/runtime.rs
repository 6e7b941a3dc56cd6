//! Per-platform runtime-library resolution: which support library a binary
//! linked against the produced artifacts must also link. An override chain
//! read from the caller's environment wins over a built-in table.

use vstd::prelude::*;
use vstd::string::*;
use crate::text::{contains_seq, normalized_seq, replace_dashes, str_contains, str_eq};

verus! {

/// The first set value of the override chain, if any.
pub open spec fn first_some(v: Seq<Option<String>>) -> Option<Seq<char>>
    decreases v.len(),
{
    if v.len() == 0 {
        None
    } else {
        match v[0] {
            Some(s) => Some(s@),
            None => first_some(v.drop_first()),
        }
    }
}

/// The built-in table: MSVC-style targets need no explicit runtime library;
/// Apple and the BSDs use the platform's standard C++ runtime; Android uses
/// its shared C++ runtime; everything else defaults to the GNU-style name.
pub open spec fn builtin_runtime(t: Seq<char>) -> Option<Seq<char>> {
    if contains_seq(t, "msvc"@) {
        None
    } else if contains_seq(t, "apple"@) || contains_seq(t, "freebsd"@) || contains_seq(
        t,
        "openbsd"@,
    ) {
        Some("c++"@)
    } else if contains_seq(t, "android"@) {
        Some("c++_shared"@)
    } else {
        Some("stdc++"@)
    }
}

/// An optional string has the given optional view.
pub open spec fn opt_view_eq(a: Option<String>, b: Option<Seq<char>>) -> bool {
    match (a, b) {
        (Option::None, Option::None) => true,
        (Option::Some(x), Option::Some(y)) => x@ == y,
        _ => false,
    }
}

/// The names of the override variables the caller should consult, in
/// precedence order: the per-target name, the same with the separator
/// normalized, the host/target-generic name for native or cross builds, and
/// the fully generic name.
pub fn runtime_override_names(target: &str, host: &str) -> (r: Vec<String>)
    ensures
        r@.len() == 4,
        r@[0]@ == "CXXSTDLIB_"@ + target@,
        r@[1]@ == "CXXSTDLIB_"@ + normalized_seq(target@),
        host@ == target@ ==> r@[2]@ == "HOST_CXXSTDLIB"@,
        host@ != target@ ==> r@[2]@ == "TARGET_CXXSTDLIB"@,
        r@[3]@ == "CXXSTDLIB"@,
{
    let mut r: Vec<String> = Vec::new();
    r.push(String::from_str("CXXSTDLIB_").concat(target));
    let normalized = replace_dashes(target);
    r.push(String::from_str("CXXSTDLIB_").concat(normalized.as_str()));
    if str_eq(host, target) {
        r.push(String::from_str("HOST_CXXSTDLIB"));
    } else {
        r.push(String::from_str("TARGET_CXXSTDLIB"));
    }
    r.push(String::from_str("CXXSTDLIB"));
    r
}

/// Resolves the runtime support library for a target/host pair. The first
/// set value of the override chain wins; with no override set, the built-in
/// table decides from the target alone. The host takes part only through
/// the override names the caller consulted.
pub fn resolve_runtime_library(target: &str, host: &str, overrides: &Vec<Option<String>>) -> (r:
    Option<String>)
    ensures
        first_some(overrides@) matches Some(o) ==> (r matches Some(s) && s@ == o),
        first_some(overrides@) is None ==> opt_view_eq(r, builtin_runtime(target@)),
{
    let ghost whole: Seq<Option<String>> = overrides@;
    proof {
        assert(whole.skip(0) =~= whole);
    }
    let mut i: usize = 0;
    while i < overrides.len()
        invariant
            whole == overrides@,
            i <= whole.len(),
            first_some(whole) == first_some(whole.skip(i as int)),
        decreases whole.len() - i,
    {
        proof {
            assert(whole.skip(i as int)[0] == whole[i as int]);
            assert(whole.skip(i as int).drop_first() =~= whole.skip(i + 1));
        }
        match &overrides[i] {
            Some(s) => {
                return Some(s.clone());
            },
            None => {},
        }
        i += 1;
    }
    proof {
        assert(whole.skip(whole.len() as int).len() == 0);
        assert(first_some(whole) is None);
    }
    if str_contains(target, "msvc") {
        None
    } else if str_contains(target, "apple") || str_contains(target, "freebsd") || str_contains(
        target,
        "openbsd",
    ) {
        Some(String::from_str("c++"))
    } else if str_contains(target, "android") {
        Some(String::from_str("c++_shared"))
    } else {
        Some(String::from_str("stdc++"))
    }
}

} // verus!

//! The artifact manifest: what one successful build produced — the library
//! directory, the ordered library names, the resolved runtime library and a
//! derived version — and its emission as a line-oriented metadata protocol.

use vstd::prelude::*;
use vstd::string::*;
use crate::plan::BuildPlan;
use crate::text::{contains_seq, match_at};

verus! {

/// The result of one successful build, read-only afterwards.
pub struct Artifacts {
    pub lib_dir: String,
    pub libs: Vec<String>,
    pub cpp_stdlib: Option<String>,
    pub version: Option<String>,
}

/// The view of an optional string.
pub open spec fn opt_view(o: Option<String>) -> Option<Seq<char>> {
    match o {
        Some(s) => Some(s@),
        None => None,
    }
}

/// The views of a sequence of strings.
pub open spec fn line_views(v: Seq<String>) -> Seq<Seq<char>> {
    v.map_values(|s: String| s@)
}

/// `k` is the position of the first occurrence of `needle` in `hay`.
pub open spec fn is_first_match(hay: Seq<char>, needle: Seq<char>, k: int) -> bool {
    match_at(hay, needle, k) && forall|j: int| 0 <= j < k ==> !match_at(hay, needle, j)
}

/// The position of the first occurrence of `needle` in `hay`, where one
/// exists.
pub open spec fn first_match_ix(hay: Seq<char>, needle: Seq<char>) -> int {
    choose|k: int| is_first_match(hay, needle, k)
}

/// A first match is unique, so the chosen index is it.
proof fn lemma_first_match_ix(hay: Seq<char>, needle: Seq<char>, k: int)
    requires
        is_first_match(hay, needle, k),
    ensures
        first_match_ix(hay, needle) == k,
{
    assert(exists|j: int| is_first_match(hay, needle, j));
    let kc = first_match_ix(hay, needle);
    assert(is_first_match(hay, needle, kc));
    if kc < k {
        assert(match_at(hay, needle, kc));
        assert(false);
    }
    if k < kc {
        assert(match_at(hay, needle, k));
        assert(false);
    }
}

/// The view of the version derived from the package version `pkg`: the
/// suffix after the first occurrence of the marker, under a leading `0.`.
pub open spec fn derived_version_seq(pkg: Seq<char>) -> Seq<char> {
    "0."@ + pkg.subrange(first_match_ix(pkg, "+luau"@) + "+luau"@.len(), pkg.len() as int)
}

/// Derives the reported version from the package's own version string: the
/// part after the first `+luau` marker, reported as `0.<suffix>`; nothing is
/// reported when the marker is absent.
pub fn derive_version(pkg_version: &str) -> (r: Option<String>)
    ensures
        (r is Some) <==> contains_seq(pkg_version@, "+luau"@),
        r matches Some(v) ==> v@ == derived_version_seq(pkg_version@),
{
    let found = crate::text::find_first(pkg_version, "+luau");
    match found {
        Some(k) => {
            let hn = pkg_version.unicode_len();
            let marker_len = "+luau".unicode_len();
            let suffix = pkg_version.substring_char(k + marker_len, hn);
            let out = String::from_str("0.").concat(suffix);
            proof {
                lemma_first_match_ix(pkg_version@, "+luau"@, k as int);
                assert(out@ == "0."@ + pkg_version@.subrange(
                    k + "+luau"@.len(),
                    pkg_version@.len() as int,
                ));
            }
            Some(out)
        },
        None => None,
    }
}

fn clone_strings(v: &Vec<String>) -> (r: Vec<String>)
    ensures
        r@ == v@,
{
    let mut r: Vec<String> = Vec::new();
    let mut i: usize = 0;
    while i < v.len()
        invariant
            i <= v@.len(),
            r@.len() == i,
            forall|j: int| 0 <= j < i ==> #[trigger] r@[j] == v@[j],
        decreases v@.len() - i,
    {
        r.push(v[i].clone());
        i += 1;
    }
    proof {
        assert(r@ =~= v@);
    }
    r
}

/// Assembles the manifest of a finished build from its plan, the resolved
/// runtime library, and the package's own version string.
pub fn assemble_artifacts(plan: &BuildPlan, cpp_stdlib: Option<String>, pkg_version: &str) -> (a:
    Artifacts)
    ensures
        a.lib_dir@ == plan.build_dir@,
        a.libs@ == plan.libs@,
        a.cpp_stdlib == cpp_stdlib,
        (a.version is Some) <==> contains_seq(pkg_version@, "+luau"@),
        a.version matches Some(v) ==> v@ == derived_version_seq(pkg_version@),
{
    Artifacts {
        lib_dir: String::from_str(plan.build_dir.as_str()),
        libs: clone_strings(&plan.libs),
        cpp_stdlib,
        version: derive_version(pkg_version),
    }
}

/// The emitted metadata, line by line: one search-path directive, one link
/// directive per library in manifest order, one runtime-library directive if
/// one was resolved, and one version directive if one was derived.
pub open spec fn lines_of(
    lib_dir: Seq<char>,
    libs: Seq<Seq<char>>,
    rt: Option<Seq<char>>,
    ver: Option<Seq<char>>,
) -> Seq<Seq<char>> {
    let head = seq!["library-search-path = "@ + lib_dir];
    let links = libs.map_values(|l: Seq<char>| "link-static-library = "@ + l);
    let with_rt = match rt {
        Some(x) => (head + links).push("link-runtime-library = "@ + x),
        None => head + links,
    };
    match ver {
        Some(x) => with_rt.push("derived-version = "@ + x),
        None => with_rt,
    }
}

impl Artifacts {
    /// The directory that holds the produced static libraries.
    pub fn lib_dir(&self) -> (r: &String)
        ensures
            r@ == self.lib_dir@,
    {
        &self.lib_dir
    }

    /// The names of the produced static libraries, in manifest order.
    pub fn libs(&self) -> (r: &Vec<String>)
        ensures
            r@ == self.libs@,
    {
        &self.libs
    }

    /// The version derived from the package's own version string, if any.
    pub fn version(&self) -> (r: Option<String>)
        ensures
            opt_view(r) == opt_view(self.version),
    {
        match &self.version {
            Some(v) => Some(v.clone()),
            None => None,
        }
    }

    /// Renders the metadata protocol for this manifest, in emission order.
    pub fn metadata_lines(&self) -> (r: Vec<String>)
        ensures
            line_views(r@) == lines_of(
                self.lib_dir@,
                line_views(self.libs@),
                opt_view(self.cpp_stdlib),
                opt_view(self.version),
            ),
    {
        let ghost libviews: Seq<Seq<char>> = line_views(self.libs@);
        let ghost linkfn = |l: Seq<char>| "link-static-library = "@ + l;
        let mut out: Vec<String> = Vec::new();
        out.push(String::from_str("library-search-path = ").concat(self.lib_dir.as_str()));
        let ghost head: Seq<Seq<char>> = seq!["library-search-path = "@ + self.lib_dir@];
        proof {
            assert(line_views(out@) =~= head + libviews.map_values(linkfn).subrange(0, 0));
        }
        let mut i: usize = 0;
        while i < self.libs.len()
            invariant
                libviews == line_views(self.libs@),
                linkfn == (|l: Seq<char>| "link-static-library = "@ + l),
                head == seq!["library-search-path = "@ + self.lib_dir@],
                i <= self.libs@.len(),
                line_views(out@) == head + libviews.map_values(linkfn).subrange(0, i as int),
            decreases self.libs@.len() - i,
        {
            let ghost old_out = out@;
            out.push(
                String::from_str("link-static-library = ").concat(self.libs[i].as_str()),
            );
            proof {
                assert(line_views(out@) =~= line_views(old_out).push(
                    linkfn(libviews[i as int]),
                ));
                assert(head + libviews.map_values(linkfn).subrange(0, i + 1) =~= (head
                    + libviews.map_values(linkfn).subrange(0, i as int)).push(
                    linkfn(libviews[i as int]),
                ));
            }
            i += 1;
        }
        proof {
            assert(libviews.map_values(linkfn).subrange(0, self.libs@.len() as int)
                =~= libviews.map_values(linkfn));
        }
        match &self.cpp_stdlib {
            Some(x) => {
                let ghost old_out = out@;
                out.push(String::from_str("link-runtime-library = ").concat(x.as_str()));
                proof {
                    assert(line_views(out@) =~= line_views(old_out).push(
                        "link-runtime-library = "@ + x@,
                    ));
                }
            },
            None => {},
        }
        match &self.version {
            Some(x) => {
                let ghost old_out = out@;
                out.push(String::from_str("derived-version = ").concat(x.as_str()));
                proof {
                    assert(line_views(out@) =~= line_views(old_out).push(
                        "derived-version = "@ + x@,
                    ));
                }
            },
            None => {},
        }
        proof {
            assert(line_views(out@) =~= lines_of(
                self.lib_dir@,
                libviews,
                opt_view(self.cpp_stdlib),
                opt_view(self.version),
            ));
        }
        out
    }
}

/// Emission is reproducible: the metadata lines are a function of the
/// manifest's contents alone, so two builds that assemble manifests with the
/// same directory, library list, runtime library and version — as any two
/// runs over an unchanged source tree and configuration do, planning and
/// source enumeration being deterministic — emit byte-identical metadata.
pub proof fn lemma_emission_reproducible(a: Artifacts, b: Artifacts)
    requires
        a.lib_dir@ == b.lib_dir@,
        line_views(a.libs@) == line_views(b.libs@),
        opt_view(a.cpp_stdlib) == opt_view(b.cpp_stdlib),
        opt_view(a.version) == opt_view(b.version),
    ensures
        lines_of(a.lib_dir@, line_views(a.libs@), opt_view(a.cpp_stdlib), opt_view(a.version))
            == lines_of(
            b.lib_dir@,
            line_views(b.libs@),
            opt_view(b.cpp_stdlib),
            opt_view(b.version),
        ),
{
}

} // verus!

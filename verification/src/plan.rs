//! Build planning: the configuration is validated once, then turned into an
//! ordered list of compile steps plus the manifest ordering of the produced
//! libraries. Nothing here touches the filesystem or the toolchain; a plan
//! is a pure function of the configuration and the component table.

use vstd::prelude::*;
use vstd::relations::sorted_by;
use vstd::string::*;
use crate::components::{clone_defines, clone_dirs, defines_eq, dir_eq, dir_is, ComponentSpec,
    Define, DefineValue, DirKind, DirRef, Gate, luau_components, is_luau_table};
use crate::config::{Build, BuildError};
use crate::order::lemma_move_element;
use crate::text::{dec_digits, ends_with_seq, str_ends_with, usize_to_string};

verus! {

/// The flags shared by every compile step of one build.
pub struct Baseline {
    /// The language-standard level handed to the toolchain.
    pub std_level: String,
    /// Whether toolchain warnings are kept; they are suppressed here.
    pub warnings: bool,
    /// Common preprocessor defines, applied to every component.
    pub defines: Vec<Define>,
    /// Flags passed only where the toolchain supports them.
    pub tentative_flags: Vec<String>,
}

/// One toolchain invocation: compile the sources of one component, under the
/// baseline plus these component-specific settings, into one static library.
pub struct CompileStep {
    pub name: String,
    pub lib_name: String,
    pub sources: Vec<DirRef>,
    pub search: Vec<DirRef>,
    pub defines: Vec<Define>,
}

/// A validated build: the output subdirectory for the produced libraries,
/// the baseline, the compile steps in fixed order, and the names of the
/// produced libraries in manifest order.
pub struct BuildPlan {
    pub build_dir: String,
    pub baseline: Baseline,
    pub steps: Vec<CompileStep>,
    pub libs: Vec<String>,
}

/// A required configuration field was never supplied.
pub open spec fn missing_required(b: Build) -> bool {
    b.target is None || b.host is None || b.out_dir is None
}

/// The vector width is outside the accepted set {3, 4}.
pub open spec fn bad_vector_size(b: Build) -> bool {
    b.vector_size != 3usize && b.vector_size != 4usize
}

/// The target names the web-targeted toolchain family.
pub open spec fn is_emscripten_target(b: Build) -> bool {
    b.target matches Some(t) && ends_with_seq(t@, "emscripten"@)
}

/// The code generator is requested on a platform that lacks it.
pub open spec fn codegen_unsupported(b: Build) -> bool {
    b.enable_codegen && is_emscripten_target(b)
}

/// The table entries that take part in a build.
pub open spec fn retained(t: Seq<ComponentSpec>, codegen: bool) -> Seq<ComponentSpec> {
    t.filter(|c: ComponentSpec| c.gate is Always || codegen)
}

/// A define with a literal value.
pub open spec fn define_is_text(d: Define, name: Seq<char>, value: Seq<char>) -> bool {
    d.name@ == name && (d.value matches DefineValue::Text(t) && t@ == value)
}

/// A define marking entry points for plain C linkage.
pub open spec fn define_is_clinkage(d: Define, name: Seq<char>) -> bool {
    d.name@ == name && d.value is CLinkage
}

/// A define without a value.
pub open spec fn define_is_bare(d: Define, name: Seq<char>) -> bool {
    d.name@ == name && d.value is Bare
}

/// What the baseline of a valid plan holds: a fixed language-standard level,
/// warnings suppressed, the stack-slot and vector-width limits and the
/// linkage marker as common defines, jump-based error propagation on demand,
/// internal assertions only in a debug profile, and the two tentative flags
/// (web-target exception support; hardware square-root lowering in release).
pub open spec fn baseline_ok(bl: Baseline, b: Build, debug_asserts: bool) -> bool {
    let emsc = is_emscripten_target(b);
    let n_defs = 3 + (if b.use_longjmp {
        1int
    } else {
        0int
    }) + (if debug_asserts {
        1int
    } else {
        0int
    });
    &&& bl.std_level@ == "c++17"@
    &&& bl.warnings == false
    &&& bl.defines@.len() == n_defs
    &&& define_is_text(bl.defines@[0], "LUAI_MAXCSTACK"@, dec_digits(b.max_cstack_size as nat))
    &&& define_is_text(bl.defines@[1], "LUA_VECTOR_SIZE"@, dec_digits(b.vector_size as nat))
    &&& define_is_clinkage(bl.defines@[2], "LUA_API"@)
    &&& b.use_longjmp ==> define_is_text(bl.defines@[3], "LUA_USE_LONGJMP"@, "1"@)
    &&& debug_asserts ==> define_is_bare(
        bl.defines@[if b.use_longjmp {
            4int
        } else {
            3int
        }],
        "LUAU_ENABLE_ASSERT"@,
    )
    &&& bl.tentative_flags@.len() == (if emsc {
        1int
    } else {
        0int
    }) + (if debug_asserts {
        0int
    } else {
        1int
    })
    &&& emsc ==> bl.tentative_flags@[0]@ == "-fexceptions"@
    &&& !debug_asserts ==> bl.tentative_flags@[if emsc {
        1int
    } else {
        0int
    }]@ == "-fno-math-errno"@
}

/// A compile step realizes one table entry: same names, same sources and
/// defines, and a header search path of the shared common headers followed
/// by the entry's own list.
pub open spec fn step_matches(s: CompileStep, c: ComponentSpec) -> bool {
    &&& s.name@ == c.name@
    &&& s.lib_name@ == c.lib_name@
    &&& s.sources@.len() == c.sources@.len()
    &&& forall|i: int| 0 <= i < c.sources@.len() ==> dir_eq(#[trigger] s.sources@[i], c.sources@[i])
    &&& s.search@.len() == c.search@.len() + 1
    &&& dir_is(s.search@[0], "Common"@, DirKind::Headers)
    &&& forall|i: int| 0 <= i < c.search@.len() ==> dir_eq(#[trigger] s.search@[i + 1], c.search@[i])
    &&& defines_eq(s.defines@, c.defines@)
}

/// The manifest pair of a component: its rank and its library name.
pub open spec fn comp_pair(c: ComponentSpec) -> (u64, Seq<char>) {
    (c.manifest_rank, c.lib_name@)
}

/// The views of a vector of rank/name pairs.
pub open spec fn pair_views(v: Seq<(u64, String)>) -> Seq<(u64, Seq<char>)> {
    v.map_values(|p: (u64, String)| (p.0, p.1@))
}

/// Ordering of manifest pairs by rank.
pub open spec fn rank_leq() -> spec_fn((u64, Seq<char>), (u64, Seq<char>)) -> bool {
    |x: (u64, Seq<char>), y: (u64, Seq<char>)| x.0 <= y.0
}

/// `sp` witnesses that `libs` lists the retained components' libraries in
/// rank order.
pub open spec fn libs_witness(
    sp: Seq<(u64, Seq<char>)>,
    libs: Seq<String>,
    cs: Seq<ComponentSpec>,
) -> bool {
    &&& sp.to_multiset() == cs.map_values(|c: ComponentSpec| comp_pair(c)).to_multiset()
    &&& sorted_by(sp, rank_leq())
    &&& libs.map_values(|s: String| s@) == sp.map_values(|p: (u64, Seq<char>)| p.1)
}

/// The manifest library list names exactly the retained components, ordered
/// by manifest rank. With distinct ranks this pins the list completely.
pub open spec fn libs_ok(libs: Seq<String>, cs: Seq<ComponentSpec>) -> bool {
    exists|sp: Seq<(u64, Seq<char>)>| libs_witness(sp, libs, cs)
}

/// Everything a valid plan promises.
pub open spec fn plan_ok(
    p: BuildPlan,
    t: Seq<ComponentSpec>,
    b: Build,
    debug_asserts: bool,
) -> bool {
    let ret = retained(t, b.enable_codegen);
    &&& b.out_dir matches Some(o) && p.build_dir@ == o@ + "/luau-build"@
    &&& baseline_ok(p.baseline, b, debug_asserts)
    &&& p.steps@.len() == ret.len()
    &&& forall|i: int| 0 <= i < ret.len() ==> step_matches(#[trigger] p.steps@[i], ret[i])
    &&& libs_ok(p.libs@, ret)
}

/// Sorts manifest pairs by rank. Ties keep no promised order; the fixed
/// table assigns distinct ranks, which pins the result.
fn sort_pairs(v: Vec<(u64, String)>) -> (r: Vec<(u64, String)>)
    ensures
        sorted_by(pair_views(r@), rank_leq()),
        pair_views(r@).to_multiset() == pair_views(v@).to_multiset(),
{
    let mut rest = v;
    let mut out: Vec<(u64, String)> = Vec::new();
    let ghost all: Seq<(u64, Seq<char>)> = pair_views(rest@);
    proof {
        assert(pair_views(out@) =~= Seq::<(u64, Seq<char>)>::empty());
        assert(pair_views(out@) + pair_views(rest@) =~= pair_views(rest@));
    }
    while rest.len() > 0
        invariant
            sorted_by(pair_views(out@), rank_leq()),
            (pair_views(out@) + pair_views(rest@)).to_multiset() == all.to_multiset(),
            forall|p: int, q: int|
                0 <= p < out@.len() && 0 <= q < rest@.len() ==> #[trigger] rank_leq()(
                    pair_views(out@)[p],
                    pair_views(rest@)[q],
                ),
        decreases rest.len(),
    {
        let mut min: usize = 0;
        let mut k: usize = 1;
        while k < rest.len()
            invariant
                rest@.len() > 0,
                min < rest@.len(),
                k <= rest@.len(),
                forall|q: int|
                    0 <= q < k ==> #[trigger] rank_leq()(
                        pair_views(rest@)[min as int],
                        pair_views(rest@)[q],
                    ),
            decreases rest@.len() - k,
        {
            if rest[k].0 < rest[min].0 {
                proof {
                    assert forall|q: int| 0 <= q < k + 1 implies #[trigger] rank_leq()(
                        pair_views(rest@)[k as int],
                        pair_views(rest@)[q],
                    ) by {
                        if q < k {
                            assert(rank_leq()(pair_views(rest@)[min as int], pair_views(
                                rest@,
                            )[q]));
                        }
                    }
                }
                min = k;
            } else {
                proof {
                    assert(rank_leq()(pair_views(rest@)[min as int], pair_views(
                        rest@,
                    )[k as int]));
                }
            }
            k += 1;
        }
        let ghost old_out = out@;
        let ghost old_rest = rest@;
        let x = rest.remove(min);
        out.push(x);
        proof {
            let f = |p: (u64, String)| (p.0, p.1@);
            let m_out = old_out.map_values(f);
            let m_rest = old_rest.map_values(f);
            assert(m_rest[min as int] == (x.0, x.1@));
            assert(pair_views(rest@) =~= m_rest.remove(min as int));
            assert(pair_views(out@) =~= m_out.push((x.0, x.1@)));
            lemma_move_element(m_out, m_rest, min as int);
            assert((pair_views(out@) + pair_views(rest@)).to_multiset() == (m_out
                + m_rest).to_multiset());
            assert forall|p: int, q: int|
                0 <= p < q < pair_views(out@).len() implies #[trigger] rank_leq()(
                pair_views(out@)[p],
                pair_views(out@)[q],
            ) by {
                if q < pair_views(out@).len() - 1 {
                    assert(rank_leq()(m_out[p], m_out[q]));
                } else {
                    assert(rank_leq()(m_out[p], m_rest[min as int]));
                }
            }
            assert forall|p: int, q: int|
                0 <= p < out@.len() && 0 <= q < rest@.len() implies #[trigger] rank_leq()(
                pair_views(out@)[p],
                pair_views(rest@)[q],
            ) by {
                let qq = if q < min { q } else { q + 1 };
                assert(pair_views(rest@)[q] == m_rest[qq]);
                if p < out@.len() - 1 {
                    assert(rank_leq()(m_out[p], m_rest[qq]));
                } else {
                    assert(rank_leq()(m_rest[min as int], m_rest[qq]));
                }
            }
        }
    }
    proof {
        assert(pair_views(out@) + pair_views(rest@) =~= pair_views(out@));
    }
    out
}

/// Validates a configuration against a component table and plans the build.
/// Validation happens in full before any step is planned: a missing required
/// field, then an invalid vector width, then an unsupported optional
/// component each fail fast, and nothing is handed out that could touch the
/// filesystem.
pub fn plan_components(table: &Vec<ComponentSpec>, b: &Build, debug_asserts: bool) -> (r: Result<
    BuildPlan,
    BuildError,
>)
    ensures
        (r matches Err(BuildError::MissingConfiguration)) <==> missing_required(*b),
        (r matches Err(BuildError::InvalidConfiguration)) <==> (!missing_required(*b)
            && bad_vector_size(*b)),
        (r matches Err(BuildError::UnsupportedPlatformFeature)) <==> (!missing_required(*b)
            && !bad_vector_size(*b) && codegen_unsupported(*b)),
        (r is Ok) <==> (!missing_required(*b) && !bad_vector_size(*b) && !codegen_unsupported(
            *b,
        )),
        r matches Ok(p) ==> plan_ok(p, table@, *b, debug_asserts),
{
    let target = match &b.target {
        Some(t) => t,
        None => {
            return Err(BuildError::MissingConfiguration);
        },
    };
    if b.host.is_none() {
        return Err(BuildError::MissingConfiguration);
    }
    let out_dir = match &b.out_dir {
        Some(o) => o,
        None => {
            return Err(BuildError::MissingConfiguration);
        },
    };
    if !(b.vector_size == 3 || b.vector_size == 4) {
        return Err(BuildError::InvalidConfiguration);
    }
    let emscripten = str_ends_with(target.as_str(), "emscripten");
    if b.enable_codegen && emscripten {
        return Err(BuildError::UnsupportedPlatformFeature);
    }

    let build_dir = String::from_str(out_dir.as_str()).concat("/luau-build");

    let mut defines: Vec<Define> = Vec::new();
    defines.push(
        Define {
            name: String::from_str("LUAI_MAXCSTACK"),
            value: DefineValue::Text(usize_to_string(b.max_cstack_size)),
        },
    );
    defines.push(
        Define {
            name: String::from_str("LUA_VECTOR_SIZE"),
            value: DefineValue::Text(usize_to_string(b.vector_size)),
        },
    );
    defines.push(Define { name: String::from_str("LUA_API"), value: DefineValue::CLinkage });
    if b.use_longjmp {
        defines.push(
            Define {
                name: String::from_str("LUA_USE_LONGJMP"),
                value: DefineValue::Text(String::from_str("1")),
            },
        );
    }
    if debug_asserts {
        defines.push(
            Define { name: String::from_str("LUAU_ENABLE_ASSERT"), value: DefineValue::Bare },
        );
    }

    let mut tentative_flags: Vec<String> = Vec::new();
    if emscripten {
        tentative_flags.push(String::from_str("-fexceptions"));
    }
    if !debug_asserts {
        tentative_flags.push(String::from_str("-fno-math-errno"));
    }

    let baseline = Baseline {
        std_level: String::from_str("c++17"),
        warnings: false,
        defines,
        tentative_flags,
    };

    let ghost keep_pred = |c: ComponentSpec| c.gate is Always || b.enable_codegen;
    let mut steps: Vec<CompileStep> = Vec::new();
    let mut pairs: Vec<(u64, String)> = Vec::new();
    proof {
        reveal(Seq::filter);
        assert(table@.subrange(0, 0).len() == 0);
        assert(steps@.len() == table@.subrange(0, 0).filter(keep_pred).len());
        assert(pair_views(pairs@) =~= table@.subrange(0, 0).filter(keep_pred).map_values(
            |c: ComponentSpec| comp_pair(c),
        ));
    }
    let mut i: usize = 0;
    while i < table.len()
        invariant
            i <= table@.len(),
            keep_pred == (|c: ComponentSpec| c.gate is Always || b.enable_codegen),
            steps@.len() == table@.subrange(0, i as int).filter(keep_pred).len(),
            forall|j: int|
                0 <= j < steps@.len() ==> step_matches(
                    #[trigger] steps@[j],
                    table@.subrange(0, i as int).filter(keep_pred)[j],
                ),
            pair_views(pairs@) == table@.subrange(0, i as int).filter(keep_pred).map_values(
                |c: ComponentSpec| comp_pair(c),
            ),
        decreases table@.len() - i,
    {
        let ghost old_steps = steps@;
        let ghost old_pairs = pairs@;
        let c = &table[i];
        let included = match c.gate {
            Gate::Always => true,
            Gate::Optional => b.enable_codegen,
        };
        if included {
            let mut search: Vec<DirRef> = Vec::new();
            search.push(DirRef { part: String::from_str("Common"), kind: DirKind::Headers });
            let mut own = clone_dirs(&c.search);
            search.append(&mut own);
            let step = CompileStep {
                name: c.name.clone(),
                lib_name: c.lib_name.clone(),
                sources: clone_dirs(&c.sources),
                search,
                defines: clone_defines(&c.defines),
            };
            proof {
                assert(step_matches(step, table@[i as int]));
            }
            steps.push(step);
            pairs.push((c.manifest_rank, c.lib_name.clone()));
        }
        proof {
            reveal(Seq::filter);
            let pre0 = table@.subrange(0, i as int);
            let pre1 = table@.subrange(0, i + 1);
            assert(pre1.drop_last() =~= pre0);
            assert(pre1.last() == table@[i as int]);
            if included {
                assert(pre1.filter(keep_pred) =~= pre0.filter(keep_pred).push(
                    table@[i as int],
                ));
                assert(pair_views(pairs@) =~= pair_views(old_pairs).push(
                    (table@[i as int].manifest_rank, table@[i as int].lib_name@),
                ));
                assert(pair_views(pairs@) =~= pre1.filter(keep_pred).map_values(
                    |c: ComponentSpec| comp_pair(c),
                ));
            } else {
                assert(pre1.filter(keep_pred) =~= pre0.filter(keep_pred));
            }
        }
        i += 1;
    }
    proof {
        assert(table@.subrange(0, table@.len() as int) =~= table@);
    }

    let sorted = sort_pairs(pairs);
    let mut libs: Vec<String> = Vec::new();
    let mut k: usize = 0;
    while k < sorted.len()
        invariant
            k <= sorted@.len(),
            libs@.len() == k,
            forall|j: int| 0 <= j < k ==> #[trigger] libs@[j]@ == pair_views(sorted@)[j].1,
        decreases sorted@.len() - k,
    {
        libs.push(sorted[k].1.clone());
        k += 1;
    }
    proof {
        let ret = retained(table@, b.enable_codegen);
        assert(libs@.map_values(|s: String| s@) =~= pair_views(sorted@).map_values(
            |p: (u64, Seq<char>)| p.1,
        ));
        assert(libs_witness(pair_views(sorted@), libs@, ret));
    }

    Ok(BuildPlan { build_dir, baseline, steps, libs })
}

impl Build {
    /// Validates this configuration against the fixed component table and
    /// plans the build. `debug_asserts` selects the build profile: internal
    /// assertions in debug, hardware square-root lowering in release.
    pub fn plan(&self, debug_asserts: bool) -> (r: Result<BuildPlan, BuildError>)
        ensures
            (r matches Err(BuildError::MissingConfiguration)) <==> missing_required(*self),
            (r matches Err(BuildError::InvalidConfiguration)) <==> (!missing_required(*self)
                && bad_vector_size(*self)),
            (r matches Err(BuildError::UnsupportedPlatformFeature)) <==> (!missing_required(
                *self,
            ) && !bad_vector_size(*self) && codegen_unsupported(*self)),
            (r is Ok) <==> (!missing_required(*self) && !bad_vector_size(*self)
                && !codegen_unsupported(*self)),
            r matches Ok(p) ==> exists|t: Seq<ComponentSpec>|
                #[trigger] is_luau_table(t) && plan_ok(p, t, *self, debug_asserts),
    {
        let table = luau_components();
        let r = plan_components(&table, self, debug_asserts);
        proof {
            if r is Ok {
                assert(is_luau_table(table@) && plan_ok(
                    r->Ok_0,
                    table@,
                    *self,
                    debug_asserts,
                ));
            }
        }
        r
    }
}

} // verus!

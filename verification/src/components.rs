//! The fixed component table: each independently compiled unit of the native
//! library, its source directories, its header search directories, its extra
//! preprocessor defines, its inclusion predicate and its place in the
//! manifest. The table is static; nothing mutates it at run time.

use vstd::prelude::*;

verus! {

/// Which directory of a component a reference points at. The caller that
/// talks to the filesystem turns a reference into a real path by joining the
/// source root, the part name, and the fixed subdirectory for the kind.
#[derive(Clone, Copy, Debug)]
pub enum DirKind {
    /// The directory holding the part's translation units.
    Sources,
    /// The directory holding the part's public headers.
    Headers,
}

/// A directory of one part of the source tree, named symbolically.
#[derive(Debug)]
pub struct DirRef {
    /// Path of the part under the source root, such as `Ast` or `VM`.
    pub part: String,
    pub kind: DirKind,
}

/// The value of a preprocessor define.
#[derive(Debug)]
pub enum DefineValue {
    /// A literal value.
    Text(String),
    /// Marks entry points for plain C linkage, so they stay callable across
    /// the native boundary without name mangling. The caller spells out the
    /// toolchain's wording for this.
    CLinkage,
    /// A define without a value.
    Bare,
}

/// One preprocessor define.
#[derive(Debug)]
pub struct Define {
    pub name: String,
    pub value: DefineValue,
}

/// When a component takes part in a build.
#[derive(Clone, Copy, Debug)]
pub enum Gate {
    /// In every build.
    Always,
    /// Only when the code generator is requested; refused outright on
    /// platforms that lack it.
    Optional,
}

/// One independently compiled component.
#[derive(Debug)]
pub struct ComponentSpec {
    /// Unique human name, such as `Ast`.
    pub name: String,
    /// Name of the produced static library.
    pub lib_name: String,
    /// Directories whose translation units are merged into this component.
    pub sources: Vec<DirRef>,
    /// Header search directories: the component's own interface first, then
    /// every declared dependency's headers. The shared common headers are
    /// added once by the baseline, not listed here.
    pub search: Vec<DirRef>,
    /// Component-specific preprocessor defines.
    pub defines: Vec<Define>,
    pub gate: Gate,
    /// Position of the produced library in the reported manifest; dependents
    /// are ranked before their dependencies for the benefit of downstream
    /// linkers.
    pub manifest_rank: u64,
}

/// `d` names the given directory.
pub open spec fn dir_is(d: DirRef, part: Seq<char>, kind: DirKind) -> bool {
    d.part@ == part && d.kind == kind
}

/// Two directory references name the same directory.
pub open spec fn dir_eq(a: DirRef, b: DirRef) -> bool {
    a.part@ == b.part@ && a.kind == b.kind
}

/// Two defines agree in name and value.
pub open spec fn define_eq(a: Define, b: Define) -> bool {
    &&& a.name@ == b.name@
    &&& match (a.value, b.value) {
        (DefineValue::Text(x), DefineValue::Text(y)) => x@ == y@,
        (DefineValue::CLinkage, DefineValue::CLinkage) => true,
        (DefineValue::Bare, DefineValue::Bare) => true,
        _ => false,
    }
}

/// Two directory lists name the same directories in the same order.
pub open spec fn dirs_eq(a: Seq<DirRef>, b: Seq<DirRef>) -> bool {
    a.len() == b.len() && forall|i: int| 0 <= i < a.len() ==> dir_eq(#[trigger] a[i], b[i])
}

/// Two define lists agree elementwise.
pub open spec fn defines_eq(a: Seq<Define>, b: Seq<Define>) -> bool {
    a.len() == b.len() && forall|i: int| 0 <= i < a.len() ==> define_eq(#[trigger] a[i], b[i])
}

fn dirref(part: &str, kind: DirKind) -> (d: DirRef)
    ensures
        dir_is(d, part@, kind),
{
    DirRef { part: String::from_str(part), kind }
}

/// Copies a directory list.
pub fn clone_dirs(v: &Vec<DirRef>) -> (r: Vec<DirRef>)
    ensures
        dirs_eq(r@, v@),
{
    let mut r: Vec<DirRef> = Vec::new();
    let mut i: usize = 0;
    while i < v.len()
        invariant
            i <= v@.len(),
            r@.len() == i,
            forall|j: int| 0 <= j < i ==> dir_eq(#[trigger] r@[j], v@[j]),
        decreases v@.len() - i,
    {
        let d = &v[i];
        r.push(DirRef { part: d.part.clone(), kind: d.kind });
        i += 1;
    }
    r
}

/// Copies a define list.
pub fn clone_defines(v: &Vec<Define>) -> (r: Vec<Define>)
    ensures
        defines_eq(r@, v@),
{
    let mut r: Vec<Define> = Vec::new();
    let mut i: usize = 0;
    while i < v.len()
        invariant
            i <= v@.len(),
            r@.len() == i,
            forall|j: int| 0 <= j < i ==> define_eq(#[trigger] r@[j], v@[j]),
        decreases v@.len() - i,
    {
        let d = &v[i];
        let value = match &d.value {
            DefineValue::Text(s) => DefineValue::Text(s.clone()),
            DefineValue::CLinkage => DefineValue::CLinkage,
            DefineValue::Bare => DefineValue::Bare,
        };
        r.push(Define { name: d.name.clone(), value });
        i += 1;
    }
    r
}

/// The fixed facts of one table entry.
pub open spec fn comp_head(
    c: ComponentSpec,
    name: Seq<char>,
    lib: Seq<char>,
    gate: Gate,
    rank: u64,
) -> bool {
    c.name@ == name && c.lib_name@ == lib && c.gate == gate && c.manifest_rank == rank
}

/// The whole fixed component table, entry by entry: the parser/AST library
/// and the shared utilities stand alone; the bytecode compiler leans on the
/// parser's headers; the optional code generator leans on the virtual
/// machine's internals; the configuration parser leans on parser, compiler
/// and VM headers; the customization hooks lean on VM internals; the
/// module-resolution library leans on parser, configuration and VM headers
/// and merges two source/header pairs into one compiled unit; the VM stands
/// alone. Manifest ranks put dependents before dependencies, with the
/// optional code generator last.
pub open spec fn is_luau_table(t: Seq<ComponentSpec>) -> bool {
    &&& t.len() == 8
    &&& comp_head(t[0], "Ast"@, "luauast"@, Gate::Always, 2)
    &&& t[0].sources@.len() == 1 && dir_is(t[0].sources@[0], "Ast"@, DirKind::Sources)
    &&& t[0].search@.len() == 1 && dir_is(t[0].search@[0], "Ast"@, DirKind::Headers)
    &&& t[0].defines@.len() == 0
    &&& comp_head(t[1], "CodeGen"@, "luaucodegen"@, Gate::Optional, 7)
    &&& t[1].sources@.len() == 1 && dir_is(t[1].sources@[0], "CodeGen"@, DirKind::Sources)
    &&& t[1].search@.len() == 3 && dir_is(t[1].search@[0], "CodeGen"@, DirKind::Headers)
        && dir_is(t[1].search@[1], "VM"@, DirKind::Headers) && dir_is(
        t[1].search@[2],
        "VM"@,
        DirKind::Sources,
    )
    &&& t[1].defines@.len() == 1 && t[1].defines@[0].name@ == "LUACODEGEN_API"@
        && t[1].defines@[0].value is CLinkage
    &&& comp_head(t[2], "Common"@, "luaucommon"@, Gate::Always, 3)
    &&& t[2].sources@.len() == 1 && dir_is(t[2].sources@[0], "Common"@, DirKind::Sources)
    &&& t[2].search@.len() == 1 && dir_is(t[2].search@[0], "Common"@, DirKind::Headers)
    &&& t[2].defines@.len() == 0
    &&& comp_head(t[3], "Compiler"@, "luaucompiler"@, Gate::Always, 1)
    &&& t[3].sources@.len() == 1 && dir_is(t[3].sources@[0], "Compiler"@, DirKind::Sources)
    &&& t[3].search@.len() == 2 && dir_is(t[3].search@[0], "Compiler"@, DirKind::Headers)
        && dir_is(t[3].search@[1], "Ast"@, DirKind::Headers)
    &&& t[3].defines@.len() == 1 && t[3].defines@[0].name@ == "LUACODE_API"@
        && t[3].defines@[0].value is CLinkage
    &&& comp_head(t[4], "Config"@, "luauconfig"@, Gate::Always, 4)
    &&& t[4].sources@.len() == 1 && dir_is(t[4].sources@[0], "Config"@, DirKind::Sources)
    &&& t[4].search@.len() == 4 && dir_is(t[4].search@[0], "Config"@, DirKind::Headers)
        && dir_is(t[4].search@[1], "Ast"@, DirKind::Headers) && dir_is(
        t[4].search@[2],
        "Compiler"@,
        DirKind::Headers,
    ) && dir_is(t[4].search@[3], "VM"@, DirKind::Headers)
    &&& t[4].defines@.len() == 0
    &&& comp_head(t[5], "Custom"@, "luaucustom"@, Gate::Always, 5)
    &&& t[5].sources@.len() == 1 && dir_is(t[5].sources@[0], "Custom"@, DirKind::Sources)
    &&& t[5].search@.len() == 2 && dir_is(t[5].search@[0], "VM"@, DirKind::Headers) && dir_is(
        t[5].search@[1],
        "VM"@,
        DirKind::Sources,
    )
    &&& t[5].defines@.len() == 0
    &&& comp_head(t[6], "Require"@, "luaurequire"@, Gate::Always, 6)
    &&& t[6].sources@.len() == 2 && dir_is(
        t[6].sources@[0],
        "Require/Navigator"@,
        DirKind::Sources,
    ) && dir_is(t[6].sources@[1], "Require/Runtime"@, DirKind::Sources)
    &&& t[6].search@.len() == 5 && dir_is(
        t[6].search@[0],
        "Require/Navigator"@,
        DirKind::Headers,
    ) && dir_is(t[6].search@[1], "Require/Runtime"@, DirKind::Headers) && dir_is(
        t[6].search@[2],
        "Ast"@,
        DirKind::Headers,
    ) && dir_is(t[6].search@[3], "Config"@, DirKind::Headers) && dir_is(
        t[6].search@[4],
        "VM"@,
        DirKind::Headers,
    )
    &&& t[6].defines@.len() == 0
    &&& comp_head(t[7], "VM"@, "luauvm"@, Gate::Always, 0)
    &&& t[7].sources@.len() == 1 && dir_is(t[7].sources@[0], "VM"@, DirKind::Sources)
    &&& t[7].search@.len() == 1 && dir_is(t[7].search@[0], "VM"@, DirKind::Headers)
    &&& t[7].defines@.len() == 0
}

fn comp(
    name: &str,
    lib: &str,
    gate: Gate,
    rank: u64,
    sources: Vec<DirRef>,
    search: Vec<DirRef>,
    defines: Vec<Define>,
) -> (c: ComponentSpec)
    ensures
        comp_head(c, name@, lib@, gate, rank),
        c.sources == sources,
        c.search == search,
        c.defines == defines,
{
    ComponentSpec {
        name: String::from_str(name),
        lib_name: String::from_str(lib),
        sources,
        search,
        defines,
        gate,
        manifest_rank: rank,
    }
}

/// The component table of this library, in compile order.
pub fn luau_components() -> (t: Vec<ComponentSpec>)
    ensures
        is_luau_table(t@),
{
    let ast = comp(
        "Ast",
        "luauast",
        Gate::Always,
        2,
        vec![dirref("Ast", DirKind::Sources)],
        vec![dirref("Ast", DirKind::Headers)],
        Vec::new(),
    );
    let codegen = comp(
        "CodeGen",
        "luaucodegen",
        Gate::Optional,
        7,
        vec![dirref("CodeGen", DirKind::Sources)],
        vec![
            dirref("CodeGen", DirKind::Headers),
            dirref("VM", DirKind::Headers),
            dirref("VM", DirKind::Sources),
        ],
        vec![
            Define { name: String::from_str("LUACODEGEN_API"), value: DefineValue::CLinkage },
        ],
    );
    let common = comp(
        "Common",
        "luaucommon",
        Gate::Always,
        3,
        vec![dirref("Common", DirKind::Sources)],
        vec![dirref("Common", DirKind::Headers)],
        Vec::new(),
    );
    let compiler = comp(
        "Compiler",
        "luaucompiler",
        Gate::Always,
        1,
        vec![dirref("Compiler", DirKind::Sources)],
        vec![dirref("Compiler", DirKind::Headers), dirref("Ast", DirKind::Headers)],
        vec![Define { name: String::from_str("LUACODE_API"), value: DefineValue::CLinkage }],
    );
    let config = comp(
        "Config",
        "luauconfig",
        Gate::Always,
        4,
        vec![dirref("Config", DirKind::Sources)],
        vec![
            dirref("Config", DirKind::Headers),
            dirref("Ast", DirKind::Headers),
            dirref("Compiler", DirKind::Headers),
            dirref("VM", DirKind::Headers),
        ],
        Vec::new(),
    );
    let custom = comp(
        "Custom",
        "luaucustom",
        Gate::Always,
        5,
        vec![dirref("Custom", DirKind::Sources)],
        vec![dirref("VM", DirKind::Headers), dirref("VM", DirKind::Sources)],
        Vec::new(),
    );
    let require = comp(
        "Require",
        "luaurequire",
        Gate::Always,
        6,
        vec![
            dirref("Require/Navigator", DirKind::Sources),
            dirref("Require/Runtime", DirKind::Sources),
        ],
        vec![
            dirref("Require/Navigator", DirKind::Headers),
            dirref("Require/Runtime", DirKind::Headers),
            dirref("Ast", DirKind::Headers),
            dirref("Config", DirKind::Headers),
            dirref("VM", DirKind::Headers),
        ],
        Vec::new(),
    );
    let vm = comp(
        "VM",
        "luauvm",
        Gate::Always,
        0,
        vec![dirref("VM", DirKind::Sources)],
        vec![dirref("VM", DirKind::Headers)],
        Vec::new(),
    );
    let t: Vec<ComponentSpec> = vec![ast, codegen, common, compiler, config, custom, require, vm];
    t
}

} // verus!

//! The build configuration: a builder with defaults, finalized and validated
//! once before any compilation is planned.

use vstd::prelude::*;

verus! {

/// A typed, fatal build failure. No partial result accompanies any of these.
#[derive(Debug)]
pub enum BuildError {
    /// A required field (target, host or output location) was never set.
    MissingConfiguration,
    /// The vector width is outside the accepted set {3, 4}.
    InvalidConfiguration,
    /// An optional component was requested on a platform that lacks it.
    UnsupportedPlatformFeature,
    /// The toolchain failed on one component; the diagnostic is kept verbatim.
    CompilationFailure { component: String, diagnostic: String },
    /// The output location could not be reset, read or written.
    FilesystemFailure { detail: String },
}

/// The mutable configuration under construction. Nothing is validated and no
/// side effect happens until a plan is made from it.
pub struct Build {
    pub out_dir: Option<String>,
    pub target: Option<String>,
    pub host: Option<String>,
    /// Greatest number of stack slots a native call may use.
    pub max_cstack_size: usize,
    /// Propagate errors by jumps rather than by stack unwinding.
    pub use_longjmp: bool,
    /// Build the optional code generator.
    pub enable_codegen: bool,
    /// Vector width; only 3 and 4 pass validation.
    pub vector_size: usize,
}

impl Build {
    /// A configuration with every field at its fixed default and the three
    /// required fields unset. Ambient defaults, if any, are supplied later
    /// through `fill_defaults` by the caller that owns that concern.
    pub fn new() -> (b: Build)
        ensures
            b.out_dir is None,
            b.target is None,
            b.host is None,
            b.max_cstack_size == 1000000usize,
            b.use_longjmp == false,
            b.enable_codegen == false,
            b.vector_size == 3usize,
    {
        Build {
            out_dir: None,
            target: None,
            host: None,
            max_cstack_size: 1000000,
            use_longjmp: false,
            enable_codegen: false,
            vector_size: 3,
        }
    }

    /// Sets the output location.
    pub fn out_dir(&mut self, path: &str)
        ensures
            final(self).out_dir matches Some(p) && p@ == path@,
            final(self).target == old(self).target,
            final(self).host == old(self).host,
            final(self).max_cstack_size == old(self).max_cstack_size,
            final(self).use_longjmp == old(self).use_longjmp,
            final(self).enable_codegen == old(self).enable_codegen,
            final(self).vector_size == old(self).vector_size,
    {
        self.out_dir = Some(path.to_owned());
    }

    /// Sets the identifier of the machine code is built for.
    pub fn target(&mut self, target: &str)
        ensures
            final(self).target matches Some(t) && t@ == target@,
            final(self).out_dir == old(self).out_dir,
            final(self).host == old(self).host,
            final(self).max_cstack_size == old(self).max_cstack_size,
            final(self).use_longjmp == old(self).use_longjmp,
            final(self).enable_codegen == old(self).enable_codegen,
            final(self).vector_size == old(self).vector_size,
    {
        self.target = Some(target.to_owned());
    }

    /// Sets the identifier of the machine performing the build.
    pub fn host(&mut self, host: &str)
        ensures
            final(self).host matches Some(h) && h@ == host@,
            final(self).out_dir == old(self).out_dir,
            final(self).target == old(self).target,
            final(self).max_cstack_size == old(self).max_cstack_size,
            final(self).use_longjmp == old(self).use_longjmp,
            final(self).enable_codegen == old(self).enable_codegen,
            final(self).vector_size == old(self).vector_size,
    {
        self.host = Some(host.to_owned());
    }

    /// Sets the native-call stack slot limit.
    pub fn set_max_cstack_size(&mut self, size: usize)
        ensures
            final(self).max_cstack_size == size,
            final(self).out_dir == old(self).out_dir,
            final(self).target == old(self).target,
            final(self).host == old(self).host,
            final(self).use_longjmp == old(self).use_longjmp,
            final(self).enable_codegen == old(self).enable_codegen,
            final(self).vector_size == old(self).vector_size,
    {
        self.max_cstack_size = size;
    }

    /// Chooses jump-based error propagation over stack unwinding.
    pub fn use_longjmp(&mut self, value: bool)
        ensures
            final(self).use_longjmp == value,
            final(self).out_dir == old(self).out_dir,
            final(self).target == old(self).target,
            final(self).host == old(self).host,
            final(self).max_cstack_size == old(self).max_cstack_size,
            final(self).enable_codegen == old(self).enable_codegen,
            final(self).vector_size == old(self).vector_size,
    {
        self.use_longjmp = value;
    }

    /// Requests the optional code generator.
    pub fn enable_codegen(&mut self, enable: bool)
        ensures
            final(self).enable_codegen == enable,
            final(self).out_dir == old(self).out_dir,
            final(self).target == old(self).target,
            final(self).host == old(self).host,
            final(self).max_cstack_size == old(self).max_cstack_size,
            final(self).use_longjmp == old(self).use_longjmp,
            final(self).vector_size == old(self).vector_size,
    {
        self.enable_codegen = enable;
    }

    /// Stores the requested vector width. Any value is stored; widths other
    /// than 3 and 4 are rejected at validation, before any compilation.
    pub fn set_vector_size(&mut self, size: usize)
        ensures
            final(self).vector_size == size,
            final(self).out_dir == old(self).out_dir,
            final(self).target == old(self).target,
            final(self).host == old(self).host,
            final(self).max_cstack_size == old(self).max_cstack_size,
            final(self).use_longjmp == old(self).use_longjmp,
            final(self).enable_codegen == old(self).enable_codegen,
    {
        self.vector_size = size;
    }

    /// Fills each still-unset required field from the given ambient value.
    /// The caller reads the process environment once, at its edge, and hands
    /// the values in; an explicitly set field is never overwritten.
    pub fn fill_defaults(
        &mut self,
        target: Option<String>,
        host: Option<String>,
        out_dir: Option<String>,
    )
        ensures
            final(self).target == (if old(self).target is Some { old(self).target } else { target }),
            final(self).host == (if old(self).host is Some { old(self).host } else { host }),
            final(self).out_dir == (if old(self).out_dir is Some { old(self).out_dir } else { out_dir }),
            final(self).max_cstack_size == old(self).max_cstack_size,
            final(self).use_longjmp == old(self).use_longjmp,
            final(self).enable_codegen == old(self).enable_codegen,
            final(self).vector_size == old(self).vector_size,
    {
        if self.target.is_none() {
            self.target = target;
        }
        if self.host.is_none() {
            self.host = host;
        }
        if self.out_dir.is_none() {
            self.out_dir = out_dir;
        }
    }
}

} // verus!

//! The configuration that the core recognises.

use vstd::prelude::*;

verus! {

/// Switches and pattern sets that steer naming, hiding and deriving.
#[derive(Debug, Clone)]
pub struct Options {
    /// Emit namespaces as modules; modules then contribute to paths.
    pub enable_cxx_namespaces: bool,
    /// With namespaces disabled, leave namespace names out of canonical names.
    pub disable_name_namespacing: bool,
    /// Keep inline namespaces in paths instead of collapsing them.
    pub conservative_inline_namespaces: bool,
    /// Master switch for deriving `Debug`.
    pub derive_debug: bool,
    /// Master switch for deriving `Default`.
    pub derive_default: bool,
    /// Patterns of the paths of items to hide.
    pub hidden_types: Vec<String>,
    /// Patterns of the paths of items to treat as opaque.
    pub opaque_types: Vec<String>,
}

impl Options {
    /// The defaults: no namespaces, `Debug` derived, nothing hidden or opaque.
    pub fn new() -> (r: Self)
        ensures
            !r.enable_cxx_namespaces,
            !r.disable_name_namespacing,
            !r.conservative_inline_namespaces,
            r.derive_debug,
            !r.derive_default,
            r.hidden_types@.len() == 0,
            r.opaque_types@.len() == 0,
    {
        Options {
            enable_cxx_namespaces: false,
            disable_name_namespacing: false,
            conservative_inline_namespaces: false,
            derive_debug: true,
            derive_default: false,
            hidden_types: Vec::new(),
            opaque_types: Vec::new(),
        }
    }
}

} // verus!

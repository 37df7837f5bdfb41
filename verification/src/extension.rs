//! The editor extension of the language.
use vstd::prelude::*;

verus! {

/// The extension of the language for the Zed editor; it holds no state.
#[derive(Debug, Clone, Copy, PartialEq, Eq, Structural)]
pub struct TydExtension {}

impl TydExtension {
    /// The extension.
    pub fn new() -> (r: Self)
        ensures
            r == (TydExtension {}),
    {
        TydExtension {}
    }
}

} // verus!

//! Where a rendered document goes.
use vstd::prelude::*;

verus! {

/// The destination of a rendered document: a file at a path, or the standard output.
#[derive(Debug, Clone, PartialEq, Eq, PartialOrd, Ord)]
pub enum Output {
    File(String),
    Stdout,
}

} // verus!

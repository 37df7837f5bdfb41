//! TypeDown: a small markup language, easily embeddable and extendable.
//!
//! The library holds the character classes of the language, its syntax tree, the
//! grammar of markup and of the embedded code language with its parsers,
//! diagnostics, sources, typed views of the tree, and the value model of the
//! renderer with the checking of command arguments.

pub mod chars;
pub mod eco;
pub mod kind;
pub mod node;
pub mod bytes;
pub mod scan;
pub mod parser;
pub mod error;
pub mod source;
pub mod render;
pub mod ast;
pub mod terminal;
pub mod util;
pub mod extension;

use vstd::prelude::*;

verus! {

/// The phase of processing in which the elements of a document carry the spans of
/// the source they come from.
#[derive(Clone, Copy, Debug)]
pub struct LocationPhase;

} // verus!

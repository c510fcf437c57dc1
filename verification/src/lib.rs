//! A stylesheet lexer and parser: source text in a brace-delimited or an
//! indentation-sensitive syntax is turned into an asset mapping selector
//! paths to the rules declared under them.

use vstd::prelude::*;

pub mod num;
pub mod text;
pub mod lex;
pub mod preproc;
pub mod asset;
pub mod traits;
pub mod media;
pub mod cli;
pub mod md;

verus! {

/// Where a piece of input comes from: a file on disk (named by its path) or
/// a buffer already in memory.
pub enum Source {
    File(String),
    Memory(Vec<u8>),
}

} // verus!

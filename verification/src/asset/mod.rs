//! Parsed assets: stylesheets and the names they are known by.

use vstd::prelude::*;

pub mod style;

verus! {

/// How an asset is named: explicitly, by its file name, or not at all.
#[derive(Debug, Clone, PartialEq)]
pub enum AssetName {
    Empty,
    Str(String),
    FileName,
}

} // verus!

//! Metadata passes: what is fetched for items, and when.

use vstd::prelude::*;

verus! {

/// How far below an item a metadata pass reaches.
#[derive(Clone, Copy, Debug, PartialEq, Eq, Structural)]
pub enum PassDepth {
    /// Of a series, the series alone.
    Root,
    /// Everything below the item, too.
    Tree,
}

/// How the metadata of items is fetched and stored.
#[derive(Clone, Copy, Debug, PartialEq, Eq, Structural)]
pub struct MetaPass {
    pub depth: PassDepth,
    /// Whether metadata that is stored already is fetched again.
    pub force: bool,
}

} // verus!

//! The per-attempt record of one selected layer.

use vstd::prelude::*;

verus! {

/// One selected candidate for one category within one token attempt.
///
/// `value` is the trait value shown in metadata, derived from the file's
/// base name without its extension; `path` is the full source path, which
/// is what uniqueness is keyed on.
#[derive(Debug)]
pub struct LayerChoice {
    pub path: String,
    pub trait_type: String,
    pub value: String,
}

} // verus!

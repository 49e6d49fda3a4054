//! Configuration data for a generation run: how many tokens to produce,
//! where outputs go, the ordered trait categories with their rarity tables,
//! and the forbidden trait pairs.

use vstd::prelude::*;

verus! {

/// Top-level settings for one generation run.
#[derive(Debug)]
pub struct Config {
    /// How many tokens to generate; token ids run from 1 to `count`.
    pub count: u32,
    pub output: OutputConfig,
    pub metadata: MetadataConfig,
    /// Trait categories in declaration order; this order is also the
    /// compositing order, bottom layer first.
    pub layers: Vec<LayerConfig>,
    pub constraints: Option<ConstraintsConfig>,
}

/// Where rendered images and metadata records are written.
#[derive(Debug)]
pub struct OutputConfig {
    pub image_dir: String,
    pub metadata_dir: String,
    pub png_compression: Option<PngCompressionConfig>,
}

/// Optional lossless recompression of the written images.
#[derive(Debug)]
pub struct PngCompressionConfig {
    pub enabled: bool,
    pub level: u8,
}

/// Templates for the per-token metadata records.
#[derive(Debug)]
pub struct MetadataConfig {
    pub base_image_url: String,
    pub name: String,
    pub description: String,
}

/// One trait category: its name, the directory its candidate images come
/// from, and an optional rarity table over the candidate file names.
#[derive(Debug)]
pub struct LayerConfig {
    pub name: String,
    pub directory: String,
    pub rarity: Option<RarityTable>,
}

/// Relative selection weights for the candidate files of one category.
///
/// Weights are positive integers; only their ratios matter. A file whose
/// name has no entry in `entries` gets `default_weight`, the weight that
/// stands for one unit of rarity in this table's scale.
#[derive(Debug)]
pub struct RarityTable {
    pub entries: Vec<RarityEntry>,
    pub default_weight: u64,
}

/// The weight assigned to one candidate file name.
#[derive(Debug)]
pub struct RarityEntry {
    pub file_name: String,
    pub weight: u64,
}

/// Optional mutual-exclusion rules.
#[derive(Debug)]
pub struct ConstraintsConfig {
    pub forbidden_pairs: Option<Vec<ForbiddenPair>>,
}

/// An unordered pair of trait facts that must not co-occur in one token.
#[derive(Debug)]
pub struct ForbiddenPair {
    pub a: TraitValue,
    pub b: TraitValue,
}

/// One trait fact: a category name together with a value in that category.
#[derive(Debug)]
pub struct TraitValue {
    pub trait_type: String,
    pub value: String,
}

} // verus!

//! A generator core for unique layered image tokens: weighted-random
//! selection of one candidate per trait category, forbidden-pair
//! constraints, a uniqueness ledger keyed on the chosen source files,
//! exact integer alpha compositing of the layer stack, and the bounded
//! per-token attempt loop that ties them together.

pub mod assembler;
pub mod choice;
pub mod config;
pub mod compose;
pub mod constraints;
pub mod ledger;
pub mod metadata;
pub mod paths;
pub mod rng;
pub mod sampler;

//! Profiles tabular, column-oriented datasets into a structured
//! statistical and semantic summary per column: type routing, exact
//! rational statistics, a fixed-bucket histogram, a deterministic
//! content fingerprint, and email/IBAN classification of string values -
//! and compiles declarative alerting rules (any/all/not condition lists)
//! into query predicates whose match counts become alert records.

pub mod cli;
pub mod config;
pub mod error;
pub mod hash;
pub mod iban;
pub mod hist;
pub mod profile;
pub mod ratio;
pub mod rules;
pub mod semantic;
pub mod stats;
pub mod table;
pub mod transform;

use vstd::prelude::*;

verus! {

/// The fixed number of histogram buckets built for a numeric column.
pub const HISTOGRAM_BUCKETS: usize = 10;

} // verus!

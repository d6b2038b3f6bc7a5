pub mod embedding;
pub mod error;
pub mod payload;
pub mod gateway;
pub mod ingest;
pub mod laws;
pub mod llm;
pub mod query;
pub mod schema;
pub mod store;
pub mod utils;
pub mod writer;

use vstd::prelude::*;

verus! {

/// Largest number of scalar components a vector space may have.
pub const MAX_DIM: u64 = 4096;

/// Largest magnitude a single vector component may have.
pub const COMP_BOUND: i64 = 10000;

} // verus!

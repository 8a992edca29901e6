//! Device assets: fields, queries, saved definitions and their results.
use vstd::prelude::*;

pub mod assembly;
pub mod criteria;
pub mod facts;
pub mod meaning;
pub mod model;
pub mod quality;
pub mod query;
pub mod query_read;
pub mod query_result;
pub mod query_run;
pub mod query_sort;
pub mod reader;
pub mod snapshot;
pub mod store;

verus! {

} // verus!

//! The management domain: groups, scopes, policies, resources and releases.
use vstd::prelude::*;

pub mod assets;
pub mod automation;
pub mod command;
pub mod config;
pub mod configuration;
pub mod cursor;
pub mod execution;
pub mod groups;
pub mod model;
pub mod pages;
pub mod paging;
pub mod plans;
pub mod publications;
pub mod request;
pub mod resources;
pub mod scopes;
pub mod storage;

verus! {

} // verus!

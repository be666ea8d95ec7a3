//! A gateway between instant-messaging channels and agent backends: the decisions, the parsing
//! and the bookkeeping, stated and proved. Reading, writing and waiting happen around it.

use vstd::prelude::*;

pub mod acl;
pub mod admin_api;
pub mod agent;
pub mod codec;
pub mod config;
pub mod context;
pub mod error;
pub mod ids;
pub mod json;
pub mod laws;
pub mod paths;
pub mod pipeline;
pub mod platforms;
pub mod queue;
pub mod regexes;
pub mod strs;
pub mod table;
pub mod text;
pub mod types;
pub mod urls;

verus! {

} // verus!

//! Migration of Nx and Turborepo workspaces to moon.
//!
//! The library reads the source tools' settings as plain values, resolves
//! task references against a project registry, rewrites path placeholders,
//! flattens options into arguments, and merges the results into moon's
//! documents without overwriting what those documents already held.
use vstd::prelude::*;

pub mod config;
pub mod error;
pub mod json;
pub mod nx_json;
pub mod nx_migrator;
pub mod nx_task;
pub mod options;
pub mod paths;
pub mod store;
pub mod target;
pub mod text;
pub mod tokens;
pub mod turbo_json;
pub mod turbo_migrator;
pub mod validate;

verus! {

} // verus!

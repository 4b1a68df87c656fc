//! Dotfile tracking and symlink orchestration.
//!
//! The library keeps the registry of tracked files, the managed-folder
//! list and the plans of filesystem steps that move a file between its
//! original location and a managed folder. Performing the steps (and
//! persisting the registry) is left to the caller.
use vstd::prelude::*;

pub mod collector;
pub mod commands;
pub mod config;
pub mod dotfile;
pub mod orchestrator;
pub mod pack_paths;
pub mod laws;
pub mod path_utils;
pub mod plan;
pub mod registry;
pub mod text;
pub mod utils;

verus! {

} // verus!

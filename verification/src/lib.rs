//! Verified core of a portable GitHub release manager.
use vstd::prelude::*;

pub mod assets;
pub mod checksum;
pub mod config;
pub mod desktop;
pub mod extract;
pub mod features;
pub mod flow;
pub mod history;
pub mod install;
pub mod paths;
pub mod plan;
pub mod profiles;
pub mod prune;
pub mod release;
pub mod reports;
pub mod retry;
pub mod schedule;
pub mod self_update;
pub mod state;
pub mod store;
pub mod text;
pub mod update;
pub mod versions;

verus! {

} // verus!

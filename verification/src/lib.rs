//! Skill management for AI agent applications: the manifests of installed
//! skills, the store index, install-state synchronisation records, agent
//! discovery and the plan of skill links, with their rules proved.
use vstd::prelude::*;

pub mod clock;
pub mod contracts;
pub mod domain;
pub mod local_fs_repo;
pub mod manifest_parser;
pub mod skill_service;
pub mod skills_state;
pub mod sorting;
pub mod sync_service;
pub mod text;
pub mod turso_repo;
pub mod views;

verus! {

} // verus!

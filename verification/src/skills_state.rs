//! The state the user interface keeps between pages.
use vstd::prelude::*;

use crate::domain::SkillDTO;
use crate::domain::SkillInstallRecord;
use crate::domain::SkillRemoteIndex;

verus! {

/// The installed skills, the store index and the synchronisation records
/// last loaded, with the last synchronisation status.
#[derive(Debug, Clone, PartialEq)]
pub struct SkillsState {
    pub installed: Vec<SkillDTO>,
    pub store_index: Vec<SkillRemoteIndex>,
    pub sync_records: Vec<SkillInstallRecord>,
    pub sync_status: Option<String>,
}

impl Default for SkillsState {
    /// Nothing loaded yet.
    fn default() -> (r: Self)
        ensures
            r.installed@.len() == 0,
            r.store_index@.len() == 0,
            r.sync_records@.len() == 0,
            r.sync_status is None,
    {
        SkillsState {
            installed: Vec::new(),
            store_index: Vec::new(),
            sync_records: Vec::new(),
            sync_status: None,
        }
    }
}

} // verus!

//! The interfaces a skill manager, a store and a synchronisation backend
//! offer, for implementations supplied by the application.
use vstd::prelude::*;

use crate::domain::SkillDTO;
use crate::domain::SkillInstallRecord;
use crate::domain::SkillManifest;
use crate::domain::SkillRemoteIndex;

verus! {

/// Manages the skills installed on this machine.
pub trait SkillManager {
    fn list_installed(&self) -> Result<Vec<SkillDTO>, String>;

    fn install(&self, skill_id: String, version: Option<String>) -> Result<SkillDTO, String>;

    fn uninstall(&self, skill_id: String) -> Result<(), String>;

    fn update_manifest(&self, skill_id: String, manifest: SkillManifest) -> Result<SkillDTO, String>;
}

/// Offers the store index of installable skills.
pub trait StoreProvider {
    fn refresh_index(&self) -> Result<Vec<SkillRemoteIndex>, String>;

    fn get_index(&self) -> Result<Vec<SkillRemoteIndex>, String>;
}

/// Keeps install records in step with a remote backend.
pub trait SyncProvider {
    fn push_install_record(&self, record: SkillInstallRecord) -> Result<SkillInstallRecord, String>;

    fn list_install_records(&self) -> Result<Vec<SkillInstallRecord>, String>;
}

} // verus!

//! The install record pushed to the synchronisation backend when a skill's
//! install state changes.
use vstd::prelude::*;

use crate::clock::is_timestamp_text;
use crate::clock::now_rfc3339;
use crate::domain::InstallRecordModel;
use crate::domain::SkillInstallRecord;
use crate::domain::SkillInstallState;

verus! {

/// The record pushed for a user, skill, version and state at time `now`:
/// always at sync version 1.
pub open spec fn pushed_record(
    user_id: Seq<char>,
    skill_id: Seq<char>,
    installed_version: Seq<char>,
    install_state: crate::domain::InstallStateModel,
    now: Seq<char>,
) -> InstallRecordModel {
    InstallRecordModel {
        user_id,
        skill_id,
        installed_version,
        install_state,
        sync_version: 1,
        last_synced_at: now,
    }
}

/// The record to push, with `now` as the current time.
pub fn push_install_state_at(
    user_id: String,
    skill_id: String,
    installed_version: String,
    install_state: SkillInstallState,
    now: String,
) -> (r: SkillInstallRecord)
    ensures
        r@ == pushed_record(user_id@, skill_id@, installed_version@, install_state@, now@),
        r@.last_synced_at == now@,
        r@.sync_version == 1,
        r@.user_id == user_id@,
        r@.skill_id == skill_id@,
        r@.installed_version == installed_version@,
        r@.install_state == install_state@,
{
    SkillInstallRecord {
        user_id,
        skill_id,
        installed_version,
        install_state,
        sync_version: 1,
        last_synced_at: now,
    }
}

/// The record to push, stamped with the current time. Which reading the
/// clock gave is not stated: a clock set before the Unix epoch gives `"0"`.
pub fn push_install_state(
    user_id: String,
    skill_id: String,
    installed_version: String,
    install_state: SkillInstallState,
) -> (r: SkillInstallRecord)
    ensures
        exists|now: Seq<char>|
            is_timestamp_text(now) && r@ == #[trigger] pushed_record(
                user_id@,
                skill_id@,
                installed_version@,
                install_state@,
                now,
            ),
{
    let now = now_rfc3339();
    let ghost t = now@;
    let r = push_install_state_at(user_id, skill_id, installed_version, install_state, now);
    assert(r@ == pushed_record(r@.user_id, r@.skill_id, r@.installed_version, r@.install_state, t));
    r
}

} // verus!

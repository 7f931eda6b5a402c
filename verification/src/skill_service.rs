//! The skill services: what the user interface is shown of installed
//! skills, and the manifests that installing, toggling and editing a skill
//! store. The caller reads and writes the repository; these functions
//! decide what is shown and what is written.
use vstd::prelude::*;

pub use crate::clock::now_rfc3339;

use crate::clock::is_timestamp_text;
use crate::clock::lemma_timestamp_not_blank;
use crate::domain::InstallStateModel;
use crate::domain::ManifestModel;
use crate::domain::RemoteIndexModel;
use crate::domain::SkillDTO;
use crate::domain::SkillDtoModel;
use crate::domain::dto_result_view;
use crate::domain::SkillInstallState;
use crate::domain::SkillManifest;
use crate::domain::SkillRemoteIndex;
use crate::manifest_parser::normalize_manifest_at;
use crate::manifest_parser::normalized_manifest;
use crate::manifest_parser::normalize_manifest_is_idempotent;
use crate::manifest_parser::lemma_default_entry_not_blank;
use crate::text::is_blank_text;
use crate::text::join_texts;
use crate::text::replace_char;
use crate::text::replaced_chars;

verus! {

/// Whether the store offers a version other than the installed one (any
/// difference counts as newer).
pub open spec fn is_newer_version(current: Seq<char>, latest: Seq<char>) -> bool {
    current != latest
}

/// Whether `latest` should be offered over `current`.
pub fn version_is_newer(current: &str, latest: &str) -> (r: bool)
    ensures
        r == is_newer_version(current@, latest@),
{
    !crate::text::same_text(current, latest)
}

/// The latest version the store index gives for `id`, from its first entry
/// for that skill.
pub open spec fn remote_version_for(index: Seq<RemoteIndexModel>, id: Seq<char>) -> Option<Seq<char>>
    decreases index.len(),
{
    if index.len() == 0 {
        None
    } else if index[0].skill_id == id {
        Some(index[0].latest_version)
    } else {
        remote_version_for(index.drop_first(), id)
    }
}

/// What the user interface is shown of an installed skill: `Updating` when
/// the store offers another version, `Installed` otherwise.
pub open spec fn local_skill_view(m: ManifestModel, index: Seq<RemoteIndexModel>) -> SkillDtoModel {
    let remote = remote_version_for(index, m.id);
    SkillDtoModel {
        manifest: m,
        local_state: match remote {
            Some(latest) => if is_newer_version(m.version, latest) {
                InstallStateModel::Updating
            } else {
                InstallStateModel::Installed
            },
            None => InstallStateModel::Installed,
        },
        remote_latest_version: remote,
        sync_status: None,
    }
}

proof fn lemma_remote_version_for(index: Seq<RemoteIndexModel>, id: Seq<char>)
    ensures
        remote_version_for(index, id) matches Some(l) ==> exists|k: int|
            0 <= k < index.len() && #[trigger] index[k].skill_id == id && index[k].latest_version == l
                && forall|j: int| 0 <= j < k ==> index[j].skill_id != id,
        remote_version_for(index, id) is None ==> forall|k: int|
            0 <= k < index.len() ==> #[trigger] index[k].skill_id != id,
    decreases index.len(),
{
    if index.len() > 0 && index[0].skill_id != id {
        let t = index.drop_first();
        lemma_remote_version_for(t, id);
        if remote_version_for(t, id) is Some {
            let k = choose|k: int|
                0 <= k < t.len() && #[trigger] t[k].skill_id == id && t[k].latest_version
                    == remote_version_for(t, id)->0 && forall|j: int|
                    0 <= j < k ==> t[j].skill_id != id;
            assert(index[k + 1] == t[k]);
            assert forall|j: int| 0 <= j < k + 1 implies index[j].skill_id != id by {
                if j > 0 {
                    assert(index[j] == t[j - 1]);
                }
            }
        } else {
            assert forall|k: int| 0 <= k < index.len() implies #[trigger] index[k].skill_id != id by {
                if k > 0 {
                    assert(index[k] == t[k - 1]);
                }
            }
        }
    }
}

/// A listed skill shows the version of the first store entry for its id
/// (none when the store has no entry for it), and is `Updating` exactly
/// when that version differs from the installed one, `Installed`
/// otherwise; the manifest is shown as it is.
pub proof fn listed_skill_update_status(m: ManifestModel, index: Seq<RemoteIndexModel>)
    ensures
        ({
            let v = local_skill_view(m, index);
            &&& v.manifest == m
            &&& v.sync_status is None
            &&& (v.local_state == InstallStateModel::Updating) <==> (v.remote_latest_version is Some
                && v.remote_latest_version->0 != m.version)
            &&& v.local_state == InstallStateModel::Updating || v.local_state
                == InstallStateModel::Installed
            &&& v.remote_latest_version matches Some(l) ==> exists|k: int|
                0 <= k < index.len() && #[trigger] index[k].skill_id == m.id && index[k].latest_version
                    == l && forall|j: int| 0 <= j < k ==> index[j].skill_id != m.id
            &&& v.remote_latest_version is None ==> forall|k: int|
                0 <= k < index.len() ==> #[trigger] index[k].skill_id != m.id
        }),
{
    lemma_remote_version_for(index, m.id);
}

/// The store index a listing uses: the index read, or none at all when it
/// could not be read.
pub open spec fn index_or_empty(index: Result<Vec<SkillRemoteIndex>, String>) -> Seq<
    RemoteIndexModel,
> {
    match index {
        Ok(list) => list.deep_view(),
        Err(_) => Seq::empty(),
    }
}

fn find_remote_version(index: &Vec<SkillRemoteIndex>, id: &String) -> (r: Option<String>)
    ensures
        r.deep_view() == remote_version_for(index.deep_view(), id@),
{
    let mut i: usize = 0;
    assert(index.deep_view().skip(0) =~= index.deep_view());
    while i < index.len()
        invariant
            i <= index.len(),
            remote_version_for(index.deep_view(), id@) == remote_version_for(
                index.deep_view().skip(i as int),
                id@,
            ),
        decreases index.len() - i,
    {
        proof {
            assert(index.deep_view().skip(i as int).drop_first() =~= index.deep_view().skip(i + 1));
            assert(index.deep_view().skip(i as int)[0] == index@[i as int]@);
        }
        if index[i].skill_id == *id {
            return Some(index[i].latest_version.clone());
        }
        i = i + 1;
    }
    None
}

/// The installed skills as the user interface lists them, given the
/// manifests found and the store index (or the error reading it).
pub fn list_local_skills(
    manifests: Vec<SkillManifest>,
    store_index: Result<Vec<SkillRemoteIndex>, String>,
) -> (r: Vec<SkillDTO>)
    ensures
        r.deep_view() == manifests.deep_view().map_values(
            |m: ManifestModel| local_skill_view(m, index_or_empty(store_index)),
        ),
        r.deep_view().len() == manifests.deep_view().len(),
        forall|i: int|
            0 <= i < r.deep_view().len() ==> {
                let v = #[trigger] r.deep_view()[i];
                &&& v.manifest == manifests.deep_view()[i]
                &&& (v.local_state == InstallStateModel::Updating) <==> (v.remote_latest_version is Some
                    && v.remote_latest_version->0 != v.manifest.version)
                &&& v.local_state == InstallStateModel::Updating || v.local_state
                    == InstallStateModel::Installed
            },
{
    let index = match store_index {
        Ok(list) => list,
        Err(_) => Vec::new(),
    };
    let ghost iv = index_or_empty(store_index);
    assert(index.deep_view() =~= iv);
    let ghost view = |m: ManifestModel| local_skill_view(m, iv);
    let ghost mv = manifests.deep_view();
    let mut rest = manifests;
    let mut out: Vec<SkillDTO> = Vec::new();
    while rest.len() > 0
        invariant
            index.deep_view() == iv,
            view == (|m: ManifestModel| local_skill_view(m, iv)),
            rest.len() <= mv.len(),
            rest.deep_view() == mv.skip(mv.len() - rest.len()),
            out.deep_view() =~= mv.take(mv.len() - rest.len()).map_values(view),
        decreases rest.len(),
    {
        let ghost k = mv.len() - rest.len();
        let ghost before = rest.deep_view();
        let manifest = rest.remove(0);
        proof {
            assert(rest.deep_view() =~= before.drop_first());
            assert(mv.skip(k + 1) =~= mv.skip(k).drop_first());
            assert(manifest@ == before[0]);
            assert(mv.skip(k)[0] == mv[k]);
            assert(manifest@ == mv[k]);
        }
        let remote = find_remote_version(&index, &manifest.id);
        let local_state = match &remote {
            Some(latest) => if version_is_newer(manifest.version.as_str(), latest.as_str()) {
                SkillInstallState::Updating
            } else {
                SkillInstallState::Installed
            },
            None => SkillInstallState::Installed,
        };
        let dto = SkillDTO { manifest, local_state, remote_latest_version: remote, sync_status: None };
        let ghost dv = dto@;
        let ghost prev = out.deep_view();
        out.push(dto);
        proof {
            assert(dv == view(mv[k]));
            assert(out.deep_view() =~= prev.push(dv));
            assert(mv.take(k + 1).map_values(view) =~= mv.take(k).map_values(view).push(view(mv[k])));
        }
    }
    assert(mv.take(mv.len() as int) =~= mv);
    proof {
        assert forall|i: int| 0 <= i < out.deep_view().len() implies {
            let v = #[trigger] out.deep_view()[i];
            &&& v.manifest == mv[i]
            &&& (v.local_state == InstallStateModel::Updating) <==> (v.remote_latest_version is Some
                && v.remote_latest_version->0 != v.manifest.version)
            &&& v.local_state == InstallStateModel::Updating || v.local_state
                == InstallStateModel::Installed
        } by {
            listed_skill_update_status(mv[i], iv);
        }
    }
    out
}

/// What the user interface is shown of a skill read from the repository.
pub open spec fn fetched_skill_view(m: ManifestModel) -> SkillDtoModel {
    SkillDtoModel {
        manifest: m,
        local_state: InstallStateModel::Installed,
        remote_latest_version: None,
        sync_status: None,
    }
}

/// The skill as the user interface shows it, given the manifest read for
/// it (`None` when it is not installed).
pub fn get_local_skill(manifest: Option<SkillManifest>) -> (r: Option<SkillDTO>)
    ensures
        r.deep_view() == match manifest.deep_view() {
            Some(m) => Some(fetched_skill_view(m)),
            None => None,
        },
{
    match manifest {
        Some(manifest) => Some(
            SkillDTO {
                manifest,
                local_state: SkillInstallState::Installed,
                remote_latest_version: None,
                sync_status: None,
            },
        ),
        None => None,
    }
}

/// The skill view after a write of `m`, tagged with the status `status`.
pub open spec fn saved_skill_view(m: ManifestModel, status: Seq<char>) -> SkillDtoModel {
    SkillDtoModel {
        manifest: m,
        local_state: InstallStateModel::Installed,
        remote_latest_version: None,
        sync_status: Some(status),
    }
}

/// The manifest a fresh install writes for `id`: named after the id with
/// dashes turned into spaces, at the requested version or 0.1.0, entry
/// `main`, the default prompt and the file-system capability, enabled, and
/// stamped `now`.
pub open spec fn fresh_manifest(id: Seq<char>, version: Option<Seq<char>>, now: Seq<char>) -> ManifestModel {
    ManifestModel {
        id,
        name: replaced_chars(id, '-', ' '),
        version: match version {
            Some(v) => v,
            None => "0.1.0"@,
        },
        entry: "main"@,
        prompts: seq!["default_prompt"@],
        required_capabilities: seq!["filesystem"@],
        enabled: true,
        updated_at: now,
    }
}

/// What installing `id` at `version` stores and shows, at time `now`.
pub open spec fn installed_skill_view(id: Seq<char>, version: Option<Seq<char>>, now: Seq<char>) -> SkillDtoModel {
    saved_skill_view(normalized_manifest(fresh_manifest(id, version, now), now), "local_saved"@)
}

fn single_text(s: &str) -> (r: Vec<String>)
    ensures
        r.deep_view() == seq![s@],
{
    let mut v: Vec<String> = Vec::new();
    v.push(String::from_str(s));
    assert(v.deep_view() =~= seq![s@]);
    v
}

/// The skill that installing `skill_id` at `requested_version` stores (its
/// `manifest`) and shows, with `now` as the current time.
pub fn install_skill_at(skill_id: String, requested_version: Option<String>, now: String) -> (r: SkillDTO)
    ensures
        r@ == installed_skill_view(skill_id@, requested_version.deep_view(), now@),
        r@.manifest.updated_at == now@,
        r@.manifest.id == skill_id@,
        r@.manifest.enabled,
{
    proof {
        install_stamps_install_time(skill_id@, requested_version.deep_view(), now@);
    }
    let version = match requested_version {
        Some(v) => v,
        None => String::from_str("0.1.0"),
    };
    let name = replace_char(skill_id.as_str(), '-', ' ');
    let manifest = SkillManifest {
        id: skill_id,
        name,
        version,
        entry: String::from_str("main"),
        prompts: single_text("default_prompt"),
        required_capabilities: single_text("filesystem"),
        enabled: true,
        updated_at: now.clone(),
    };
    let manifest = normalize_manifest_at(manifest, now);
    SkillDTO {
        manifest,
        local_state: SkillInstallState::Installed,
        remote_latest_version: None,
        sync_status: Some(String::from_str("local_saved")),
    }
}

/// The skill that installing `skill_id` at `requested_version` stores (its
/// `manifest`) and shows, stamped with the current time. Which reading the
/// clock gave is not stated: a clock set before the Unix epoch gives `"0"`.
pub fn install_skill(skill_id: String, requested_version: Option<String>) -> (r: SkillDTO)
    ensures
        exists|now: Seq<char>|
            is_timestamp_text(now) && r@ == #[trigger] installed_skill_view(
                skill_id@,
                requested_version.deep_view(),
                now,
            ),
{
    let now = now_rfc3339();
    let ghost t = now@;
    let r = install_skill_at(skill_id, requested_version, now);
    assert(r@ == installed_skill_view(skill_id@, requested_version.deep_view(), t));
    r
}

/// The error text for a skill that is not installed.
pub open spec fn not_found_message(id: Seq<char>) -> Seq<char> {
    "skill_not_found: "@ + id
}

/// What toggling a skill stores and shows, at time `now`: the stored
/// manifest with its flag set and its timestamp renewed, or the not-found
/// error when nothing is stored.
pub open spec fn toggled_skill_view(
    id: Seq<char>,
    enabled: bool,
    existing: Option<ManifestModel>,
    now: Seq<char>,
) -> Result<SkillDtoModel, Seq<char>> {
    match existing {
        None => Err(not_found_message(id)),
        Some(m) => Ok(saved_skill_view(ManifestModel { enabled, updated_at: now, ..m }, "toggled"@)),
    }
}

/// What toggling `skill_id` stores (the `manifest` of the result) and
/// shows, given the manifest read for it, with `now` as the current time.
pub fn set_skill_enabled_at(
    skill_id: String,
    enabled: bool,
    existing: Option<SkillManifest>,
    now: String,
) -> (r: Result<SkillDTO, String>)
    ensures
        dto_result_view(r) == toggled_skill_view(skill_id@, enabled, existing.deep_view(), now@),
        r is Ok <==> existing is Some,
        r matches Ok(v) ==> v@.manifest.updated_at == now@ && v@.manifest.enabled == enabled,
{
    proof {
        toggle_stamps_toggle_time(skill_id@, enabled, existing.deep_view(), now@);
    }
    match existing {
        None => Err(join_texts("skill_not_found: ", skill_id.as_str())),
        Some(manifest) => {
            let mut manifest = manifest;
            manifest.enabled = enabled;
            manifest.updated_at = now;
            Ok(
                SkillDTO {
                    manifest,
                    local_state: SkillInstallState::Installed,
                    remote_latest_version: None,
                    sync_status: Some(String::from_str("toggled")),
                },
            )
        },
    }
}

/// What toggling `skill_id` stores and shows, given the manifest read for
/// it; the clock is read only when the skill is installed.
pub fn set_skill_enabled(skill_id: String, enabled: bool, existing: Option<SkillManifest>) -> (r:
    Result<SkillDTO, String>)
    ensures
        exists|now: Seq<char>|
            is_timestamp_text(now) && dto_result_view(r) == #[trigger] toggled_skill_view(
                skill_id@,
                enabled,
                existing.deep_view(),
                now,
            ),
{
    let now = match &existing {
        Some(_) => now_rfc3339(),
        None => crate::clock::format_unix_seconds(None),
    };
    let ghost t = now@;
    let r = set_skill_enabled_at(skill_id, enabled, existing, now);
    assert(dto_result_view(r) == toggled_skill_view(skill_id@, enabled, existing.deep_view(), t));
    r
}

/// What saving an edited manifest stores and shows, at time `now`: an
/// error when it names another skill, otherwise the manifest stamped `now`
/// and normalised.
pub open spec fn edited_skill_view(id: Seq<char>, updated: ManifestModel, now: Seq<char>) -> Result<
    SkillDtoModel,
    Seq<char>,
> {
    if id != updated.id {
        Err("skill_id_mismatch"@)
    } else {
        Ok(
            saved_skill_view(
                normalized_manifest(ManifestModel { updated_at: now, ..updated }, now),
                "manifest_updated"@,
            ),
        )
    }
}

/// What saving the edited manifest `updated` of `skill_id` stores and
/// shows, with `now` as the current time.
pub fn update_skill_manifest_at(skill_id: String, updated: SkillManifest, now: String) -> (r: Result<
    SkillDTO,
    String,
>)
    ensures
        dto_result_view(r) == edited_skill_view(skill_id@, updated@, now@),
        r is Ok <==> skill_id@ == updated@.id,
        r matches Ok(v) ==> v@.manifest.updated_at == now@,
{
    proof {
        editing_stamps_the_edit_time(skill_id@, updated@, now@);
    }
    if skill_id != updated.id {
        return Err(String::from_str("skill_id_mismatch"));
    }
    let mut manifest = updated;
    manifest.updated_at = now.clone();
    let normalized = normalize_manifest_at(manifest, now);
    Ok(
        SkillDTO {
            manifest: normalized,
            local_state: SkillInstallState::Installed,
            remote_latest_version: None,
            sync_status: Some(String::from_str("manifest_updated")),
        },
    )
}

/// What saving the edited manifest `updated` of `skill_id` stores and
/// shows; the clock is read only when the ids agree.
pub fn update_skill_manifest(skill_id: String, updated: SkillManifest) -> (r: Result<SkillDTO, String>)
    ensures
        exists|now: Seq<char>|
            is_timestamp_text(now) && dto_result_view(r) == #[trigger] edited_skill_view(
                skill_id@,
                updated@,
                now,
            ),
{
    let now = if skill_id == updated.id {
        now_rfc3339()
    } else {
        crate::clock::format_unix_seconds(None)
    };
    let ghost t = now@;
    let r = update_skill_manifest_at(skill_id, updated, now);
    assert(dto_result_view(r) == edited_skill_view(skill_id@, updated@, t));
    r
}

/// An install stores the manifest stamped with the time of the install:
/// the skill's id, its name with every dash turned into a space, the
/// requested version or 0.1.0, entry `main`, the default prompt, the
/// file-system capability, enabled; it is shown as installed and saved.
pub proof fn install_stamps_install_time(id: Seq<char>, version: Option<Seq<char>>, now: Seq<char>)
    ensures
        ({
            let v = installed_skill_view(id, version, now);
            &&& v.manifest.updated_at == now
            &&& v.manifest.id == id
            &&& v.manifest.name.len() == id.len()
            &&& forall|i: int|
                0 <= i < id.len() ==> #[trigger] v.manifest.name[i] == if id[i] == '-' {
                    ' '
                } else {
                    id[i]
                }
            &&& v.manifest.version == match version {
                Some(x) => x,
                None => "0.1.0"@,
            }
            &&& v.manifest.entry == "main"@
            &&& v.manifest.prompts == seq!["default_prompt"@]
            &&& v.manifest.required_capabilities == seq!["filesystem"@]
            &&& v.manifest.enabled
            &&& v.local_state == InstallStateModel::Installed
            &&& v.remote_latest_version is None
            &&& v.sync_status == Some("local_saved"@)
        }),
{
    lemma_default_entry_not_blank();
}

/// Toggling fails with `skill_not_found: <id>` exactly when nothing is
/// stored; otherwise the stored manifest comes back with the flag set and
/// stamped with the time of the toggle, everything else unchanged.
pub proof fn toggle_stamps_toggle_time(
    id: Seq<char>,
    enabled: bool,
    existing: Option<ManifestModel>,
    now: Seq<char>,
)
    ensures
        (toggled_skill_view(id, enabled, existing, now) is Err) <==> existing is None,
        toggled_skill_view(id, enabled, existing, now) matches Err(e) ==> e == "skill_not_found: "@
            + id,
        toggled_skill_view(id, enabled, existing, now) matches Ok(v) ==> {
            let m = existing->0;
            &&& v.manifest.updated_at == now
            &&& v.manifest.enabled == enabled
            &&& v.manifest.id == m.id
            &&& v.manifest.name == m.name
            &&& v.manifest.version == m.version
            &&& v.manifest.entry == m.entry
            &&& v.manifest.prompts == m.prompts
            &&& v.manifest.required_capabilities == m.required_capabilities
            &&& v.local_state == InstallStateModel::Installed
            &&& v.remote_latest_version is None
            &&& v.sync_status == Some("toggled"@)
        },
{
}

/// Saving an edit fails with `skill_id_mismatch` exactly when the manifest
/// names another skill; otherwise it stores the edited manifest stamped
/// with the time of the edit (whatever timestamp the edit carried), with a
/// blank entry replaced by `main`, and every other field as edited.
pub proof fn editing_stamps_the_edit_time(id: Seq<char>, updated: ManifestModel, now: Seq<char>)
    ensures
        (edited_skill_view(id, updated, now) is Err) <==> id != updated.id,
        edited_skill_view(id, updated, now) matches Err(e) ==> e == "skill_id_mismatch"@,
        edited_skill_view(id, updated, now) matches Ok(v) ==> {
            &&& v.manifest.updated_at == now
            &&& v.manifest.id == updated.id
            &&& v.manifest.name == updated.name
            &&& v.manifest.version == updated.version
            &&& v.manifest.entry == if is_blank_text(updated.entry) {
                "main"@
            } else {
                updated.entry
            }
            &&& v.manifest.prompts == updated.prompts
            &&& v.manifest.required_capabilities == updated.required_capabilities
            &&& v.manifest.enabled == updated.enabled
            &&& v.local_state == InstallStateModel::Installed
            &&& v.remote_latest_version is None
            &&& v.sync_status == Some("manifest_updated"@)
        },
{
}

} // verus!

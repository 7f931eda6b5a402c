use aiman::clock::{format_unix_seconds, now_rfc3339};
use aiman::domain::{SkillDTO, SkillInstallState, SkillManifest, SkillRemoteIndex};
use aiman::manifest_parser::{normalize_manifest, normalize_manifest_at};
use aiman::skill_service::{
    get_local_skill, install_skill, install_skill_at, list_local_skills, set_skill_enabled,
    set_skill_enabled_at, update_skill_manifest, update_skill_manifest_at, version_is_newer,
};
use aiman::skills_state::SkillsState;

fn manifest(id: &str, name: &str, version: &str) -> SkillManifest {
    SkillManifest {
        id: id.to_string(),
        name: name.to_string(),
        version: version.to_string(),
        entry: "run".to_string(),
        prompts: vec!["p".to_string()],
        required_capabilities: vec!["filesystem".to_string()],
        enabled: true,
        updated_at: "5".to_string(),
    }
}

fn remote(id: &str, version: &str) -> SkillRemoteIndex {
    SkillRemoteIndex {
        skill_id: id.to_string(),
        latest_version: version.to_string(),
        download_url: format!("builtin://{}", id),
        checksum: "local-dev".to_string(),
        published_at: "2026-01-01T00:00:00Z".to_string(),
    }
}

#[test]
fn timestamps() {
    assert_eq!(format_unix_seconds(Some(1700000000)), "1700000000");
    assert_eq!(format_unix_seconds(Some(0)), "0");
    assert_eq!(format_unix_seconds(None), "0");
    let now = now_rfc3339();
    assert!(!now.is_empty());
    assert!(now.chars().all(|c| c.is_ascii_digit()));
}

#[test]
fn normalize_fills_blank_fields() {
    let mut m = manifest("a", "A", "1");
    m.entry = "  ".to_string();
    m.updated_at = String::new();
    let n = normalize_manifest_at(m.clone(), "99".to_string());
    assert_eq!(n.entry, "main");
    assert_eq!(n.updated_at, "99");
    assert_eq!(n.id, m.id);
    assert_eq!(n.prompts, m.prompts);
}

#[test]
fn normalize_keeps_filled_fields() {
    let m = manifest("a", "A", "1");
    assert_eq!(normalize_manifest_at(m.clone(), "99".to_string()), m);
    assert_eq!(normalize_manifest(m.clone()), m);
}

#[test]
fn normalize_twice_is_normalize_once() {
    let mut m = manifest("a", "A", "1");
    m.entry = "\t".to_string();
    m.updated_at = " ".to_string();
    let once = normalize_manifest_at(m, "42".to_string());
    let twice = normalize_manifest_at(once.clone(), "43".to_string());
    assert_eq!(once, twice);
    let stamped = normalize_manifest(manifest("b", "B", "1"));
    assert_eq!(stamped.updated_at, "5");
}

#[test]
fn normalize_reads_clock_when_blank() {
    let mut m = manifest("a", "A", "1");
    m.updated_at = String::new();
    let n = normalize_manifest(m);
    assert!(!n.updated_at.is_empty());
    assert!(n.updated_at.chars().all(|c| c.is_ascii_digit()));
}

#[test]
fn newer_means_different() {
    assert!(version_is_newer("0.1.0", "0.2.0"));
    assert!(version_is_newer("0.2.0", "0.1.0"));
    assert!(!version_is_newer("0.1.0", "0.1.0"));
}

#[test]
fn listing_marks_updates() {
    let manifests = vec![manifest("a", "A", "1"), manifest("b", "B", "1"), manifest("c", "C", "1")];
    let index = vec![remote("a", "2"), remote("b", "1"), remote("a", "1")];
    let out = list_local_skills(manifests.clone(), Ok(index));
    assert_eq!(out.len(), 3);
    assert_eq!(out[0].local_state, SkillInstallState::Updating);
    assert_eq!(out[0].remote_latest_version, Some("2".to_string()));
    assert_eq!(out[1].local_state, SkillInstallState::Installed);
    assert_eq!(out[1].remote_latest_version, Some("1".to_string()));
    assert_eq!(out[2].local_state, SkillInstallState::Installed);
    assert_eq!(out[2].remote_latest_version, None);
    for (dto, m) in out.iter().zip(manifests.iter()) {
        assert_eq!(&dto.manifest, m);
        assert_eq!(dto.sync_status, None);
    }
}

#[test]
fn listing_without_store_index() {
    let out = list_local_skills(vec![manifest("a", "A", "1")], Err("no cache".to_string()));
    assert_eq!(out[0].local_state, SkillInstallState::Installed);
    assert_eq!(out[0].remote_latest_version, None);
    assert!(list_local_skills(Vec::new(), Ok(Vec::new())).is_empty());
}

#[test]
fn getting_a_skill() {
    assert_eq!(get_local_skill(None), None);
    let m = manifest("a", "A", "1");
    assert_eq!(
        get_local_skill(Some(m.clone())),
        Some(SkillDTO {
            manifest: m,
            local_state: SkillInstallState::Installed,
            remote_latest_version: None,
            sync_status: None
        })
    );
}

#[test]
fn installing_builds_manifest() {
    let dto = install_skill_at("code-review-helper".to_string(), None, "1700".to_string());
    assert_eq!(
        dto.manifest,
        SkillManifest {
            id: "code-review-helper".to_string(),
            name: "code review helper".to_string(),
            version: "0.1.0".to_string(),
            entry: "main".to_string(),
            prompts: vec!["default_prompt".to_string()],
            required_capabilities: vec!["filesystem".to_string()],
            enabled: true,
            updated_at: "1700".to_string(),
        }
    );
    assert_eq!(dto.local_state, SkillInstallState::Installed);
    assert_eq!(dto.remote_latest_version, None);
    assert_eq!(dto.sync_status, Some("local_saved".to_string()));
    let v = install_skill_at("x".to_string(), Some("2.0.0".to_string()), "1".to_string());
    assert_eq!(v.manifest.version, "2.0.0");
    let live = install_skill("summarizer".to_string(), None);
    assert!(live.manifest.updated_at.chars().all(|c| c.is_ascii_digit()));
}

#[test]
fn toggling() {
    let err = set_skill_enabled_at("ghost".to_string(), true, None, "1".to_string());
    assert_eq!(err, Err("skill_not_found: ghost".to_string()));
    let dto = set_skill_enabled_at("a".to_string(), false, Some(manifest("a", "A", "1")), "77".to_string()).unwrap();
    assert!(!dto.manifest.enabled);
    assert_eq!(dto.manifest.updated_at, "77");
    assert_eq!(dto.manifest.name, "A");
    assert_eq!(dto.sync_status, Some("toggled".to_string()));
    assert_eq!(set_skill_enabled("ghost".to_string(), true, None), Err("skill_not_found: ghost".to_string()));
    let live = set_skill_enabled("a".to_string(), true, Some(manifest("a", "A", "1"))).unwrap();
    assert!(live.manifest.enabled);
}

#[test]
fn editing() {
    let err = update_skill_manifest_at("a".to_string(), manifest("b", "B", "1"), "1".to_string());
    assert_eq!(err, Err("skill_id_mismatch".to_string()));
    assert_eq!(update_skill_manifest("a".to_string(), manifest("b", "B", "1")), Err("skill_id_mismatch".to_string()));
    let mut m = manifest("a", "Renamed", "1");
    m.entry = String::new();
    m.updated_at = String::new();
    let dto = update_skill_manifest_at("a".to_string(), m, "88".to_string()).unwrap();
    assert_eq!(dto.manifest.entry, "main");
    assert_eq!(dto.manifest.updated_at, "88");
    assert_eq!(dto.manifest.name, "Renamed");
    assert_eq!(dto.sync_status, Some("manifest_updated".to_string()));
    assert_eq!(dto.local_state, SkillInstallState::Installed);
}

#[test]
fn empty_ui_state() {
    let s = SkillsState::default();
    assert!(s.installed.is_empty() && s.store_index.is_empty() && s.sync_records.is_empty());
    assert_eq!(s.sync_status, None);
}

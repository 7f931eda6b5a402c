use aiman::domain::{SkillInstallRecord, SkillInstallState};
use aiman::sync_service::{push_install_state, push_install_state_at};
use aiman::turso_repo::{decode_state, encode_state, sync_backend_status, upsert_install_record};

fn record(user: &str, skill: &str, version: &str) -> SkillInstallRecord {
    SkillInstallRecord {
        user_id: user.to_string(),
        skill_id: skill.to_string(),
        installed_version: version.to_string(),
        install_state: SkillInstallState::Installed,
        sync_version: 1,
        last_synced_at: "100".to_string(),
    }
}

#[test]
fn state_texts() {
    assert_eq!(encode_state(&SkillInstallState::NotInstalled), "NotInstalled");
    assert_eq!(encode_state(&SkillInstallState::Installing), "Installing");
    assert_eq!(encode_state(&SkillInstallState::Installed), "Installed");
    assert_eq!(encode_state(&SkillInstallState::Updating), "Updating");
    assert_eq!(encode_state(&SkillInstallState::Error("disk full".to_string())), "Error:disk full");
}

#[test]
fn decoding_stored_texts() {
    assert_eq!(decode_state("Updating".to_string()), SkillInstallState::Updating);
    assert_eq!(decode_state("Error:boom".to_string()), SkillInstallState::Error("boom".to_string()));
    assert_eq!(
        decode_state("Error:Error:twice".to_string()),
        SkillInstallState::Error("Error:twice".to_string())
    );
    assert_eq!(decode_state("weird".to_string()), SkillInstallState::Error("weird".to_string()));
    assert_eq!(decode_state("installed".to_string()), SkillInstallState::Error("installed".to_string()));
}

#[test]
fn decode_after_encode_gives_back_state() {
    let states = vec![
        SkillInstallState::NotInstalled,
        SkillInstallState::Installing,
        SkillInstallState::Installed,
        SkillInstallState::Updating,
        SkillInstallState::Error(String::new()),
        SkillInstallState::Error("Installed".to_string()),
        SkillInstallState::Error("Error:x".to_string()),
    ];
    for s in states {
        assert_eq!(decode_state(encode_state(&s)), s);
    }
}

#[test]
fn encode_after_decode() {
    assert_eq!(encode_state(&decode_state("Error:x".to_string())), "Error:x");
    assert_eq!(encode_state(&decode_state("Installing".to_string())), "Installing");
    assert_eq!(encode_state(&decode_state("odd".to_string())), "Error:odd");
}

#[test]
fn push_replaces_same_user_and_skill() {
    let records = vec![record("u1", "a", "1"), record("u1", "b", "1"), record("u2", "a", "1")];
    let out = upsert_install_record(&records, record("u1", "a", "2"));
    assert_eq!(out, vec![record("u1", "b", "1"), record("u2", "a", "1"), record("u1", "a", "2")]);
    let read: Vec<_> = out.iter().filter(|r| r.user_id == "u1" && r.skill_id == "a").collect();
    assert_eq!(read, vec![&record("u1", "a", "2")]);
}

#[test]
fn push_into_empty_store() {
    let out = upsert_install_record(&Vec::new(), record("u", "s", "1"));
    assert_eq!(out, vec![record("u", "s", "1")]);
}

#[test]
fn push_drops_every_earlier_copy() {
    let records = vec![record("u", "s", "1"), record("u", "s", "2"), record("v", "s", "1")];
    let out = upsert_install_record(&records, record("u", "s", "3"));
    assert_eq!(out, vec![record("v", "s", "1"), record("u", "s", "3")]);
}

#[test]
fn backend_names() {
    assert_eq!(sync_backend_status(true), "remote_turso");
    assert_eq!(sync_backend_status(false), "fallback_local_file");
}

#[test]
fn pushed_record_fields() {
    let r = push_install_state_at(
        "demo-user".to_string(),
        "summarizer".to_string(),
        "0.1.0".to_string(),
        SkillInstallState::Installed,
        "1700000000".to_string(),
    );
    assert_eq!(
        r,
        SkillInstallRecord {
            user_id: "demo-user".to_string(),
            skill_id: "summarizer".to_string(),
            installed_version: "0.1.0".to_string(),
            install_state: SkillInstallState::Installed,
            sync_version: 1,
            last_synced_at: "1700000000".to_string(),
        }
    );
    let now = push_install_state("u".to_string(), "s".to_string(), "1".to_string(), SkillInstallState::Updating);
    assert_eq!(now.sync_version, 1);
    assert!(now.last_synced_at.parse::<u64>().is_ok());
}

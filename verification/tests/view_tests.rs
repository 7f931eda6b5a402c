use aiman::domain::{AgentSettingsDTO, SkillInstallRecord, SkillInstallState};
use aiman::local_fs_repo::{get_agent_settings, save_agent_settings, AgentDiscoverySettings};
use aiman::text::trim_text;
use aiman::views::{install_state_badge, records_for_skill, split_csv};

fn std_split_csv(input: &str) -> Vec<String> {
    input.split(',').map(|item| item.trim().to_string()).filter(|item| !item.is_empty()).collect()
}

#[test]
fn csv_lists() {
    assert_eq!(split_csv("opencode, cline"), vec!["opencode".to_string(), "cline".to_string()]);
    assert_eq!(split_csv(""), Vec::<String>::new());
    assert_eq!(split_csv(" , ,,"), Vec::<String>::new());
    assert_eq!(split_csv("a,,b , c "), vec!["a".to_string(), "b".to_string(), "c".to_string()]);
    for s in ["x", ",x", "x,", " prompt_a ,prompt_b", "\u{3000}a\u{a0},b", "a b,c d", ",,,"] {
        assert_eq!(split_csv(s), std_split_csv(s), "for {:?}", s);
    }
}

#[test]
fn trimming_matches_std() {
    for s in ["", " ", " a ", "\t\na b\r\n", "\u{2003}x\u{2003}", "abc"] {
        assert_eq!(trim_text(s), s.trim());
    }
}

#[test]
fn badges() {
    assert_eq!(install_state_badge(&SkillInstallState::NotInstalled), "NotInstalled");
    assert_eq!(install_state_badge(&SkillInstallState::Installing), "Installing");
    assert_eq!(install_state_badge(&SkillInstallState::Installed), "Installed");
    assert_eq!(install_state_badge(&SkillInstallState::Updating), "Updating");
    assert_eq!(install_state_badge(&SkillInstallState::Error("boom".to_string())), "Error");
}

fn rec(user: &str, skill: &str) -> SkillInstallRecord {
    SkillInstallRecord {
        user_id: user.to_string(),
        skill_id: skill.to_string(),
        installed_version: "1".to_string(),
        install_state: SkillInstallState::Installed,
        sync_version: 1,
        last_synced_at: "1".to_string(),
    }
}

#[test]
fn records_of_one_skill() {
    let records = vec![rec("u1", "a"), rec("u2", "b"), rec("u3", "a")];
    assert_eq!(records_for_skill(&records, &"a".to_string()), vec![rec("u1", "a"), rec("u3", "a")]);
    assert!(records_for_skill(&records, &"z".to_string()).is_empty());
}

#[test]
fn settings_page_data() {
    let s = AgentDiscoverySettings { whitelist: vec!["a".to_string()], blacklist: vec!["b".to_string()] };
    let dto = get_agent_settings(s.clone(), None);
    assert_eq!(
        dto,
        AgentSettingsDTO {
            agents_registry_json: "[]".to_string(),
            whitelist: vec!["a".to_string()],
            blacklist: vec!["b".to_string()]
        }
    );
    let dto2 = get_agent_settings(s.clone(), Some("[{}]".to_string()));
    assert_eq!(dto2.agents_registry_json, "[{}]");
    let (json, saved) = save_agent_settings(dto2);
    assert_eq!(json, "[{}]");
    assert_eq!(saved, s);
}

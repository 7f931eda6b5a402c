use aiman::domain::{AgentAppDTO, SkillManifest};
use aiman::local_fs_repo::{
    agent_owned_link_name, allow_app, default_store_index, discover_agent_registrations,
    is_listed_skill_dir, list_agent_apps, list_skill_manifests, refresh_store_index_cache, removal_for,
    scan_home_entry, synchronize_skill_links, synchronize_skill_links_for_app, AgentDirEntry,
    AgentDiscoverySettings, AgentLinkSet, AgentRegistration, EntryRemoval, HomeEntry,
};

fn settings(white: &[&str], black: &[&str]) -> AgentDiscoverySettings {
    AgentDiscoverySettings {
        whitelist: white.iter().map(|s| s.to_string()).collect(),
        blacklist: black.iter().map(|s| s.to_string()).collect(),
    }
}

fn reg(name: &str, dir: &str) -> AgentRegistration {
    AgentRegistration { app_name: name.to_string(), skills_dir: dir.to_string() }
}

fn home(name: &str, has_skills: bool) -> HomeEntry {
    HomeEntry {
        name: Some(name.to_string()),
        is_dir: true,
        skills_dir: format!("/home/me/{}/skills", name),
        has_skills_dir: has_skills,
    }
}

fn manifest(id: &str, name: &str) -> SkillManifest {
    SkillManifest {
        id: id.to_string(),
        name: name.to_string(),
        version: "1".to_string(),
        entry: "main".to_string(),
        prompts: Vec::new(),
        required_capabilities: Vec::new(),
        enabled: true,
        updated_at: "1".to_string(),
    }
}

#[test]
fn allow_lists() {
    assert!(allow_app(&settings(&[], &[]), "opencode"));
    assert!(!allow_app(&settings(&[], &["opencode"]), "opencode"));
    assert!(!allow_app(&settings(&["opencode"], &["opencode"]), "opencode"));
    assert!(allow_app(&settings(&["opencode"], &[]), "opencode"));
    assert!(!allow_app(&settings(&["cline"], &[]), "opencode"));
    assert!(allow_app(&AgentDiscoverySettings::default(), "x"));
}

#[test]
fn scanning_home_entries() {
    let s = settings(&[], &["blocked"]);
    assert_eq!(scan_home_entry(&s, &home(".opencode", true)), Some(reg("opencode", "/home/me/.opencode/skills")));
    assert_eq!(scan_home_entry(&s, &home("..cline", true)), Some(reg("cline", "/home/me/..cline/skills")));
    assert_eq!(scan_home_entry(&s, &home(".opencode", false)), None);
    assert_eq!(scan_home_entry(&s, &home(".aiman", true)), None);
    assert_eq!(scan_home_entry(&s, &home("opencode", true)), None);
    assert_eq!(scan_home_entry(&s, &home("...", true)), None);
    assert_eq!(scan_home_entry(&s, &home(".blocked", true)), None);
    let mut file = home(".opencode", true);
    file.is_dir = false;
    assert_eq!(scan_home_entry(&s, &file), None);
    let mut unnamed = home(".opencode", true);
    unnamed.name = None;
    assert_eq!(scan_home_entry(&s, &unnamed), None);
}

#[test]
fn discovery_sorts_filters_and_dedups() {
    let s = settings(&[], &["blocked"]);
    let registry = vec![reg("zed", "/z"), reg("blocked", "/b"), reg("opencode", "/home/me/.opencode/skills")];
    let entries = vec![home(".opencode", true), home(".cline", true), home(".blocked", true), home(".aiman", true)];
    let out = discover_agent_registrations(&s, Some(registry), &entries);
    assert_eq!(
        out,
        vec![reg("cline", "/home/me/.cline/skills"), reg("opencode", "/home/me/.opencode/skills"), reg("zed", "/z")]
    );
}

#[test]
fn discovery_keeps_same_name_with_other_dir() {
    let s = settings(&[], &[]);
    let registry = vec![reg("opencode", "/custom"), reg("opencode", "/home/me/.opencode/skills")];
    let out = discover_agent_registrations(&s, Some(registry), &vec![home(".opencode", true)]);
    assert_eq!(
        out,
        vec![reg("opencode", "/custom"), reg("opencode", "/home/me/.opencode/skills")]
    );
    let none = discover_agent_registrations(&s, None, &Vec::new());
    assert!(none.is_empty());
}

#[test]
fn discovery_with_whitelist() {
    let s = settings(&["cline"], &[]);
    let out = discover_agent_registrations(&s, None, &vec![home(".opencode", true), home(".cline", true)]);
    assert_eq!(out, vec![reg("cline", "/home/me/.cline/skills")]);
}

#[test]
fn apps_for_the_ui() {
    assert_eq!(
        list_agent_apps(vec![reg("a", "/a")]),
        vec![AgentAppDTO { app_name: "a".to_string(), skills_dir: "/a".to_string() }]
    );
}

#[test]
fn link_plans() {
    let apps = vec![reg("cline", "/c"), reg("opencode", "/o")];
    let ids = vec!["s1".to_string(), "s2".to_string()];
    assert_eq!(
        synchronize_skill_links(&apps, &ids),
        vec![
            AgentLinkSet { skills_dir: "/c".to_string(), skill_ids: ids.clone() },
            AgentLinkSet { skills_dir: "/o".to_string(), skill_ids: ids.clone() },
        ]
    );
    assert_eq!(
        synchronize_skill_links_for_app("opencode", &apps, &ids),
        vec![AgentLinkSet { skills_dir: "/o".to_string(), skill_ids: ids.clone() }]
    );
    assert!(synchronize_skill_links_for_app("none", &apps, &ids).is_empty());
}

#[test]
fn agent_owned_links() {
    let entry = AgentDirEntry { name: Some("create-skill".to_string()), inside_skills_root: false, is_dir: true, has_manifest: true };
    assert_eq!(agent_owned_link_name("opencode", &entry), Some("opencode-create-skill".to_string()));
    let mut linked = entry.clone();
    linked.inside_skills_root = true;
    assert_eq!(agent_owned_link_name("opencode", &linked), None);
    let mut no_manifest = entry.clone();
    no_manifest.has_manifest = false;
    assert_eq!(agent_owned_link_name("opencode", &no_manifest), None);
    let mut file = entry.clone();
    file.is_dir = false;
    assert_eq!(agent_owned_link_name("opencode", &file), None);
    let mut unnamed = entry;
    unnamed.name = None;
    assert_eq!(agent_owned_link_name("opencode", &unnamed), None);
}

#[test]
fn removals() {
    assert_eq!(removal_for(true, false), EntryRemoval::Directory);
    assert_eq!(removal_for(true, true), EntryRemoval::File);
    assert_eq!(removal_for(false, false), EntryRemoval::File);
    assert_eq!(removal_for(false, true), EntryRemoval::File);
}

#[test]
fn listed_dirs() {
    assert!(!is_listed_skill_dir("_aiman_managed"));
    assert!(is_listed_skill_dir("summarizer"));
    assert!(is_listed_skill_dir(""));
}

#[test]
fn manifests_sorted_by_name_stably() {
    let found = vec![manifest("1", "beta"), manifest("2", "Alpha"), manifest("3", "alpha"), manifest("4", "beta"), manifest("5", "")];
    let out = list_skill_manifests(found);
    let ids: Vec<&str> = out.iter().map(|m| m.id.as_str()).collect();
    assert_eq!(ids, vec!["5", "2", "3", "1", "4"]);
}

#[test]
fn store_index() {
    let d = default_store_index();
    assert_eq!(d.len(), 2);
    assert_eq!(d[0].skill_id, "summarizer");
    assert_eq!(d[0].latest_version, "0.1.0");
    assert_eq!(d[0].download_url, "builtin://summarizer");
    assert_eq!(d[0].checksum, "local-dev");
    assert_eq!(d[0].published_at, "2026-01-01T00:00:00Z");
    assert_eq!(d[1].skill_id, "translator");
    assert_eq!(d[1].download_url, "builtin://translator");
    assert_eq!(refresh_store_index_cache(None), d);
    assert_eq!(refresh_store_index_cache(Some(Vec::new())), Vec::new());
}

//! The skill domain: manifests, store index entries, install states and
//! records, and what the user interface is handed. Each type has a view
//! made of plain mathematical values, over which the contracts speak.
use vstd::prelude::*;

verus! {

/// Where a skill stands on this machine.
pub enum InstallStateModel {
    NotInstalled,
    Installing,
    Installed,
    Updating,
    Error(Seq<char>),
}

#[derive(Debug, Clone, PartialEq, Eq)]
pub enum SkillInstallState {
    NotInstalled,
    Installing,
    Installed,
    Updating,
    Error(String),
}

impl View for SkillInstallState {
    type V = InstallStateModel;

    open spec fn view(&self) -> InstallStateModel {
        match self {
            SkillInstallState::NotInstalled => InstallStateModel::NotInstalled,
            SkillInstallState::Installing => InstallStateModel::Installing,
            SkillInstallState::Installed => InstallStateModel::Installed,
            SkillInstallState::Updating => InstallStateModel::Updating,
            SkillInstallState::Error(msg) => InstallStateModel::Error(msg@),
        }
    }
}

impl DeepView for SkillInstallState {
    type V = InstallStateModel;

    open spec fn deep_view(&self) -> InstallStateModel {
        self@
    }
}

impl SkillInstallState {
    /// A copy with the same view.
    pub fn duplicate(&self) -> (r: Self)
        ensures
            r@ == self@,
    {
        match self {
            SkillInstallState::NotInstalled => SkillInstallState::NotInstalled,
            SkillInstallState::Installing => SkillInstallState::Installing,
            SkillInstallState::Installed => SkillInstallState::Installed,
            SkillInstallState::Updating => SkillInstallState::Updating,
            SkillInstallState::Error(msg) => SkillInstallState::Error(msg.clone()),
        }
    }
}

/// A copy of a list of texts.
pub fn copy_texts(v: &Vec<String>) -> (r: Vec<String>)
    ensures
        r.deep_view() == v.deep_view(),
{
    let mut out: Vec<String> = Vec::new();
    let mut i: usize = 0;
    while i < v.len()
        invariant
            i <= v.len(),
            out@.len() == i,
            out.deep_view() =~= v.deep_view().take(i as int),
        decreases v.len() - i,
    {
        let item = v[i].clone();
        out.push(item);
        proof {
            assert(out@[i as int]@ == v@[i as int]@);
            assert(out.deep_view() =~= v.deep_view().take(i + 1));
        }
        i = i + 1;
    }
    assert(v.deep_view().take(v.len() as int) =~= v.deep_view());
    out
}

/// What a skill manifest says.
pub struct ManifestModel {
    pub id: Seq<char>,
    pub name: Seq<char>,
    pub version: Seq<char>,
    pub entry: Seq<char>,
    pub prompts: Seq<Seq<char>>,
    pub required_capabilities: Seq<Seq<char>>,
    pub enabled: bool,
    pub updated_at: Seq<char>,
}

#[derive(Debug, Clone, PartialEq, Eq)]
pub struct SkillManifest {
    pub id: String,
    pub name: String,
    pub version: String,
    pub entry: String,
    pub prompts: Vec<String>,
    pub required_capabilities: Vec<String>,
    pub enabled: bool,
    pub updated_at: String,
}

impl View for SkillManifest {
    type V = ManifestModel;

    open spec fn view(&self) -> ManifestModel {
        ManifestModel {
            id: self.id@,
            name: self.name@,
            version: self.version@,
            entry: self.entry@,
            prompts: self.prompts.deep_view(),
            required_capabilities: self.required_capabilities.deep_view(),
            enabled: self.enabled,
            updated_at: self.updated_at@,
        }
    }
}

impl DeepView for SkillManifest {
    type V = ManifestModel;

    open spec fn deep_view(&self) -> ManifestModel {
        self@
    }
}

impl SkillManifest {
    /// A copy with the same view.
    pub fn duplicate(&self) -> (r: Self)
        ensures
            r@ == self@,
    {
        SkillManifest {
            id: self.id.clone(),
            name: self.name.clone(),
            version: self.version.clone(),
            entry: self.entry.clone(),
            prompts: copy_texts(&self.prompts),
            required_capabilities: copy_texts(&self.required_capabilities),
            enabled: self.enabled,
            updated_at: self.updated_at.clone(),
        }
    }
}

/// What the store index says of one skill.
pub struct RemoteIndexModel {
    pub skill_id: Seq<char>,
    pub latest_version: Seq<char>,
    pub download_url: Seq<char>,
    pub checksum: Seq<char>,
    pub published_at: Seq<char>,
}

#[derive(Debug, Clone, PartialEq, Eq)]
pub struct SkillRemoteIndex {
    pub skill_id: String,
    pub latest_version: String,
    pub download_url: String,
    pub checksum: String,
    pub published_at: String,
}

impl View for SkillRemoteIndex {
    type V = RemoteIndexModel;

    open spec fn view(&self) -> RemoteIndexModel {
        RemoteIndexModel {
            skill_id: self.skill_id@,
            latest_version: self.latest_version@,
            download_url: self.download_url@,
            checksum: self.checksum@,
            published_at: self.published_at@,
        }
    }
}

impl DeepView for SkillRemoteIndex {
    type V = RemoteIndexModel;

    open spec fn deep_view(&self) -> RemoteIndexModel {
        self@
    }
}

/// What a synchronised install record says.
pub struct InstallRecordModel {
    pub user_id: Seq<char>,
    pub skill_id: Seq<char>,
    pub installed_version: Seq<char>,
    pub install_state: InstallStateModel,
    pub sync_version: i64,
    pub last_synced_at: Seq<char>,
}

#[derive(Debug, Clone, PartialEq, Eq)]
pub struct SkillInstallRecord {
    pub user_id: String,
    pub skill_id: String,
    pub installed_version: String,
    pub install_state: SkillInstallState,
    pub sync_version: i64,
    pub last_synced_at: String,
}

impl View for SkillInstallRecord {
    type V = InstallRecordModel;

    open spec fn view(&self) -> InstallRecordModel {
        InstallRecordModel {
            user_id: self.user_id@,
            skill_id: self.skill_id@,
            installed_version: self.installed_version@,
            install_state: self.install_state@,
            sync_version: self.sync_version,
            last_synced_at: self.last_synced_at@,
        }
    }
}

impl DeepView for SkillInstallRecord {
    type V = InstallRecordModel;

    open spec fn deep_view(&self) -> InstallRecordModel {
        self@
    }
}

impl SkillInstallRecord {
    /// A copy with the same view.
    pub fn duplicate(&self) -> (r: Self)
        ensures
            r@ == self@,
    {
        SkillInstallRecord {
            user_id: self.user_id.clone(),
            skill_id: self.skill_id.clone(),
            installed_version: self.installed_version.clone(),
            install_state: self.install_state.duplicate(),
            sync_version: self.sync_version,
            last_synced_at: self.last_synced_at.clone(),
        }
    }
}

/// What the user interface is shown of one installed skill.
pub struct SkillDtoModel {
    pub manifest: ManifestModel,
    pub local_state: InstallStateModel,
    pub remote_latest_version: Option<Seq<char>>,
    pub sync_status: Option<Seq<char>>,
}

#[derive(Debug, Clone, PartialEq, Eq)]
pub struct SkillDTO {
    pub manifest: SkillManifest,
    pub local_state: SkillInstallState,
    pub remote_latest_version: Option<String>,
    pub sync_status: Option<String>,
}

impl View for SkillDTO {
    type V = SkillDtoModel;

    open spec fn view(&self) -> SkillDtoModel {
        SkillDtoModel {
            manifest: self.manifest@,
            local_state: self.local_state@,
            remote_latest_version: self.remote_latest_version.deep_view(),
            sync_status: self.sync_status.deep_view(),
        }
    }
}

impl DeepView for SkillDTO {
    type V = SkillDtoModel;

    open spec fn deep_view(&self) -> SkillDtoModel {
        self@
    }
}

/// The view of a service result: the shown skill, or the error text.
pub open spec fn dto_result_view(r: Result<SkillDTO, String>) -> Result<SkillDtoModel, Seq<char>> {
    match r {
        Ok(d) => Ok(d@),
        Err(e) => Err(e@),
    }
}

/// An agent application and the directory it reads skills from.
pub struct AgentAppModel {
    pub app_name: Seq<char>,
    pub skills_dir: Seq<char>,
}

#[derive(Debug, Clone, PartialEq, Eq)]
pub struct AgentAppDTO {
    pub app_name: String,
    pub skills_dir: String,
}

impl View for AgentAppDTO {
    type V = AgentAppModel;

    open spec fn view(&self) -> AgentAppModel {
        AgentAppModel { app_name: self.app_name@, skills_dir: self.skills_dir@ }
    }
}

impl DeepView for AgentAppDTO {
    type V = AgentAppModel;

    open spec fn deep_view(&self) -> AgentAppModel {
        self@
    }
}

/// The agent discovery settings as the user edits them: the raw registry
/// file and the two name lists.
#[derive(Debug, Clone, PartialEq, Eq)]
pub struct AgentSettingsDTO {
    pub agents_registry_json: String,
    pub whitelist: Vec<String>,
    pub blacklist: Vec<String>,
}

} // verus!

//! The decisions of the local skill repository: which agent applications
//! are discovered and allowed, which skill links a rebuild makes, which
//! directory entries are listed, how an existing link target is removed,
//! and the built-in store index. The file system itself is read and
//! written by the caller, which hands the observations in.
use vstd::prelude::*;

use crate::domain::AgentAppDTO;
use crate::domain::AgentSettingsDTO;
use crate::domain::AgentAppModel;
use crate::domain::RemoteIndexModel;
use crate::domain::SkillManifest;
use crate::domain::ManifestModel;
use crate::domain::SkillRemoteIndex;
use crate::domain::copy_texts;
use crate::sorting::SortKey;
use crate::sorting::dedup_adjacent;
use crate::sorting::sort_by_key;
use crate::sorting::sort_items;
use crate::sorting::lemma_contains_push;
use crate::sorting::sorted_by_key;
use crate::sorting::sort_by_key_sorts;
use crate::sorting::dedup_adjacent_properties;
use crate::sorting::dedup_adjacent_keeps_sorted;
use crate::text::join_texts;
use crate::text::same_text;
use crate::text::starts_with_char;
use crate::text::trim_leading;
use crate::text::trim_leading_char;

verus! {

/// An agent application found by discovery: its name and skills directory.
#[derive(Debug, Clone, PartialEq, Eq)]
pub struct AgentRegistration {
    pub app_name: String,
    pub skills_dir: String,
}

impl View for AgentRegistration {
    type V = AgentAppModel;

    open spec fn view(&self) -> AgentAppModel {
        AgentAppModel { app_name: self.app_name@, skills_dir: self.skills_dir@ }
    }
}

impl DeepView for AgentRegistration {
    type V = AgentAppModel;

    open spec fn deep_view(&self) -> AgentAppModel {
        self@
    }
}

impl SortKey for AgentRegistration {
    open spec fn key_of(v: AgentAppModel) -> Seq<char> {
        v.app_name
    }

    fn sort_key(&self) -> (r: &str) {
        self.app_name.as_str()
    }
}

impl AgentRegistration {
    /// A copy with the same view.
    pub fn duplicate(&self) -> (r: Self)
        ensures
            r@ == self@,
    {
        AgentRegistration { app_name: self.app_name.clone(), skills_dir: self.skills_dir.clone() }
    }
}

impl SortKey for SkillManifest {
    open spec fn key_of(v: ManifestModel) -> Seq<char> {
        v.name
    }

    fn sort_key(&self) -> (r: &str) {
        self.name.as_str()
    }
}

/// What the discovery settings say.
pub struct DiscoverySettingsModel {
    pub whitelist: Seq<Seq<char>>,
    pub blacklist: Seq<Seq<char>>,
}

/// The names of agent applications that discovery may or may not list.
#[derive(Debug, Clone, PartialEq, Eq)]
pub struct AgentDiscoverySettings {
    pub whitelist: Vec<String>,
    pub blacklist: Vec<String>,
}

impl View for AgentDiscoverySettings {
    type V = DiscoverySettingsModel;

    open spec fn view(&self) -> DiscoverySettingsModel {
        DiscoverySettingsModel {
            whitelist: self.whitelist.deep_view(),
            blacklist: self.blacklist.deep_view(),
        }
    }
}

impl Default for AgentDiscoverySettings {
    fn default() -> (r: Self)
        ensures
            r@.whitelist.len() == 0,
            r@.blacklist.len() == 0,
    {
        AgentDiscoverySettings { whitelist: Vec::new(), blacklist: Vec::new() }
    }
}

/// The settings page's data: the registry file's text (`[]` when the file
/// is missing) and the two name lists of the discovery settings.
pub fn get_agent_settings(settings: AgentDiscoverySettings, registry_json: Option<String>) -> (r:
    AgentSettingsDTO)
    ensures
        r.agents_registry_json@ == match registry_json {
            Some(t) => t@,
            None => "[]"@,
        },
        r.whitelist.deep_view() == settings@.whitelist,
        r.blacklist.deep_view() == settings@.blacklist,
{
    let registry = match registry_json {
        Some(t) => t,
        None => String::from_str("[]"),
    };
    AgentSettingsDTO {
        agents_registry_json: registry,
        whitelist: settings.whitelist,
        blacklist: settings.blacklist,
    }
}

/// What saving the settings page writes: the registry file's text as
/// given, and the discovery settings made of the two name lists.
pub fn save_agent_settings(settings: AgentSettingsDTO) -> (r: (String, AgentDiscoverySettings))
    ensures
        r.0@ == settings.agents_registry_json@,
        r.1@.whitelist == settings.whitelist.deep_view(),
        r.1@.blacklist == settings.blacklist.deep_view(),
{
    (
        settings.agents_registry_json,
        AgentDiscoverySettings { whitelist: settings.whitelist, blacklist: settings.blacklist },
    )
}

/// Whether `texts` holds `s`.
pub fn contains_text(texts: &Vec<String>, s: &str) -> (r: bool)
    ensures
        r == texts.deep_view().contains(s@),
{
    let mut i: usize = 0;
    while i < texts.len()
        invariant
            i <= texts.len(),
            forall|k: int| 0 <= k < i ==> texts.deep_view()[k] != s@,
        decreases texts.len() - i,
    {
        if same_text(texts[i].as_str(), s) {
            assert(texts.deep_view()[i as int] == s@);
            return true;
        }
        i = i + 1;
    }
    false
}

/// Whether the settings let discovery list the application `app_name`: never
/// when it is blacklisted, always when the whitelist is empty, and otherwise
/// only when it is whitelisted.
pub open spec fn app_allowed(settings: DiscoverySettingsModel, app_name: Seq<char>) -> bool {
    if settings.blacklist.contains(app_name) {
        false
    } else if settings.whitelist.len() == 0 {
        true
    } else {
        settings.whitelist.contains(app_name)
    }
}

/// Whether discovery may list the application `app_name`.
pub fn allow_app(settings: &AgentDiscoverySettings, app_name: &str) -> (r: bool)
    ensures
        r == app_allowed(settings@, app_name@),
{
    if contains_text(&settings.blacklist, app_name) {
        return false;
    }
    if settings.whitelist.len() == 0 {
        return true;
    }
    contains_text(&settings.whitelist, app_name)
}

/// The name of the library's own directory in the home directory.
pub open spec fn own_dir_name() -> Seq<char> {
    ".aiman"@
}

/// What the caller saw of one entry of the home directory.
pub struct HomeEntryModel {
    pub name: Option<Seq<char>>,
    pub is_dir: bool,
    pub skills_dir: Seq<char>,
    pub has_skills_dir: bool,
}

/// One entry of the home directory: its name (`None` when it is not valid
/// UTF-8), whether it is a directory, the path of the `skills` directory
/// inside it, and whether that path is an existing directory.
#[derive(Debug, Clone, PartialEq, Eq)]
pub struct HomeEntry {
    pub name: Option<String>,
    pub is_dir: bool,
    pub skills_dir: String,
    pub has_skills_dir: bool,
}

impl View for HomeEntry {
    type V = HomeEntryModel;

    open spec fn view(&self) -> HomeEntryModel {
        HomeEntryModel {
            name: self.name.deep_view(),
            is_dir: self.is_dir,
            skills_dir: self.skills_dir@,
            has_skills_dir: self.has_skills_dir,
        }
    }
}

impl DeepView for HomeEntry {
    type V = HomeEntryModel;

    open spec fn deep_view(&self) -> HomeEntryModel {
        self@
    }
}

/// The application that a home directory entry stands for: a hidden
/// directory other than the library's own, named after the directory with
/// its leading dots removed, allowed by the settings, and holding a
/// `skills` directory.
pub open spec fn scanned_app(settings: DiscoverySettingsModel, e: HomeEntryModel) -> Option<
    AgentAppModel,
> {
    if !e.is_dir {
        None
    } else {
        match e.name {
            None => None,
            Some(name) => {
                if !(name.len() > 0 && name[0] == '.') || name == own_dir_name() {
                    None
                } else {
                    let app_name = trim_leading(name, '.');
                    if app_name.len() == 0 || !app_allowed(settings, app_name) || !e.has_skills_dir {
                        None
                    } else {
                        Some(AgentAppModel { app_name, skills_dir: e.skills_dir })
                    }
                }
            },
        }
    }
}

/// The application that a home directory entry stands for, if any.
pub fn scan_home_entry(settings: &AgentDiscoverySettings, entry: &HomeEntry) -> (r: Option<
    AgentRegistration,
>)
    ensures
        r.deep_view() == scanned_app(settings@, entry@),
{
    if !entry.is_dir {
        return None;
    }
    let name = match &entry.name {
        Some(n) => n,
        None => {
            return None;
        },
    };
    if !starts_with_char(name.as_str(), '.') || same_text(name.as_str(), ".aiman") {
        return None;
    }
    let app_name = trim_leading_char(name.as_str(), '.');
    if app_name.unicode_len() == 0 {
        return None;
    }
    if !allow_app(settings, app_name.as_str()) {
        return None;
    }
    if !entry.has_skills_dir {
        return None;
    }
    Some(AgentRegistration { app_name, skills_dir: entry.skills_dir.clone() })
}

/// The applications the registry file lists that the settings allow.
pub open spec fn allowed_registrations(
    settings: DiscoverySettingsModel,
    registry: Seq<AgentAppModel>,
) -> Seq<AgentAppModel> {
    registry.filter(|a: AgentAppModel| app_allowed(settings, a.app_name))
}

/// What discovery yields: the allowed registry entries (when the registry
/// file could be read and parsed) followed by the applications found in the
/// home directory, sorted by name and without adjacent repeats.
pub open spec fn discovered_apps(
    settings: DiscoverySettingsModel,
    registry: Option<Seq<AgentAppModel>>,
    home: Seq<HomeEntryModel>,
) -> Seq<AgentAppModel> {
    let listed = match registry {
        Some(r) => allowed_registrations(settings, r),
        None => Seq::empty(),
    };
    let scanned = home.filter_map(|e: HomeEntryModel| scanned_app(settings, e));
    dedup_adjacent(sort_by_key(listed + scanned, |a: AgentAppModel| a.app_name))
}

/// Whether `x` is an entry of the registry file (when it was read) that
/// the settings allow.
pub open spec fn is_allowed_registry_entry(
    settings: DiscoverySettingsModel,
    registry: Option<Seq<AgentAppModel>>,
    x: AgentAppModel,
) -> bool {
    match registry {
        Some(r) => r.contains(x) && app_allowed(settings, x.app_name),
        None => false,
    }
}

/// Whether the home entry `e` is a hidden folder (other than the library's
/// own) that holds a skills directory, and `x` is the application it stands
/// for: named after the folder without its leading dots (a non-empty name
/// the settings allow), with the folder's skills directory.
pub open spec fn is_home_app_of(settings: DiscoverySettingsModel, e: HomeEntryModel, x: AgentAppModel) -> bool {
    &&& e.is_dir
    &&& e.has_skills_dir
    &&& e.name is Some
    &&& e.name->0.len() > 0
    &&& e.name->0[0] == '.'
    &&& e.name->0 != own_dir_name()
    &&& x.app_name == trim_leading(e.name->0, '.')
    &&& x.app_name.len() > 0
    &&& app_allowed(settings, x.app_name)
    &&& x.skills_dir == e.skills_dir
}

proof fn lemma_scanned_app_iff(settings: DiscoverySettingsModel, e: HomeEntryModel, x: AgentAppModel)
    ensures
        scanned_app(settings, e) == Some(x) <==> is_home_app_of(settings, e, x),
{
}

pub(crate) proof fn lemma_filter_contains_iff<A>(s: Seq<A>, p: spec_fn(A) -> bool, x: A)
    ensures
        s.filter(p).contains(x) <==> (s.contains(x) && p(x)),
    decreases s.len(),
{
    reveal(Seq::filter);
    if s.len() > 0 {
        let t = s.drop_last();
        lemma_filter_contains_iff(t, p, x);
        assert(s =~= t.push(s.last()));
        lemma_contains_push(t, s.last(), x);
        if p(s.last()) {
            lemma_contains_push(t.filter(p), s.last(), x);
        }
    }
}

proof fn lemma_filter_map_contains_iff<A, B>(s: Seq<A>, f: spec_fn(A) -> Option<B>, y: B)
    ensures
        s.filter_map(f).contains(y) <==> exists|k: int| 0 <= k < s.len() && #[trigger] f(s[k]) == Some(y),
    decreases s.len(),
{
    if s.len() > 0 {
        let t = s.drop_last();
        lemma_filter_map_contains_iff(t, f, y);
        if (exists|k: int| 0 <= k < t.len() && #[trigger] f(t[k]) == Some(y)) {
            let k = choose|k: int| 0 <= k < t.len() && #[trigger] f(t[k]) == Some(y);
            assert(s[k] == t[k]);
        }
        if (exists|k: int| 0 <= k < s.len() && #[trigger] f(s[k]) == Some(y)) {
            let k = choose|k: int| 0 <= k < s.len() && #[trigger] f(s[k]) == Some(y);
            if k < t.len() {
                assert(t[k] == s[k]);
            }
        }
        match f(s.last()) {
            Some(z) => {
                lemma_contains_push(t.filter_map(f), z, y);
                assert(t.filter_map(f) + seq![z] =~= t.filter_map(f).push(z));
            },
            None => {},
        }
    }
}

/// Discovery lists exactly the allowed registry entries and the
/// applications of hidden home folders that hold a skills directory:
/// nothing else, and none of these is left out.
pub proof fn discovery_draws_only_on_inputs(
    settings: DiscoverySettingsModel,
    registry: Option<Seq<AgentAppModel>>,
    home: Seq<HomeEntryModel>,
)
    ensures
        forall|x: AgentAppModel|
            #[trigger] discovered_apps(settings, registry, home).contains(x) <==> (
            is_allowed_registry_entry(settings, registry, x) || exists|k: int|
                0 <= k < home.len() && #[trigger] is_home_app_of(settings, home[k], x)),
{
    broadcast use vstd::seq_lib::group_to_multiset_ensures;

    let key = |a: AgentAppModel| a.app_name;
    let keep = |a: AgentAppModel| app_allowed(settings, a.app_name);
    let scan = |e: HomeEntryModel| scanned_app(settings, e);
    let listed = match registry {
        Some(r) => allowed_registrations(settings, r),
        None => Seq::<AgentAppModel>::empty(),
    };
    let scanned = home.filter_map(scan);
    let all = listed + scanned;
    let sorted = sort_by_key(all, key);
    sort_by_key_sorts(all, key);
    dedup_adjacent_properties(sorted);
    assert forall|x: AgentAppModel|
        #[trigger] discovered_apps(settings, registry, home).contains(x) <==> (
        is_allowed_registry_entry(settings, registry, x) || exists|k: int|
            0 <= k < home.len() && #[trigger] is_home_app_of(settings, home[k], x)) by {
        assert(sorted.contains(x) <==> sorted.to_multiset().count(x) > 0);
        assert(all.contains(x) <==> all.to_multiset().count(x) > 0);
        assert(all.contains(x) <==> (listed.contains(x) || scanned.contains(x))) by {
            if listed.contains(x) {
                let k = choose|k: int| 0 <= k < listed.len() && listed[k] == x;
                assert(all[k] == x);
            }
            if scanned.contains(x) {
                let k = choose|k: int| 0 <= k < scanned.len() && scanned[k] == x;
                assert(all[listed.len() + k] == x);
            }
            if all.contains(x) {
                let k = choose|k: int| 0 <= k < all.len() && all[k] == x;
                if k < listed.len() {
                    assert(listed[k] == x);
                } else {
                    assert(scanned[k - listed.len()] == x);
                }
            }
        }
        match registry {
            Some(r) => {
                lemma_filter_contains_iff(r, keep, x);
            },
            None => {},
        }
        lemma_filter_map_contains_iff(home, scan, x);
        if exists|k: int| 0 <= k < home.len() && #[trigger] scan(home[k]) == Some(x) {
            let k = choose|k: int| 0 <= k < home.len() && #[trigger] scan(home[k]) == Some(x);
            lemma_scanned_app_iff(settings, home[k], x);
        }
        if exists|k: int| 0 <= k < home.len() && #[trigger] is_home_app_of(settings, home[k], x) {
            let k = choose|k: int| 0 <= k < home.len() && #[trigger] is_home_app_of(settings, home[k], x);
            lemma_scanned_app_iff(settings, home[k], x);
            assert(scan(home[k]) == Some(x));
        }
    }
}

/// `s` without adjacent repeats.
pub fn dedup_registrations(s: Vec<AgentRegistration>) -> (r: Vec<AgentRegistration>)
    ensures
        r.deep_view() == dedup_adjacent(s.deep_view()),
{
    let mut out: Vec<AgentRegistration> = Vec::new();
    let mut i: usize = 0;
    while i < s.len()
        invariant
            i <= s.len(),
            out.deep_view() == dedup_adjacent(s.deep_view().take(i as int)),
        decreases s.len() - i,
    {
        proof {
            assert(s.deep_view().take(i + 1).drop_last() =~= s.deep_view().take(i as int));
        }
        let n = out.len();
        let repeat = n > 0 && out[n - 1].app_name == s[i].app_name && out[n - 1].skills_dir
            == s[i].skills_dir;
        if !repeat {
            out.push(s[i].duplicate());
            assert(out.deep_view() =~= dedup_adjacent(s.deep_view().take(i + 1)));
        } else {
            assert(out.deep_view().last() == out@[n - 1]@);
        }
        i = i + 1;
    }
    assert(s.deep_view().take(s.len() as int) =~= s.deep_view());
    out
}

/// Discovers agent applications from what the caller read: the registry
/// file (`None` when it is missing or does not parse) and the entries of
/// the home directory.
pub fn discover_agent_registrations(
    settings: &AgentDiscoverySettings,
    registry: Option<Vec<AgentRegistration>>,
    home: &Vec<HomeEntry>,
) -> (r: Vec<AgentRegistration>)
    ensures
        r.deep_view() == discovered_apps(settings@, registry.deep_view(), home.deep_view()),
        forall|x: AgentAppModel|
            #[trigger] r.deep_view().contains(x) <==> (is_allowed_registry_entry(
                settings@,
                registry.deep_view(),
                x,
            ) || exists|k: int|
                0 <= k < home.deep_view().len() && #[trigger] is_home_app_of(
                    settings@,
                    home.deep_view()[k],
                    x,
                )),
        sorted_by_key(r.deep_view(), |a: AgentAppModel| a.app_name),
        forall|i: int|
            0 <= i < r.deep_view().len() - 1 ==> #[trigger] r.deep_view()[i] != r.deep_view()[i
                + 1],
{
    proof {
        discovery_draws_only_on_inputs(settings@, registry.deep_view(), home.deep_view());
        discovery_respects_settings(settings@, registry.deep_view(), home.deep_view());
    }
    let ghost listed = match registry.deep_view() {
        Some(r) => allowed_registrations(settings@, r),
        None => Seq::empty(),
    };
    let ghost keep = |a: AgentAppModel| app_allowed(settings@, a.app_name);
    let ghost scan = |e: HomeEntryModel| scanned_app(settings@, e);
    let mut apps: Vec<AgentRegistration> = Vec::new();
    match registry {
        Some(list) => {
            let ghost lv = list.deep_view();
            let mut i: usize = 0;
            while i < list.len()
                invariant
                    i <= list.len(),
                    lv == list.deep_view(),
                    keep == (|a: AgentAppModel| app_allowed(settings@, a.app_name)),
                    apps.deep_view() == lv.take(i as int).filter(keep),
                decreases list.len() - i,
            {
                proof {
                    reveal(Seq::filter);
                    assert(lv.take(i + 1).drop_last() =~= lv.take(i as int));
                }
                if allow_app(settings, list[i].app_name.as_str()) {
                    apps.push(list[i].duplicate());
                    assert(apps.deep_view() =~= lv.take(i + 1).filter(keep));
                }
                i = i + 1;
            }
            assert(lv.take(lv.len() as int) =~= lv);
        },
        None => {},
    }
    assert(apps.deep_view() == listed);
    let mut j: usize = 0;
    while j < home.len()
        invariant
            j <= home.len(),
            scan == (|e: HomeEntryModel| scanned_app(settings@, e)),
            apps.deep_view() == listed + home.deep_view().take(j as int).filter_map(scan),
        decreases home.len() - j,
    {
        proof {
            assert(home.deep_view().take(j + 1).drop_last() =~= home.deep_view().take(j as int));
        }
        match scan_home_entry(settings, &home[j]) {
            Some(app) => {
                let ghost av = app@;
                let ghost prev = apps.deep_view();
                assert(home.deep_view().take(j + 1).last() == home.deep_view()[j as int]);
                assert(scan(home.deep_view()[j as int]) == Some(av));
                assert(home.deep_view().take(j + 1).filter_map(scan) == home.deep_view().take(
                    j + 1,
                ).drop_last().filter_map(scan) + seq![av]);
                apps.push(app);
                assert(apps.deep_view() =~= prev.push(av));
                assert(apps.deep_view() =~= listed + home.deep_view().take(j + 1).filter_map(scan));
            },
            None => {
                assert(home.deep_view().take(j + 1).last() == home.deep_view()[j as int]);
                assert(scan(home.deep_view()[j as int]) is None);
                assert(home.deep_view().take(j + 1).filter_map(scan) == home.deep_view().take(
                    j + 1,
                ).drop_last().filter_map(scan));
                assert(apps.deep_view() =~= listed + home.deep_view().take(j + 1).filter_map(scan));
            },
        }
        j = j + 1;
    }
    assert(home.deep_view().take(home.len() as int) =~= home.deep_view());
    let sorted = sort_items(apps);
    assert((|v: AgentAppModel| <AgentRegistration as SortKey>::key_of(v)) =~= (|a: AgentAppModel|
        a.app_name));
    dedup_registrations(sorted)
}

/// Discovery lists only applications that the settings allow (so never a
/// blacklisted one), ordered by name, with no entry repeated next to itself.
pub proof fn discovery_respects_settings(
    settings: DiscoverySettingsModel,
    registry: Option<Seq<AgentAppModel>>,
    home: Seq<HomeEntryModel>,
)
    ensures
        forall|i: int|
            0 <= i < discovered_apps(settings, registry, home).len() ==> app_allowed(
                settings,
                (#[trigger] discovered_apps(settings, registry, home)[i]).app_name,
            ),
        forall|i: int|
            0 <= i < discovered_apps(settings, registry, home).len() ==> !settings.blacklist.contains(
                (#[trigger] discovered_apps(settings, registry, home)[i]).app_name,
            ),
        sorted_by_key(discovered_apps(settings, registry, home), |a: AgentAppModel| a.app_name),
        forall|i: int|
            0 <= i < discovered_apps(settings, registry, home).len() - 1 ==> #[trigger] discovered_apps(
                settings,
                registry,
                home,
            )[i] != discovered_apps(settings, registry, home)[i + 1],
{
    broadcast use vstd::seq_lib::group_to_multiset_ensures;

    let key = |a: AgentAppModel| a.app_name;
    let keep = |a: AgentAppModel| app_allowed(settings, a.app_name);
    let scan = |e: HomeEntryModel| scanned_app(settings, e);
    let listed = match registry {
        Some(r) => allowed_registrations(settings, r),
        None => Seq::<AgentAppModel>::empty(),
    };
    let scanned = home.filter_map(scan);
    let all = listed + scanned;
    let sorted = sort_by_key(all, key);
    let d = dedup_adjacent(sorted);
    assert(d == discovered_apps(settings, registry, home));
    sort_by_key_sorts(all, key);
    dedup_adjacent_properties(sorted);
    dedup_adjacent_keeps_sorted(sorted, key);
    assert forall|i: int| 0 <= i < d.len() implies app_allowed(settings, (#[trigger] d[i]).app_name) by {
        let x = d[i];
        assert(d.contains(x));
        assert(sorted.contains(x));
        assert(sorted.to_multiset().count(x) > 0);
        assert(all.contains(x));
        let k = choose|k: int| 0 <= k < all.len() && all[k] == x;
        if k < listed.len() {
            assert(listed[k] == x);
            match registry {
                Some(r) => {
                    r.lemma_filter_pred(keep, k);
                },
                None => {},
            }
        } else {
            assert(scanned[k - listed.len()] == x);
            assert(scanned.contains(x));
            home.lemma_filter_map_contains(scan, x);
            let e = choose|e: HomeEntryModel| #[trigger] home.contains(e) && scan(e) == Some(x);
            assert(scanned_app(settings, e) == Some(x));
        }
    }
}

/// The applications as the user interface lists them.
pub fn list_agent_apps(apps: Vec<AgentRegistration>) -> (r: Vec<AgentAppDTO>)
    ensures
        r.deep_view() == apps.deep_view(),
{
    let mut out: Vec<AgentAppDTO> = Vec::new();
    let mut i: usize = 0;
    while i < apps.len()
        invariant
            i <= apps.len(),
            out@.len() == i,
            out.deep_view() =~= apps.deep_view().take(i as int),
        decreases apps.len() - i,
    {
        let a = &apps[i];
        out.push(AgentAppDTO { app_name: a.app_name.clone(), skills_dir: a.skills_dir.clone() });
        i = i + 1;
    }
    assert(apps.deep_view().take(apps.len() as int) =~= apps.deep_view());
    out
}

/// Whether a link rebuild aimed at `target` (every application when `None`)
/// touches the application `app_name`.
pub open spec fn targets_app(target: Option<Seq<char>>, app_name: Seq<char>) -> bool {
    match target {
        None => true,
        Some(t) => app_name == t,
    }
}

/// Whether a link rebuild aimed at `target` touches the application
/// `app_name`.
pub fn rebuild_targets_app(target: Option<&str>, app_name: &str) -> (r: bool)
    ensures
        r == targets_app(
            match target {
                Some(t) => Some(t@),
                None => None,
            },
            app_name@,
        ),
{
    match target {
        None => true,
        Some(t) => same_text(app_name, t),
    }
}

/// The links to managed skills that one agent directory receives.
pub struct LinkSetModel {
    pub skills_dir: Seq<char>,
    pub skill_ids: Seq<Seq<char>>,
}

/// An agent skills directory to create, and the managed skills to link
/// into it, each under its own id.
#[derive(Debug, Clone, PartialEq, Eq)]
pub struct AgentLinkSet {
    pub skills_dir: String,
    pub skill_ids: Vec<String>,
}

impl View for AgentLinkSet {
    type V = LinkSetModel;

    open spec fn view(&self) -> LinkSetModel {
        LinkSetModel { skills_dir: self.skills_dir@, skill_ids: self.skill_ids.deep_view() }
    }
}

impl DeepView for AgentLinkSet {
    type V = LinkSetModel;

    open spec fn deep_view(&self) -> LinkSetModel {
        self@
    }
}

/// The managed-skill links of a rebuild aimed at `target`: for each
/// discovered application it touches, in order, its skills directory and
/// every managed skill.
pub open spec fn managed_link_plan(
    target: Option<Seq<char>>,
    apps: Seq<AgentAppModel>,
    managed_ids: Seq<Seq<char>>,
) -> Seq<LinkSetModel>
    decreases apps.len(),
{
    if apps.len() == 0 {
        Seq::empty()
    } else {
        let rest = managed_link_plan(target, apps.drop_last(), managed_ids);
        if targets_app(target, apps.last().app_name) {
            rest.push(LinkSetModel { skills_dir: apps.last().skills_dir, skill_ids: managed_ids })
        } else {
            rest
        }
    }
}

/// Rebuilding the links of one application makes exactly the links that a
/// full rebuild makes for the applications of that name; a full rebuild
/// gives every discovered application one link set.
pub proof fn single_app_rebuild_is_part_of_full_rebuild(
    app_name: Seq<char>,
    apps: Seq<AgentAppModel>,
    managed_ids: Seq<Seq<char>>,
)
    ensures
        managed_link_plan(Some(app_name), apps, managed_ids) == managed_link_plan(
            None,
            apps.filter(|a: AgentAppModel| a.app_name == app_name),
            managed_ids,
        ),
        managed_link_plan(None, apps, managed_ids).len() == apps.len(),
    decreases apps.len(),
{
    reveal(Seq::filter);
    if apps.len() > 0 {
        single_app_rebuild_is_part_of_full_rebuild(app_name, apps.drop_last(), managed_ids);
        let f = apps.drop_last().filter(|a: AgentAppModel| a.app_name == app_name);
        assert(f.push(apps.last()).drop_last() =~= f);
    }
}

/// A full rebuild gives the i-th discovered application a link set for
/// its own skills directory holding every managed skill.
pub proof fn full_rebuild_links_every_skill_into_every_app(
    apps: Seq<AgentAppModel>,
    managed_ids: Seq<Seq<char>>,
)
    ensures
        managed_link_plan(None, apps, managed_ids).len() == apps.len(),
        forall|i: int|
            0 <= i < apps.len() ==> #[trigger] managed_link_plan(None, apps, managed_ids)[i]
                == (LinkSetModel { skills_dir: apps[i].skills_dir, skill_ids: managed_ids }),
    decreases apps.len(),
{
    if apps.len() > 0 {
        full_rebuild_links_every_skill_into_every_app(apps.drop_last(), managed_ids);
        let rest = managed_link_plan(None, apps.drop_last(), managed_ids);
        assert forall|i: int| 0 <= i < apps.len() implies #[trigger] managed_link_plan(
            None,
            apps,
            managed_ids,
        )[i] == (LinkSetModel { skills_dir: apps[i].skills_dir, skill_ids: managed_ids }) by {
            if i < apps.len() - 1 {
                assert(apps.drop_last()[i] == apps[i]);
            }
        }
    }
}

fn plan_managed_links(target: Option<&str>, apps: &Vec<AgentRegistration>, managed_ids: &Vec<String>) -> (r:
    Vec<AgentLinkSet>)
    ensures
        r.deep_view() == managed_link_plan(
            match target {
                Some(t) => Some(t@),
                None => None,
            },
            apps.deep_view(),
            managed_ids.deep_view(),
        ),
{
    let ghost tv = match target {
        Some(t) => Some(t@),
        None => None,
    };
    let mut out: Vec<AgentLinkSet> = Vec::new();
    let mut i: usize = 0;
    while i < apps.len()
        invariant
            i <= apps.len(),
            tv == match target {
                Some(t) => Some(t@),
                None => None::<Seq<char>>,
            },
            out.deep_view() == managed_link_plan(tv, apps.deep_view().take(i as int), managed_ids.deep_view()),
        decreases apps.len() - i,
    {
        proof {
            assert(apps.deep_view().take(i + 1).drop_last() =~= apps.deep_view().take(i as int));
        }
        if rebuild_targets_app(target, apps[i].app_name.as_str()) {
            let set = AgentLinkSet { skills_dir: apps[i].skills_dir.clone(), skill_ids: copy_texts(managed_ids) };
            let ghost sv = set@;
            let ghost prev = out.deep_view();
            out.push(set);
            assert(out.deep_view() =~= prev.push(sv));
        }
        i = i + 1;
    }
    assert(apps.deep_view().take(apps.len() as int) =~= apps.deep_view());
    out
}

/// The managed-skill links of a full rebuild: every discovered application
/// receives a link to every managed skill.
pub fn synchronize_skill_links(apps: &Vec<AgentRegistration>, managed_ids: &Vec<String>) -> (r: Vec<
    AgentLinkSet,
>)
    ensures
        r.deep_view() == managed_link_plan(None, apps.deep_view(), managed_ids.deep_view()),
{
    plan_managed_links(None, apps, managed_ids)
}

/// The managed-skill links of a rebuild for the application `app_name`
/// alone.
pub fn synchronize_skill_links_for_app(
    app_name: &str,
    apps: &Vec<AgentRegistration>,
    managed_ids: &Vec<String>,
) -> (r: Vec<AgentLinkSet>)
    ensures
        r.deep_view() == managed_link_plan(Some(app_name@), apps.deep_view(), managed_ids.deep_view()),
{
    plan_managed_links(Some(app_name), apps, managed_ids)
}

/// What the caller saw of one entry of an agent's skills directory.
pub struct AgentDirEntryModel {
    pub name: Option<Seq<char>>,
    pub inside_skills_root: bool,
    pub is_dir: bool,
    pub has_manifest: bool,
}

/// One entry of an agent's skills directory: its name (`None` when it is
/// not valid UTF-8), whether its canonical path lies inside the library's
/// skills root, whether it is a directory, and whether it holds a
/// skill manifest file.
#[derive(Debug, Clone, PartialEq, Eq)]
pub struct AgentDirEntry {
    pub name: Option<String>,
    pub inside_skills_root: bool,
    pub is_dir: bool,
    pub has_manifest: bool,
}

impl View for AgentDirEntry {
    type V = AgentDirEntryModel;

    open spec fn view(&self) -> AgentDirEntryModel {
        AgentDirEntryModel {
            name: self.name.deep_view(),
            inside_skills_root: self.inside_skills_root,
            is_dir: self.is_dir,
            has_manifest: self.has_manifest,
        }
    }
}

/// The name of the link in the skills root that a skill owned by an agent
/// application gets: the application's name, a dash, the skill's directory
/// name. An entry already inside the skills root, unnamed, or not a skill
/// directory gets none.
pub open spec fn owned_link_name(app_name: Seq<char>, e: AgentDirEntryModel) -> Option<Seq<char>> {
    if e.inside_skills_root {
        None
    } else {
        match e.name {
            None => None,
            Some(name) => if !e.is_dir || !e.has_manifest {
                None
            } else {
                Some(app_name + "-"@ + name)
            },
        }
    }
}

/// The link name in the skills root for an entry of the skills directory
/// of the application `app_name`, if it gets one.
pub fn agent_owned_link_name(app_name: &str, entry: &AgentDirEntry) -> (r: Option<String>)
    ensures
        r.deep_view() == owned_link_name(app_name@, entry@),
{
    if entry.inside_skills_root {
        return None;
    }
    match &entry.name {
        None => None,
        Some(name) => {
            if !entry.is_dir || !entry.has_manifest {
                None
            } else {
                let prefix = join_texts(app_name, "-");
                let r = join_texts(prefix.as_str(), name.as_str());
                Some(r)
            }
        },
    }
}

/// How an existing entry at a link's place is removed before the link is
/// made, or when a skill is uninstalled.
#[derive(Debug, Clone, Copy, PartialEq, Eq)]
pub enum EntryRemoval {
    /// A real directory: removed with its contents.
    Directory,
    /// A file or a symbolic link: only the entry is removed.
    File,
}

/// How to remove an existing entry: a real directory as a whole tree,
/// anything else (a file, or a link even to a directory) as one entry.
pub fn removal_for(is_dir: bool, is_symlink: bool) -> (r: EntryRemoval)
    ensures
        r == (if is_dir && !is_symlink {
            EntryRemoval::Directory
        } else {
            EntryRemoval::File
        }),
{
    if is_dir && !is_symlink {
        EntryRemoval::Directory
    } else {
        EntryRemoval::File
    }
}

/// Whether a directory of the skills root is listed as a skill: names that
/// begin with `_` are the library's own.
pub fn is_listed_skill_dir(name: &str) -> (r: bool)
    ensures
        r == !(name@.len() > 0 && name@[0] == '_'),
{
    !starts_with_char(name, '_')
}

/// The skill manifests found in the skills root, sorted by name (stably).
pub fn list_skill_manifests(found: Vec<SkillManifest>) -> (r: Vec<SkillManifest>)
    ensures
        r.deep_view() == sort_by_key(found.deep_view(), |m: ManifestModel| m.name),
{
    let r = sort_items(found);
    assert((|v: ManifestModel| <SkillManifest as SortKey>::key_of(v)) =~= (|m: ManifestModel| m.name));
    r
}

/// Listing the skills root yields the manifests found, each as often,
/// ordered by name.
pub proof fn skill_listing_sorted_by_name(found: Seq<ManifestModel>)
    ensures
        sorted_by_key(sort_by_key(found, |m: ManifestModel| m.name), |m: ManifestModel| m.name),
        sort_by_key(found, |m: ManifestModel| m.name).to_multiset() == found.to_multiset(),
{
    sort_by_key_sorts(found, |m: ManifestModel| m.name);
}

/// The built-in store index, used when no remote index file is present:
/// two skills at version 0.1.0.
pub open spec fn default_store_index_model() -> Seq<RemoteIndexModel> {
    seq![
        RemoteIndexModel {
            skill_id: "summarizer"@,
            latest_version: "0.1.0"@,
            download_url: "builtin://summarizer"@,
            checksum: "local-dev"@,
            published_at: "2026-01-01T00:00:00Z"@,
        },
        RemoteIndexModel {
            skill_id: "translator"@,
            latest_version: "0.1.0"@,
            download_url: "builtin://translator"@,
            checksum: "local-dev"@,
            published_at: "2026-01-01T00:00:00Z"@,
        },
    ]
}

/// The built-in store index.
pub fn default_store_index() -> (r: Vec<SkillRemoteIndex>)
    ensures
        r.deep_view() == default_store_index_model(),
{
    let mut out: Vec<SkillRemoteIndex> = Vec::new();
    out.push(
        SkillRemoteIndex {
            skill_id: String::from_str("summarizer"),
            latest_version: String::from_str("0.1.0"),
            download_url: String::from_str("builtin://summarizer"),
            checksum: String::from_str("local-dev"),
            published_at: String::from_str("2026-01-01T00:00:00Z"),
        },
    );
    out.push(
        SkillRemoteIndex {
            skill_id: String::from_str("translator"),
            latest_version: String::from_str("0.1.0"),
            download_url: String::from_str("builtin://translator"),
            checksum: String::from_str("local-dev"),
            published_at: String::from_str("2026-01-01T00:00:00Z"),
        },
    );
    assert(out.deep_view() =~= default_store_index_model());
    out
}

/// The store index that a refresh writes to the cache: the remote index
/// file's list when the file is present (the caller reads and parses it),
/// the built-in index otherwise.
pub fn refresh_store_index_cache(remote: Option<Vec<SkillRemoteIndex>>) -> (r: Vec<SkillRemoteIndex>)
    ensures
        r.deep_view() == match remote.deep_view() {
            Some(list) => list,
            None => default_store_index_model(),
        },
{
    match remote {
        Some(list) => list,
        None => default_store_index(),
    }
}

} // verus!

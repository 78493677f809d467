//! Versioned user and workspace configuration files: what they may hold, how they change, and
//! when a file on disk is no longer the one that was loaded.

use vstd::prelude::*;

use crate::config::{
    validate_agent_limits, validate_tool_limits, agent_limits_problem, tool_limits_problem,
    AgentLimits, ConfigChange, ConfigError, ModelSelection, Profile, ProfileId, ProfileView,
    RuntimeOverrides, RuntimeSettings, ToolLimits, ONE_SECOND,
};
use crate::error::StoreError;
use crate::hashing::{sha256_hex, sha256_hex_of};
use crate::ids::WorkspaceId;
use crate::path::{joined, FilePath};
use crate::persistence::profile_views;
use crate::api::WorkspaceInfo;
use crate::document::{DocumentKey, Table};
use crate::path::parent_of;
use crate::persistence::keys::{make_workspace_key, workspace_key};
use crate::seqs::{
    lemma_filter_all, lemma_filter_front, lemma_filter_keeps, lemma_filter_none, lemma_filter_step,
    lemma_take_all,
};
use crate::text::same_text;

verus! {

/// The version of the file format.
pub const SCHEMA_VERSION: u32 = 1;

/// The adapters' own limits, which take the place of limits that are taken back.
#[derive(Debug, PartialEq, Eq)]
pub struct AdapterDefaults {
    pub limits: AgentLimits,
    pub tools: ToolLimits,
}

impl Clone for AdapterDefaults {
    fn clone(&self) -> (r: AdapterDefaults)
        ensures
            r == *self,
    {
        AdapterDefaults { limits: self.limits.clone(), tools: self.tools.clone() }
    }
}

impl AdapterDefaults {
    /// Whether the longest Bash call leaves room for one second more.
    pub open spec fn usable(self) -> bool {
        self.tools.max_bash_timeout + ONE_SECOND <= u128::MAX
    }

    /// The settings of a user who has set nothing.
    pub open spec fn settings(self) -> RuntimeSettings {
        RuntimeSettings {
            worker: None,
            coordinator: None,
            limits: AgentLimits {
                tool_timeout: (self.tools.max_bash_timeout + ONE_SECOND) as u128,
                ..self.limits
            },
            tools: self.tools,
        }
    }
}

/// User settings after a change.
pub open spec fn changed_settings(
    settings: RuntimeSettings,
    change: ConfigChange,
    defaults: AdapterDefaults,
) -> RuntimeSettings {
    match change {
        ConfigChange::Model(value) => RuntimeSettings {
            worker: value,
            coordinator: value,
            ..settings
        },
        ConfigChange::Worker(value) => RuntimeSettings { worker: value, ..settings },
        ConfigChange::Coordinator(value) => RuntimeSettings { coordinator: value, ..settings },
        ConfigChange::Limits(value) => RuntimeSettings {
            limits: match value {
                Some(limits) => limits,
                None => defaults.limits,
            },
            ..settings
        },
        ConfigChange::Tools(value) => RuntimeSettings {
            tools: match value {
                Some(tools) => tools,
                None => defaults.tools,
            },
            ..settings
        },
    }
}

/// Changes user settings.
pub fn apply_settings_change(
    settings: &mut RuntimeSettings,
    change: ConfigChange,
    defaults: AdapterDefaults,
)
    ensures
        *final(settings) == changed_settings(*old(settings), change, defaults),
{
    match change {
        ConfigChange::Model(value) => {
            settings.worker = value.clone();
            settings.coordinator = value;
        },
        ConfigChange::Worker(value) => {
            settings.worker = value;
        },
        ConfigChange::Coordinator(value) => {
            settings.coordinator = value;
        },
        ConfigChange::Limits(value) => {
            settings.limits = match value {
                Some(limits) => limits,
                None => defaults.limits,
            };
        },
        ConfigChange::Tools(value) => {
            settings.tools = match value {
                Some(tools) => tools,
                None => defaults.tools,
            };
        },
    }
}

/// Overrides after a change.
pub open spec fn changed_overrides(overrides: RuntimeOverrides, change: ConfigChange) -> RuntimeOverrides {
    match change {
        ConfigChange::Model(value) => RuntimeOverrides {
            worker: value,
            coordinator: value,
            ..overrides
        },
        ConfigChange::Worker(value) => RuntimeOverrides { worker: value, ..overrides },
        ConfigChange::Coordinator(value) => RuntimeOverrides { coordinator: value, ..overrides },
        ConfigChange::Limits(value) => RuntimeOverrides { limits: value, ..overrides },
        ConfigChange::Tools(value) => RuntimeOverrides { tools: value, ..overrides },
    }
}

/// Changes overrides.
pub fn apply_override_change(overrides: &mut RuntimeOverrides, change: ConfigChange)
    ensures
        *final(overrides) == changed_overrides(*old(overrides), change),
{
    match change {
        ConfigChange::Model(value) => {
            overrides.worker = value.clone();
            overrides.coordinator = value;
        },
        ConfigChange::Worker(value) => {
            overrides.worker = value;
        },
        ConfigChange::Coordinator(value) => {
            overrides.coordinator = value;
        },
        ConfigChange::Limits(value) => {
            overrides.limits = value;
        },
        ConfigChange::Tools(value) => {
            overrides.tools = value;
        },
    }
}

/// User settings in the shape of overrides; limits are always set there.
pub open spec fn as_overrides(settings: RuntimeSettings) -> RuntimeOverrides {
    RuntimeOverrides {
        worker: settings.worker,
        coordinator: settings.coordinator,
        limits: Some(settings.limits),
        tools: Some(settings.tools),
    }
}

/// User settings in the shape of overrides.
pub fn settings_as_overrides(settings: &RuntimeSettings) -> (r: RuntimeOverrides)
    ensures
        r == as_overrides(*settings),
{
    RuntimeOverrides {
        worker: settings.worker.clone(),
        coordinator: settings.coordinator.clone(),
        limits: Some(settings.limits.clone()),
        tools: Some(settings.tools.clone()),
    }
}

/// The content of the user's configuration file.
#[derive(Debug, PartialEq, Eq)]
pub struct UserConfig {
    pub schema_version: u32,
    pub settings: RuntimeSettings,
    pub profiles: Vec<Profile>,
}

/// A user configuration by its values.
#[verifier::ext_equal]
pub ghost struct UserConfigView {
    pub schema_version: u32,
    pub settings: RuntimeSettings,
    pub profiles: Seq<ProfileView>,
}

impl View for UserConfig {
    type V = UserConfigView;

    open spec fn view(&self) -> UserConfigView {
        UserConfigView {
            schema_version: self.schema_version,
            settings: self.settings,
            profiles: profile_views(self.profiles@),
        }
    }
}

/// The content of a project's configuration file.
#[derive(Debug, PartialEq, Eq)]
pub struct ProjectConfig {
    pub schema_version: u32,
    pub overrides: RuntimeOverrides,
}

impl Clone for ProjectConfig {
    fn clone(&self) -> (r: ProjectConfig)
        ensures
            r == *self,
    {
        ProjectConfig {
            schema_version: self.schema_version,
            overrides: self.overrides.clone(),
        }
    }
}

/// Copies of profiles.
pub fn copy_profiles(profiles: &Vec<Profile>) -> (r: Vec<Profile>)
    ensures
        profile_views(r@) == profile_views(profiles@),
{
    let mut r: Vec<Profile> = Vec::new();
    let mut i: usize = 0;
    while i < profiles.len()
        invariant
            i <= profiles@.len(),
            r@.len() == i,
            forall|j: int| #![trigger r@[j]] 0 <= j < i ==> r@[j]@ == profiles@[j]@,
        decreases profiles@.len() - i,
    {
        r.push(profiles[i].copy());
        i = i + 1;
    }
    proof {
        assert(profile_views(r@) =~= profile_views(profiles@));
    }
    r
}

impl UserConfig {
    /// The configuration of a user without a file: no profiles at all.
    pub fn initial(defaults: AdapterDefaults) -> (r: UserConfig)
        requires
            defaults.usable(),
        ensures
            r@ == (UserConfigView {
                schema_version: SCHEMA_VERSION,
                settings: defaults.settings(),
                profiles: Seq::empty(),
            }),
    {
        let r = UserConfig {
            schema_version: SCHEMA_VERSION,
            settings: RuntimeSettings::defaults(defaults.limits, defaults.tools),
            profiles: Vec::new(),
        };
        proof {
            assert(r@.profiles =~= Seq::<ProfileView>::empty());
        }
        r
    }

    /// A copy of this configuration.
    pub fn copy(&self) -> (r: UserConfig)
        ensures
            r@ == self@,
    {
        UserConfig {
            schema_version: self.schema_version,
            settings: self.settings.clone(),
            profiles: copy_profiles(&self.profiles),
        }
    }
}

impl ProjectConfig {
    /// The configuration of a project without a file: it overrides nothing.
    pub fn initial() -> (r: ProjectConfig)
        ensures
            r.schema_version == SCHEMA_VERSION,
            r.overrides == RuntimeOverrides::none(),
    {
        ProjectConfig { schema_version: SCHEMA_VERSION, overrides: RuntimeOverrides::default() }
    }
}

/// What is wrong with the content of a configuration file.
pub ghost enum Fault {
    Version(u32),
    File(Seq<char>),
}

/// Whether an error reports a fault.
pub open spec fn reports(error: StoreError, fault: Fault) -> bool {
    match fault {
        Fault::Version(version) => error == (StoreError::ConfigVersion {
            expected: SCHEMA_VERSION,
            actual: version,
        }),
        Fault::File(text) => error matches StoreError::ConfigFile { message } && message@ == text,
    }
}

/// The report of an error in a field.
pub open spec fn field_text(field: Seq<char>, error: ConfigError) -> Seq<char> {
    field + ": "@ + error.text()
}

/// The fault of an invalid field.
pub open spec fn field_fault(field: Seq<char>, problem: Option<ConfigError>) -> Option<Fault> {
    match problem {
        Some(error) => Some(Fault::File(field_text(field, error))),
        None => None,
    }
}

/// The error of an invalid field.
fn config_field_error(field: &str, error: ConfigError) -> (r: StoreError)
    ensures
        reports(r, Fault::File(field_text(field@, error))),
{
    let mut message = field.to_owned();
    message.push_str(": ");
    message.push_str(error.message().as_str());
    StoreError::ConfigFile { message }
}

/// Whether a profile stands before the one at `index` under the same name.
pub open spec fn repeated(profiles: Seq<ProfileView>, index: int) -> bool {
    exists|j: int| 0 <= j < index && (#[trigger] profiles[j]).id@ == profiles[index].id@
}

/// The first fault of the profiles from `index` on.
pub open spec fn profiles_fault(profiles: Seq<ProfileView>, index: int) -> Option<Fault>
    decreases profiles.len() - index,
{
    if index >= profiles.len() {
        None
    } else if profiles[index].problem() is Some {
        Some(
            Fault::File(
                field_text(
                    "profiles."@ + profiles[index].id@,
                    profiles[index].problem()->0,
                ),
            ),
        )
    } else if repeated(profiles, index) {
        Some(Fault::File("duplicate profile `"@ + profiles[index].id@ + "`"@))
    } else {
        profiles_fault(profiles, index + 1)
    }
}

/// What is wrong with a selection that may be absent.
pub open spec fn selection_problem(selection: Option<ModelSelection>) -> Option<ConfigError> {
    match selection {
        Some(selection) => selection.problem(),
        None => None,
    }
}

/// The first of two faults.
pub open spec fn first_fault(first: Option<Fault>, second: Option<Fault>) -> Option<Fault> {
    if first is Some {
        first
    } else {
        second
    }
}

/// The fault of an unsupported version.
pub open spec fn version_fault(version: u32) -> Option<Fault> {
    if version == SCHEMA_VERSION {
        None
    } else {
        Some(Fault::Version(version))
    }
}

/// The first fault of user settings.
pub open spec fn settings_fault(settings: RuntimeSettings) -> Option<Fault> {
    first_fault(
        field_fault("settings.worker"@, selection_problem(settings.worker)),
        first_fault(
            field_fault("settings.coordinator"@, selection_problem(settings.coordinator)),
            first_fault(
                field_fault("settings.limits"@, agent_limits_problem(settings.limits)),
                field_fault("settings.tools"@, tool_limits_problem(settings.tools)),
            ),
        ),
    )
}

/// The first fault of a user configuration.
pub open spec fn user_fault(config: UserConfigView) -> Option<Fault> {
    first_fault(
        version_fault(config.schema_version),
        first_fault(profiles_fault(config.profiles, 0), settings_fault(config.settings)),
    )
}

/// The first fault of a project configuration.
pub open spec fn project_fault(config: ProjectConfig) -> Option<Fault> {
    let overrides = config.overrides;
    first_fault(
        version_fault(config.schema_version),
        first_fault(
            field_fault("overrides.worker"@, selection_problem(overrides.worker)),
            first_fault(
                field_fault("overrides.coordinator"@, selection_problem(overrides.coordinator)),
                first_fault(
                    field_fault(
                        "overrides.limits"@,
                        match overrides.limits {
                            Some(limits) => agent_limits_problem(limits),
                            None => None,
                        },
                    ),
                    field_fault(
                        "overrides.tools"@,
                        match overrides.tools {
                            Some(tools) => tool_limits_problem(tools),
                            None => None,
                        },
                    ),
                ),
            ),
        ),
    )
}

fn validate_version(version: u32) -> (r: Result<(), StoreError>)
    ensures
        match version_fault(version) {
            Some(fault) => r matches Err(error) && reports(error, fault),
            None => r is Ok,
        },
{
    if version == SCHEMA_VERSION {
        Ok(())
    } else {
        Err(StoreError::ConfigVersion { expected: SCHEMA_VERSION, actual: version })
    }
}

fn validate_selection(field: &str, selection: &Option<ModelSelection>) -> (r: Result<
    (),
    StoreError,
>)
    ensures
        match field_fault(field@, selection_problem(*selection)) {
            Some(fault) => r matches Err(error) && reports(error, fault),
            None => r is Ok,
        },
{
    match selection {
        Some(selection) => match selection.validate() {
            Ok(_) => Ok(()),
            Err(error) => Err(config_field_error(field, error)),
        },
        None => Ok(()),
    }
}

fn validate_profiles(profiles: &Vec<Profile>) -> (r: Result<(), StoreError>)
    ensures
        match profiles_fault(profile_views(profiles@), 0) {
            Some(fault) => r matches Err(error) && reports(error, fault),
            None => r is Ok,
        },
{
    let ghost views = profile_views(profiles@);
    let mut i: usize = 0;
    while i < profiles.len()
        invariant
            i <= profiles@.len(),
            views == profile_views(profiles@),
            profiles_fault(views, 0) == profiles_fault(views, i as int),
        decreases profiles@.len() - i,
    {
        let profile = &profiles[i];
        proof {
            assert(views[i as int] == profile@);
            assert(profile.problem() == profile@.problem());
        }
        match profile.validate() {
            Ok(_) => {},
            Err(error) => {
                let mut field = "profiles.".to_owned();
                field.push_str(profile.id.as_str());
                return Err(config_field_error(field.as_str(), error));
            },
        }
        let mut j: usize = 0;
        while j < i
            invariant
                j <= i < profiles@.len(),
                views == profile_views(profiles@),
                *profile == profiles@[i as int],
                views[i as int] == profile@,
                profiles_fault(views, 0) == profiles_fault(views, i as int),
                views[i as int].problem() is None,
                forall|k: int| 0 <= k < j ==> (#[trigger] views[k]).id@ != views[i as int].id@,
            decreases i - j,
        {
            proof {
                assert(views[j as int] == profiles@[j as int]@);
            }
            if profiles[j].id.same(&profile.id) {
                proof {
                    assert(views[j as int].id@ == views[i as int].id@);
                    assert(repeated(views, i as int));
                }
                let mut message = "duplicate profile `".to_owned();
                message.push_str(profile.id.as_str());
                message.push_str("`");
                return Err(StoreError::ConfigFile { message });
            }
            j = j + 1;
        }
        i = i + 1;
    }
    Ok(())
}

/// Checks a user configuration.
pub fn validate_user(config: &UserConfig) -> (r: Result<(), StoreError>)
    ensures
        match user_fault(config@) {
            Some(fault) => r matches Err(error) && reports(error, fault),
            None => r is Ok,
        },
{
    match validate_version(config.schema_version) {
        Ok(_) => {},
        Err(error) => {
            return Err(error);
        },
    }
    match validate_profiles(&config.profiles) {
        Ok(_) => {},
        Err(error) => {
            return Err(error);
        },
    }
    match validate_selection("settings.worker", &config.settings.worker) {
        Ok(_) => {},
        Err(error) => {
            return Err(error);
        },
    }
    match validate_selection("settings.coordinator", &config.settings.coordinator) {
        Ok(_) => {},
        Err(error) => {
            return Err(error);
        },
    }
    match validate_agent_limits(&config.settings.limits) {
        Ok(_) => {},
        Err(error) => {
            return Err(config_field_error("settings.limits", error));
        },
    }
    match validate_tool_limits(&config.settings.tools) {
        Ok(_) => Ok(()),
        Err(error) => Err(config_field_error("settings.tools", error)),
    }
}

/// Checks a project configuration.
pub fn validate_project(config: &ProjectConfig) -> (r: Result<(), StoreError>)
    ensures
        match project_fault(*config) {
            Some(fault) => r matches Err(error) && reports(error, fault),
            None => r is Ok,
        },
{
    match validate_version(config.schema_version) {
        Ok(_) => {},
        Err(error) => {
            return Err(error);
        },
    }
    match validate_selection("overrides.worker", &config.overrides.worker) {
        Ok(_) => {},
        Err(error) => {
            return Err(error);
        },
    }
    match validate_selection("overrides.coordinator", &config.overrides.coordinator) {
        Ok(_) => {},
        Err(error) => {
            return Err(error);
        },
    }
    match &config.overrides.limits {
        Some(limits) => match validate_agent_limits(limits) {
            Ok(_) => {},
            Err(error) => {
                return Err(config_field_error("overrides.limits", error));
            },
        },
        None => {},
    }
    match &config.overrides.tools {
        Some(tools) => match validate_tool_limits(tools) {
            Ok(_) => Ok(()),
            Err(error) => Err(config_field_error("overrides.tools", error)),
        },
        None => Ok(()),
    }
}

/// What reading a configuration file gave. Paths are as they are shown.
#[derive(Debug, PartialEq, Eq)]
pub enum FileContent<T> {
    Absent,
    NotUtf8 { path: String },
    Invalid { path: String, error: String },
    Read { bytes: Vec<u8>, value: T },
}

/// The report of a file that is not text.
pub open spec fn not_utf8_text(path: Seq<char>) -> Seq<char> {
    path + " is not UTF-8"@
}

/// The report of a file that does not parse.
pub open spec fn invalid_text(path: Seq<char>, error: Seq<char>) -> Seq<char> {
    path + ": "@ + error
}

/// The digest of a file, where there is one.
pub open spec fn digest_of(bytes: Option<Seq<u8>>) -> Option<Seq<char>> {
    match bytes {
        Some(bytes) => Some(sha256_hex_of(bytes)),
        None => None,
    }
}

/// A digest by its characters.
pub open spec fn digest_view(digest: Option<String>) -> Option<Seq<char>> {
    match digest {
        Some(digest) => Some(digest@),
        None => None,
    }
}

/// The bytes of a file, where there is one.
pub open spec fn bytes_view(bytes: Option<Vec<u8>>) -> Option<Seq<u8>> {
    match bytes {
        Some(bytes) => Some(bytes@),
        None => None,
    }
}

/// The project configuration that was loaded for a workspace.
#[derive(Debug, PartialEq, Eq)]
pub struct ProjectState {
    pub root: FilePath,
    pub value: ProjectConfig,
    pub digest: Option<String>,
}

/// A loaded project configuration by its values.
pub ghost struct ProjectStateView {
    pub root: Seq<u8>,
    pub value: ProjectConfig,
    pub digest: Option<Seq<char>>,
}

impl View for ProjectState {
    type V = ProjectStateView;

    open spec fn view(&self) -> ProjectStateView {
        ProjectStateView {
            root: self.root@,
            value: self.value,
            digest: digest_view(self.digest),
        }
    }
}

/// What is known of a project's configuration file.
#[derive(Debug, PartialEq, Eq)]
pub struct ProjectConfigStatus {
    pub path: FilePath,
    pub exists: bool,
    pub overrides: RuntimeOverrides,
}

/// The configuration files as they were last loaded or written.
pub struct FileConfigs {
    pub bone_home: FilePath,
    pub user: UserConfig,
    pub user_digest: Option<String>,
    pub projects: Table<ProjectState>,
}

/// The loaded configuration by its values.
#[verifier::ext_equal]
pub ghost struct FileConfigsView {
    pub bone_home: Seq<u8>,
    pub user: UserConfigView,
    pub user_digest: Option<Seq<char>>,
    pub projects: Map<DocumentKey, ProjectStateView>,
}

impl View for FileConfigs {
    type V = FileConfigsView;

    open spec fn view(&self) -> FileConfigsView {
        FileConfigsView {
            bone_home: self.bone_home@,
            user: self.user@,
            user_digest: digest_view(self.user_digest),
            projects: self.projects@.map_values(|project: ProjectState| project@),
        }
    }
}

/// What loading a user configuration comes to: its values and its digest, or its fault.
pub open spec fn user_loaded(content: FileContent<UserConfig>, defaults: AdapterDefaults) -> Result<
    (UserConfigView, Option<Seq<char>>),
    Fault,
> {
    match content {
        FileContent::Absent => {
            let value = UserConfigView {
                schema_version: SCHEMA_VERSION,
                settings: defaults.settings(),
                profiles: Seq::empty(),
            };
            match user_fault(value) {
                Some(fault) => Err(fault),
                None => Ok((value, None)),
            }
        },
        FileContent::NotUtf8 { path } => Err(Fault::File(not_utf8_text(path@))),
        FileContent::Invalid { path, error } => Err(Fault::File(invalid_text(path@, error@))),
        FileContent::Read { bytes, value } => match user_fault(value@) {
            Some(fault) => Err(fault),
            None => Ok((value@, Some(sha256_hex_of(bytes@)))),
        },
    }
}

/// What loading a project configuration comes to: its values and its digest, or its fault.
pub open spec fn project_loaded(content: FileContent<ProjectConfig>) -> Result<
    (ProjectConfig, Option<Seq<char>>),
    Fault,
> {
    match content {
        FileContent::Absent => Ok(
            (
                ProjectConfig {
                    schema_version: SCHEMA_VERSION,
                    overrides: RuntimeOverrides::none(),
                },
                None,
            ),
        ),
        FileContent::NotUtf8 { path } => Err(Fault::File(not_utf8_text(path@))),
        FileContent::Invalid { path, error } => Err(Fault::File(invalid_text(path@, error@))),
        FileContent::Read { bytes, value } => match project_fault(value) {
            Some(fault) => Err(fault),
            None => Ok((value, Some(sha256_hex_of(bytes@)))),
        },
    }
}

fn not_utf8(path: String) -> (r: StoreError)
    ensures
        reports(r, Fault::File(not_utf8_text(path@))),
{
    let mut message = path;
    message.push_str(" is not UTF-8");
    StoreError::ConfigFile { message }
}

fn invalid_file(path: String, error: String) -> (r: StoreError)
    ensures
        reports(r, Fault::File(invalid_text(path@, error@))),
{
    let mut message = path;
    message.push_str(": ");
    message.push_str(error.as_str());
    StoreError::ConfigFile { message }
}

/// Checks what was read of the user's configuration file.
fn load_user(content: FileContent<UserConfig>, defaults: AdapterDefaults) -> (r: Result<
    (UserConfig, Option<String>),
    StoreError,
>)
    requires
        defaults.usable(),
    ensures
        match user_loaded(content, defaults) {
            Ok((value, digest)) => {
                &&& r matches Ok((config, found))
                &&& config@ == value
                &&& digest_view(found) == digest
            },
            Err(fault) => r matches Err(error) && reports(error, fault),
        },
{
    let (value, digest) = match content {
        FileContent::Absent => (UserConfig::initial(defaults), None),
        FileContent::NotUtf8 { path } => {
            return Err(not_utf8(path));
        },
        FileContent::Invalid { path, error } => {
            return Err(invalid_file(path, error));
        },
        FileContent::Read { bytes, value } => (value, Some(sha256_hex(bytes.as_slice()))),
    };
    match validate_user(&value) {
        Ok(_) => Ok((value, digest)),
        Err(error) => Err(error),
    }
}

/// Checks what was read of a project's configuration file.
fn load_project(content: FileContent<ProjectConfig>) -> (r: Result<
    (ProjectConfig, Option<String>),
    StoreError,
>)
    ensures
        match project_loaded(content) {
            Ok((value, digest)) => {
                &&& r matches Ok((config, found))
                &&& config == value
                &&& digest_view(found) == digest
            },
            Err(fault) => r matches Err(error) && reports(error, fault),
        },
{
    let (value, digest) = match content {
        FileContent::Absent => (ProjectConfig::initial(), None),
        FileContent::NotUtf8 { path } => {
            return Err(not_utf8(path));
        },
        FileContent::Invalid { path, error } => {
            return Err(invalid_file(path, error));
        },
        FileContent::Read { bytes, value } => (value, Some(sha256_hex(bytes.as_slice()))),
    };
    match validate_project(&value) {
        Ok(_) => Ok((value, digest)),
        Err(error) => Err(error),
    }
}

/// Whether a file on disk is still the one with the expected digest.
fn unchanged(current: &Option<Vec<u8>>, expected: &Option<String>) -> (r: bool)
    ensures
        r == (digest_of(bytes_view(*current)) == digest_view(*expected)),
{
    match (current, expected) {
        (Some(bytes), Some(expected)) => same_text(
            sha256_hex(bytes.as_slice()).as_str(),
            expected.as_str(),
        ),
        (None, None) => true,
        _ => false,
    }
}

/// The path of the user's configuration file.
pub open spec fn user_path(bone_home: Seq<u8>) -> Seq<u8> {
    joined(bone_home, vstd::utf8::encode_utf8("config.toml"@))
}

/// The path of a project's configuration file.
pub open spec fn project_path_of(root: Seq<u8>) -> Seq<u8> {
    joined(root, vstd::utf8::encode_utf8(".bone/config.toml"@))
}

/// The path of a project's configuration file.
pub fn project_path(root: &FilePath) -> (r: FilePath)
    ensures
        r@ == project_path_of(root@),
{
    root.join(&FilePath::from_text(".bone/config.toml"))
}

/// Profiles with one saved: in place of the one with its name, else behind all.
pub open spec fn with_profile(profiles: Seq<ProfileView>, profile: ProfileView) -> Seq<ProfileView>
    decreases profiles.len(),
{
    if profiles.len() == 0 {
        seq![profile]
    } else if profiles[0].id@ == profile.id@ {
        profiles.update(0, profile)
    } else {
        seq![profiles[0]] + with_profile(profiles.skip(1), profile)
    }
}

/// Whether a profile with a name is among the given ones.
pub open spec fn holds_profile(profiles: Seq<ProfileView>, name: Seq<char>) -> bool {
    exists|i: int| 0 <= i < profiles.len() && (#[trigger] profiles[i]).id@ == name
}

/// Whether a profile has another name.
pub open spec fn other_than(name: Seq<char>) -> spec_fn(ProfileView) -> bool {
    |profile: ProfileView| profile.id@ != name
}

/// Profiles without those of a name.
pub open spec fn without_profile(profiles: Seq<ProfileView>, name: Seq<char>) -> Seq<ProfileView> {
    profiles.filter(other_than(name))
}

/// Where a saved profile goes.
proof fn lemma_with_profile(profiles: Seq<ProfileView>, profile: ProfileView, at: int)
    requires
        0 <= at <= profiles.len(),
        forall|i: int| 0 <= i < at ==> (#[trigger] profiles[i]).id@ != profile.id@,
        at < profiles.len() ==> profiles[at].id@ == profile.id@,
    ensures
        with_profile(profiles, profile) == (if at < profiles.len() {
            profiles.update(at, profile)
        } else {
            profiles.push(profile)
        }),
    decreases profiles.len(),
{
    if profiles.len() == 0 {
        assert(profiles.push(profile) =~= seq![profile]);
    } else if at == 0 {
    } else {
        let rest = profiles.skip(1);
        assert(profiles[0].id@ != profile.id@);
        assert forall|i: int| 0 <= i < at - 1 implies (#[trigger] rest[i]).id@ != profile.id@ by {
            assert(rest[i] == profiles[i + 1]);
        }
        lemma_with_profile(rest, profile, at - 1);
        if at < profiles.len() {
            assert(seq![profiles[0]] + rest.update(at - 1, profile) =~= profiles.update(
                at,
                profile,
            ));
        } else {
            assert(seq![profiles[0]] + rest.push(profile) =~= profiles.push(profile));
        }
    }
}

/// Saves a profile: in place of the one with its name, else behind all.
pub fn upsert_profile(profiles: &mut Vec<Profile>, profile: Profile)
    ensures
        profile_views(final(profiles)@) == with_profile(profile_views(old(profiles)@), profile@),
{
    let ghost views = profile_views(profiles@);
    let ghost value = profile@;
    let mut at: usize = 0;
    while at < profiles.len() && !profiles[at].id.same(&profile.id)
        invariant
            at <= profiles@.len(),
            views == profile_views(profiles@),
            value == profile@,
            forall|i: int| 0 <= i < at ==> (#[trigger] views[i]).id@ != value.id@,
        decreases profiles@.len() - at,
    {
        proof {
            assert(views[at as int] == profiles@[at as int]@);
        }
        at = at + 1;
    }
    proof {
        if at < profiles@.len() {
            assert(views[at as int] == profiles@[at as int]@);
        }
        lemma_with_profile(views, value, at as int);
    }
    if at < profiles.len() {
        profiles.set(at, profile);
        proof {
            assert(profile_views(profiles@) =~= views.update(at as int, value));
        }
    } else {
        profiles.push(profile);
        proof {
            assert(profile_views(profiles@) =~= views.push(value));
        }
    }
}

impl FileConfigsView {
    /// The configuration of a workspace that was loaded.
    pub open spec fn project(self, workspace: WorkspaceId) -> ProjectStateView {
        self.projects[workspace_key(workspace)]
    }

    /// Whether the configuration of a workspace was loaded.
    pub open spec fn has_project(self, workspace: WorkspaceId) -> bool {
        self.projects.dom().contains(workspace_key(workspace))
    }

    /// Whether the user's file on disk is still the one that was loaded.
    pub open spec fn user_unchanged(self, current: Option<Seq<u8>>) -> bool {
        digest_of(current) == self.user_digest
    }
}

/// What a change of the user's configuration comes to before it is written: the next content, or
/// an error where the file on disk is another one or the next content is invalid.
pub open spec fn user_change(
    configs: FileConfigsView,
    current: Option<Seq<u8>>,
    next: UserConfigView,
    r: Result<UserConfig, StoreError>,
) -> bool {
    if !configs.user_unchanged(current) {
        r matches Err(StoreError::ConfigConflict { path }) && path@ == user_path(
            configs.bone_home,
        )
    } else {
        match user_fault(next) {
            Some(fault) => r matches Err(error) && reports(error, fault),
            None => r matches Ok(config) && config@ == next,
        }
    }
}

/// Whether opening the configuration files gives this answer.
pub open spec fn opens_configs(
    bone_home: FilePath,
    content: FileContent<UserConfig>,
    defaults: AdapterDefaults,
    r: Result<FileConfigs, StoreError>,
) -> bool {
    if !crate::path::absolute(bone_home@) {
        r matches Err(StoreError::RelativeRoot { path }) && path@ == bone_home@
    } else {
        match user_loaded(content, defaults) {
            Ok((value, digest)) => {
                &&& r matches Ok(configs)
                &&& configs@ == (FileConfigsView {
                    bone_home: bone_home@,
                    user: value,
                    user_digest: digest,
                    projects: Map::empty(),
                })
            },
            Err(fault) => r matches Err(error) && reports(error, fault),
        }
    }
}

/// Whether loading the file of a project gives these files and this answer.
pub open spec fn loads_project(
    before: FileConfigsView,
    workspace: WorkspaceInfo,
    path: FilePath,
    content: FileContent<ProjectConfig>,
    after: FileConfigsView,
    r: Result<ProjectConfigStatus, StoreError>,
) -> bool {
    match project_loaded(content) {
        Ok((value, digest)) => {
            &&& after == (FileConfigsView {
                projects: before.projects.insert(
                    workspace_key(workspace.id),
                    ProjectStateView { root: workspace.root@, value, digest },
                ),
                ..before
            })
            &&& r matches Ok(status)
            &&& status.path == path
            &&& status.exists == (digest is Some)
            &&& status.overrides == value.overrides
        },
        Err(fault) => {
            &&& after == before
            &&& r matches Err(error) && reports(error, fault)
        },
    }
}

/// Whether reading the file of the user again gives these files and this answer.
pub open spec fn reloads_user_file(
    before: FileConfigsView,
    content: FileContent<UserConfig>,
    defaults: AdapterDefaults,
    after: FileConfigsView,
    r: Result<(), StoreError>,
) -> bool {
    match user_loaded(content, defaults) {
        Ok((value, digest)) => {
            &&& r is Ok
            &&& after == (FileConfigsView {
                user: value,
                user_digest: digest,
                ..before
            })
        },
        Err(fault) => {
            &&& after == before
            &&& r matches Err(error) && reports(error, fault)
        },
    }
}

/// Whether reading both files again gives these files and this answer.
pub open spec fn reloads_both_files(
    before: FileConfigsView,
    user: FileContent<UserConfig>,
    defaults: AdapterDefaults,
    workspace: WorkspaceInfo,
    path: FilePath,
    project: FileContent<ProjectConfig>,
    after: FileConfigsView,
    r: Result<ProjectConfigStatus, StoreError>,
) -> bool {
    match user_loaded(user, defaults) {
        Err(fault) => {
            &&& after == before
            &&& r matches Err(error) && reports(error, fault)
        },
        Ok((user_value, user_digest)) => match project_loaded(project) {
            Err(fault) => {
                &&& after == before
                &&& r matches Err(error) && reports(error, fault)
            },
            Ok((value, digest)) => {
                &&& after == (FileConfigsView {
                    bone_home: before.bone_home,
                    user: user_value,
                    user_digest,
                    projects: before.projects.insert(
                        workspace_key(workspace.id),
                        ProjectStateView { root: workspace.root@, value, digest },
                    ),
                })
                &&& r matches Ok(status)
                &&& status.path == path
                &&& status.exists == (digest is Some)
                &&& status.overrides == value.overrides
            },
        },
    }
}

/// Whether this is what is known of the file of a project.
pub open spec fn gives_status(
    configs: FileConfigsView,
    workspace: WorkspaceId,
    r: Option<ProjectConfigStatus>,
) -> bool {
    if configs.has_project(workspace) {
        let project = configs.project(workspace);
        &&& r matches Some(status)
        &&& status.path@ == project_path_of(project.root)
        &&& status.exists == (project.digest is Some)
        &&& status.overrides == project.value.overrides
    } else {
        r is None
    }
}

/// Whether deleting a profile from the file of the user gives this answer.
pub open spec fn deletes_profile_of_user(
    configs: FileConfigsView,
    name: Seq<char>,
    current: Option<Seq<u8>>,
    r: Result<Option<UserConfig>, StoreError>,
) -> bool {
    let next = UserConfigView {
        profiles: without_profile(configs.user.profiles, name),
        ..configs.user
    };
    if !configs.user_unchanged(current) {
        r matches Err(StoreError::ConfigConflict { path }) && path@ == user_path(
            configs.bone_home,
        )
    } else if !holds_profile(configs.user.profiles, name) {
        r matches Ok(None)
    } else {
        match user_fault(next) {
            Some(fault) => r matches Err(error) && reports(error, fault),
            None => r matches Ok(Some(config)) && config@ == next,
        }
    }
}

/// Whether a written file of the user gives these files and this answer.
pub open spec fn publishes_user(
    before: FileConfigsView,
    next: UserConfigView,
    bytes: Seq<u8>,
    after: FileConfigsView,
    r: RuntimeOverrides,
) -> bool {
    &&& after == (FileConfigsView {
        user: next,
        user_digest: Some(sha256_hex_of(bytes)),
        ..before
    })
    &&& r == as_overrides(next.settings)
}

/// Whether a change of the file of a project gives this answer.
pub open spec fn updates_project(
    configs: FileConfigsView,
    workspace: WorkspaceId,
    change: ConfigChange,
    path: FilePath,
    current: Option<Seq<u8>>,
    r: Result<ProjectConfig, StoreError>,
) -> bool {
    if !configs.has_project(workspace) {
        r matches Err(error) && error == (StoreError::Corrupt {
            message: "workspace configuration was not loaded",
        })
    } else {
        let project = configs.project(workspace);
        let next = ProjectConfig {
            overrides: changed_overrides(project.value.overrides, change),
            ..project.value
        };
        if digest_of(current) != project.digest {
            r matches Err(StoreError::ConfigConflict { path: found }) && found == path
        } else {
            match project_fault(next) {
                Some(fault) => r matches Err(error) && reports(error, fault),
                None => r matches Ok(config) && config == next,
            }
        }
    }
}

/// Whether a written file of a project gives these files and this answer.
pub open spec fn publishes_project(
    before: FileConfigsView,
    workspace: WorkspaceId,
    next: ProjectConfig,
    bytes: Seq<u8>,
    after: FileConfigsView,
    r: RuntimeOverrides,
) -> bool {
    &&& after == (FileConfigsView {
        projects: before.projects.insert(
            workspace_key(workspace),
            ProjectStateView {
                value: next,
                digest: Some(sha256_hex_of(bytes)),
                ..before.project(workspace)
            },
        ),
        ..before
    })
    &&& r == next.overrides
}

impl FileConfigs {
    /// Takes up the user's configuration at an absolute home directory.
    pub fn open(bone_home: FilePath, content: FileContent<UserConfig>, defaults: AdapterDefaults) -> (r: Result<
        FileConfigs,
        StoreError,
    >)
        requires
            defaults.usable(),
        ensures
            opens_configs(bone_home, content, defaults, r),
    {
        if !bone_home.is_absolute() {
            return Err(StoreError::RelativeRoot { path: bone_home });
        }
        match load_user(content, defaults) {
            Ok((user, user_digest)) => {
                let configs = FileConfigs {
                    bone_home,
                    user,
                    user_digest,
                    projects: Table::new(),
                };
                proof {
                    assert(configs@.projects =~= Map::<DocumentKey, ProjectStateView>::empty());
                }
                Ok(configs)
            },
            Err(error) => Err(error),
        }
    }

    /// Takes up the configuration of a workspace whose file stands at `path`.
    pub fn load_workspace(
        &mut self,
        workspace: &WorkspaceInfo,
        path: FilePath,
        content: FileContent<ProjectConfig>,
    ) -> (r: Result<ProjectConfigStatus, StoreError>)
        ensures
            loads_project(old(self)@, *workspace, path, content, final(self)@, r),
    {
        match load_project(content) {
            Ok((value, digest)) => Ok(self.put_project(workspace, path, value, digest)),
            Err(error) => Err(error),
        }
    }

    fn put_project(
        &mut self,
        workspace: &WorkspaceInfo,
        path: FilePath,
        value: ProjectConfig,
        digest: Option<String>,
    ) -> (status: ProjectConfigStatus)
        ensures
            final(self)@ == (FileConfigsView {
                projects: old(self)@.projects.insert(
                    workspace_key(workspace.id),
                    ProjectStateView {
                        root: workspace.root@,
                        value,
                        digest: digest_view(digest),
                    },
                ),
                ..old(self)@
            }),
            status.path == path,
            status.exists == (digest is Some),
            status.overrides == value.overrides,
    {
        let ghost start = self@;
        let status = ProjectConfigStatus {
            path,
            exists: digest.is_some(),
            overrides: value.overrides.clone(),
        };
        let project = ProjectState { root: workspace.root.copy(), value, digest };
        let ghost added = project@;
        self.projects.put(make_workspace_key(workspace.id), project);
        proof {
            assert(self@.projects =~= start.projects.insert(workspace_key(workspace.id), added));
            assert(self@ =~= (FileConfigsView {
                projects: start.projects.insert(workspace_key(workspace.id), added),
                ..start
            }));
        }
        status
    }

    /// Takes up the user's configuration again.
    pub fn reload_user(&mut self, content: FileContent<UserConfig>, defaults: AdapterDefaults) -> (r: Result<
        (),
        StoreError,
    >)
        requires
            defaults.usable(),
        ensures
            reloads_user_file(old(self)@, content, defaults, final(self)@, r),
    {
        match load_user(content, defaults) {
            Ok((user, user_digest)) => {
                self.user = user;
                self.user_digest = user_digest;
                Ok(())
            },
            Err(error) => Err(error),
        }
    }

    /// Takes up both files again, or neither where one of them is invalid.
    pub fn reload_all(
        &mut self,
        user: FileContent<UserConfig>,
        defaults: AdapterDefaults,
        workspace: &WorkspaceInfo,
        path: FilePath,
        project: FileContent<ProjectConfig>,
    ) -> (r: Result<ProjectConfigStatus, StoreError>)
        requires
            defaults.usable(),
        ensures
            reloads_both_files(old(self)@, user, defaults, *workspace, path, project, final(self)@, r),
    {
        let (user_value, user_digest) = match load_user(user, defaults) {
            Ok(loaded) => loaded,
            Err(error) => {
                return Err(error);
            },
        };
        let (value, digest) = match load_project(project) {
            Ok(loaded) => loaded,
            Err(error) => {
                return Err(error);
            },
        };
        self.user = user_value;
        self.user_digest = user_digest;
        Ok(self.put_project(workspace, path, value, digest))
    }

    /// The user's settings.
    pub fn user_settings(&self) -> (r: RuntimeSettings)
        ensures
            r == self@.user.settings,
    {
        self.user.settings.clone()
    }

    /// The user's profiles.
    pub fn profiles(&self) -> (r: Vec<Profile>)
        ensures
            profile_views(r@) == self@.user.profiles,
    {
        copy_profiles(&self.user.profiles)
    }

    /// What a workspace overrides; nothing where its file was not loaded.
    pub fn overrides(&self, workspace: WorkspaceId) -> (r: RuntimeOverrides)
        ensures
            r == (if self@.has_project(workspace) {
                self@.project(workspace).value.overrides
            } else {
                RuntimeOverrides::none()
            }),
    {
        match self.projects.get(&make_workspace_key(workspace)) {
            Some(project) => project.value.overrides.clone(),
            None => RuntimeOverrides::default(),
        }
    }

    /// What is known of the configuration file of a workspace that was loaded.
    pub fn project_status(&self, workspace: WorkspaceId) -> (r: Option<ProjectConfigStatus>)
        ensures
            gives_status(self@, workspace, r),
    {
        match self.projects.get(&make_workspace_key(workspace)) {
            Some(project) => Some(
                ProjectConfigStatus {
                    path: project_path(&project.root),
                    exists: project.digest.is_some(),
                    overrides: project.value.overrides.clone(),
                },
            ),
            None => None,
        }
    }

    fn conflict(&self) -> (r: StoreError)
        ensures
            r matches StoreError::ConfigConflict { path } && path@ == user_path(self@.bone_home),
    {
        StoreError::ConfigConflict { path: self.bone_home.join(&FilePath::from_text("config.toml")) }
    }

    /// The user's configuration after a change, to be written in place of the file whose bytes
    /// are `current`.
    pub fn update(
        &self,
        change: ConfigChange,
        defaults: AdapterDefaults,
        current: &Option<Vec<u8>>,
    ) -> (r: Result<UserConfig, StoreError>)
        ensures
            user_change(
                self@,
                bytes_view(*current),
                UserConfigView {
                    settings: changed_settings(self@.user.settings, change, defaults),
                    ..self@.user
                },
                r,
            ),
    {
        if !unchanged(current, &self.user_digest) {
            return Err(self.conflict());
        }
        let mut next = self.user.copy();
        apply_settings_change(&mut next.settings, change, defaults);
        match validate_user(&next) {
            Ok(_) => Ok(next),
            Err(error) => Err(error),
        }
    }

    /// The user's configuration with a profile saved, to be written in place of the file whose
    /// bytes are `current`.
    pub fn save_profile(&self, profile: Profile, current: &Option<Vec<u8>>) -> (r: Result<
        UserConfig,
        StoreError,
    >)
        ensures
            user_change(
                self@,
                bytes_view(*current),
                UserConfigView {
                    profiles: with_profile(self@.user.profiles, profile@),
                    ..self@.user
                },
                r,
            ),
    {
        if !unchanged(current, &self.user_digest) {
            return Err(self.conflict());
        }
        let mut next = self.user.copy();
        upsert_profile(&mut next.profiles, profile);
        match validate_user(&next) {
            Ok(_) => Ok(next),
            Err(error) => Err(error),
        }
    }

    /// The user's configuration without a profile, to be written in place of the file whose bytes
    /// are `current`; nothing where there is no such profile, and then nothing is to be written.
    pub fn delete_profile(&self, profile: &ProfileId, current: &Option<Vec<u8>>) -> (r: Result<
        Option<UserConfig>,
        StoreError,
    >)
        ensures
            deletes_profile_of_user(self@, profile@, bytes_view(*current), r),
    {
        if !unchanged(current, &self.user_digest) {
            return Err(self.conflict());
        }
        let ghost views = profile_views(self.user.profiles@);
        let ghost keep = other_than(profile@);
        let mut kept: Vec<Profile> = Vec::new();
        let mut found = false;
        let mut i: usize = 0;
        proof {
            lemma_filter_none(views, keep);
            assert(profile_views(kept@) =~= Seq::<ProfileView>::empty());
        }
        while i < self.user.profiles.len()
            invariant
                i <= self.user.profiles@.len(),
                views == profile_views(self.user.profiles@),
                keep == other_than(profile@),
                profile_views(kept@) == views.take(i as int).filter(keep),
                found == (exists|j: int| 0 <= j < i && (#[trigger] views[j]).id@ == profile@),
            decreases self.user.profiles@.len() - i,
        {
            let item = &self.user.profiles[i];
            proof {
                assert(views[i as int] == item@);
                lemma_filter_step(views, i as int, keep);
            }
            if item.id.same(profile) {
                found = true;
                proof {
                    assert(views[i as int].id@ == profile@);
                }
            } else {
                let ghost earlier = profile_views(kept@);
                kept.push(item.copy());
                proof {
                    assert(profile_views(kept@) =~= earlier.push(views[i as int]));
                }
            }
            i = i + 1;
        }
        proof {
            lemma_take_all(views);
            assert(found == holds_profile(views, profile@));
        }
        if !found {
            return Ok(None);
        }
        let next = UserConfig {
            schema_version: self.user.schema_version,
            settings: self.user.settings.clone(),
            profiles: kept,
        };
        match validate_user(&next) {
            Ok(_) => Ok(Some(next)),
            Err(error) => Err(error),
        }
    }

    /// Takes up a user configuration that was written as `bytes`, and returns its settings.
    pub fn publish_user(&mut self, next: UserConfig, bytes: &[u8]) -> (r: RuntimeOverrides)
        ensures
            publishes_user(old(self)@, next@, bytes@, final(self)@, r),
    {
        let r = settings_as_overrides(&next.settings);
        self.user = next;
        self.user_digest = Some(sha256_hex(bytes));
        r
    }

    /// The configuration of a loaded workspace after a change, to be written to `path` in place of
    /// the file whose bytes are `current`.
    pub fn update_workspace(
        &self,
        workspace: WorkspaceId,
        change: ConfigChange,
        path: FilePath,
        current: &Option<Vec<u8>>,
    ) -> (r: Result<ProjectConfig, StoreError>)
        ensures
            updates_project(self@, workspace, change, path, bytes_view(*current), r),
    {
        match self.projects.get(&make_workspace_key(workspace)) {
            Some(project) => {
                if !unchanged(current, &project.digest) {
                    return Err(StoreError::ConfigConflict { path });
                }
                let mut next = project.value.clone();
                apply_override_change(&mut next.overrides, change);
                match validate_project(&next) {
                    Ok(_) => Ok(next),
                    Err(error) => Err(error),
                }
            },
            None => Err(
                StoreError::Corrupt { message: "workspace configuration was not loaded" },
            ),
        }
    }

    /// Takes up the configuration of a loaded workspace that was written as `bytes`, and returns
    /// what it overrides.
    pub fn publish_workspace(&mut self, workspace: WorkspaceId, next: ProjectConfig, bytes: &[u8]) -> (r: RuntimeOverrides)
        requires
            old(self)@.has_project(workspace),
        ensures
            publishes_project(old(self)@, workspace, next, bytes@, final(self)@, r),
    {
        let ghost start = self@;
        let key = make_workspace_key(workspace);
        let r = next.overrides.clone();
        let mut project = self.projects.take(&key).unwrap();
        project.value = next;
        project.digest = Some(sha256_hex(bytes));
        let ghost updated = project@;
        self.projects.put(key, project);
        proof {
            assert(self@.projects =~= start.projects.insert(key, updated));
            assert(self@ =~= (FileConfigsView {
                projects: start.projects.insert(key, updated),
                ..start
            }));
        }
        r
    }
}

/// What stands at a path.
#[derive(Clone, Copy, Debug, PartialEq, Eq, Structural)]
pub enum FoundEntry {
    Missing,
    Directory,
    /// A symbolic link, or anything else that is no directory.
    Other,
}

/// What to do next about the configuration directory of a project.
#[derive(Debug, PartialEq, Eq)]
pub enum ProjectStep {
    /// The file is at this path; there is no directory yet.
    Absent { path: FilePath },
    /// Make the directory and look again.
    Create { directory: FilePath },
    /// Resolve the directory.
    Resolve { directory: FilePath },
    /// The directory must not be used.
    Refuse { directory: FilePath, reason: &'static str },
}

/// The configuration directory of a project.
pub open spec fn project_directory(root: Seq<u8>) -> Seq<u8> {
    joined(root, vstd::utf8::encode_utf8(".bone"@))
}

/// Whether this is what to do about the configuration directory of a project.
pub open spec fn inspects(
    root: Seq<u8>,
    found: FoundEntry,
    create: bool,
    r: ProjectStep,
) -> bool {
    match found {
        FoundEntry::Other => r matches ProjectStep::Refuse { directory, reason }
            && directory@ == project_directory(root) && reason
            == "project .bone must be a real directory",
        FoundEntry::Directory => r matches ProjectStep::Resolve { directory } && directory@
            == project_directory(root),
        FoundEntry::Missing => if create {
            r matches ProjectStep::Create { directory } && directory@ == project_directory(
                root,
            )
        } else {
            r matches ProjectStep::Absent { path } && path@ == joined(
                project_directory(root),
                vstd::utf8::encode_utf8("config.toml"@),
            )
        },
    }
}

/// Decides what to do about the configuration directory of a project with a resolved root.
pub fn inspect_project_directory(root: &FilePath, found: FoundEntry, create: bool) -> (r: ProjectStep)
    ensures
        inspects(root@, found, create, r),
{
    let directory = root.join(&FilePath::from_text(".bone"));
    match found {
        FoundEntry::Other => ProjectStep::Refuse {
            directory,
            reason: "project .bone must be a real directory",
        },
        FoundEntry::Directory => ProjectStep::Resolve { directory },
        FoundEntry::Missing => if create {
            ProjectStep::Create { directory }
        } else {
            ProjectStep::Absent { path: directory.join(&FilePath::from_text("config.toml")) }
        },
    }
}

/// Whether this is the path of a project file in a resolved directory.
pub open spec fn resolves_path(
    root: Seq<u8>,
    resolved: Seq<u8>,
    r: Result<FilePath, StoreError>,
) -> bool {
    if parent_of(resolved) == Some(root) {
        r matches Ok(path) && path@ == joined(
            resolved,
            vstd::utf8::encode_utf8("config.toml"@),
        )
    } else {
        r matches Err(StoreError::UnsafeStorage { path, reason }) && path@
            == project_directory(root) && reason == "project .bone escapes the workspace root"
    }
}

/// The path of a project's configuration file in its resolved directory, refused where the
/// directory does not stand directly in the resolved root.
pub fn resolved_project_path(root: &FilePath, resolved: &FilePath) -> (r: Result<FilePath, StoreError>)
    ensures
        resolves_path(root@, resolved@, r),
{
    let inside = match resolved.parent() {
        Some(parent) => parent.same(root),
        None => false,
    };
    if inside {
        Ok(resolved.join(&FilePath::from_text("config.toml")))
    } else {
        Err(
            StoreError::UnsafeStorage {
                path: root.join(&FilePath::from_text(".bone")),
                reason: "project .bone escapes the workspace root",
            },
        )
    }
}

/// A user configuration that was just written can be changed again: the file on disk is the one
/// that was loaded.
pub proof fn law_published_file_is_current(
    configs: FileConfigsView,
    next: UserConfigView,
    bytes: Seq<u8>,
)
    ensures
        (FileConfigsView {
            user: next,
            user_digest: Some(sha256_hex_of(bytes)),
            ..configs
        }).user_unchanged(Some(bytes)),
{
}

/// A file with another digest than the loaded one is never written over.
pub proof fn law_foreign_edit_is_a_conflict(
    configs: FileConfigsView,
    current: Seq<u8>,
    next: UserConfigView,
    r: Result<UserConfig, StoreError>,
)
    requires
        configs.user_digest != Some(sha256_hex_of(current)),
        user_change(configs, Some(current), next, r),
    ensures
        r matches Err(StoreError::ConfigConflict { path }) && path@ == user_path(configs.bone_home),
{
}

/// A saved profile is found under its name, and the profiles of other names stay in their order.
pub proof fn law_saved_profile_is_found(profiles: Seq<ProfileView>, profile: ProfileView)
    ensures
        holds_profile(with_profile(profiles, profile), profile.id@),
        without_profile(with_profile(profiles, profile), profile.id@) == without_profile(
            profiles,
            profile.id@,
        ),
    decreases profiles.len(),
{
    let name = profile.id@;
    let keep = other_than(name);
    if profiles.len() == 0 {
        assert(with_profile(profiles, profile)[0].id@ == name);
        reveal_with_fuel(Seq::filter, 2);
        assert(seq![profile].drop_last() =~= Seq::<ProfileView>::empty());
        assert(without_profile(seq![profile], name) =~= Seq::<ProfileView>::empty());
        assert(without_profile(profiles, name) =~= Seq::<ProfileView>::empty());
    } else {
        let rest = profiles.skip(1);
        assert(profiles =~= seq![profiles[0]] + rest);
        if profiles[0].id@ == name {
            let after = profiles.update(0, profile);
            assert(after[0].id@ == name);
            assert(after =~= seq![profile] + rest);
            lemma_filter_front(profile, rest, keep);
            lemma_filter_front(profiles[0], rest, keep);
        } else {
            law_saved_profile_is_found(rest, profile);
            let tail = with_profile(rest, profile);
            let k = choose|k: int| 0 <= k < tail.len() && (#[trigger] tail[k]).id@ == name;
            assert((seq![profiles[0]] + tail)[k + 1].id@ == name);
            lemma_filter_front(profiles[0], tail, keep);
            lemma_filter_front(profiles[0], rest, keep);
        }
    }
}

/// A deleted profile is gone, and deleting it again changes nothing.
pub proof fn law_deleted_profile_is_gone(profiles: Seq<ProfileView>, name: Seq<char>)
    ensures
        !holds_profile(without_profile(profiles, name), name),
        without_profile(without_profile(profiles, name), name) == without_profile(profiles, name),
{
    let keep = other_than(name);
    let kept = without_profile(profiles, name);
    assert forall|i: int| 0 <= i < kept.len() implies (#[trigger] kept[i]).id@ != name by {
        lemma_filter_keeps(profiles, keep, i);
    }
    lemma_filter_all(kept, keep);
}

} // verus!

//! What becomes of the configuration files as they are read, changed and written.

use vstd::prelude::*;

use crate::app::config_files::{reloads_both, reloads_project, reloads_user, shows_project};
use crate::app::configuring::{
    change_problem, expects_profile, finds_profile, gives_workspace_resolved, scope_problem,
    updates_config, ConfigUpdate,
};
use crate::app::keys::{provisions, sets_key};
use crate::app::App;
use crate::config::{
    lemma_first_profile, ConfigChange, ConfigProblem, ConfigScope, ModelSelection,
    Profile, ProfileId, ProfileView, Protocol, ResolvedConfig, RuntimeOverrides,
};
use crate::credentials::{
    fingerprint_of, reads_key, saved_keys, saves_key, ApiKey, ApiKeyCredentialError,
    ApiKeyCredentials, CredentialContent, CredentialFile,
};
use crate::document::DocumentKey;
use crate::error::{CredentialProblemKind, Error, StoreError};
use crate::file_config::{
    deletes_profile_of_user, gives_status, inspects, loads_project, opens_configs, project_fault,
    publishes_project, publishes_user, reloads_both_files, reloads_user_file, resolves_path,
    updates_project, user_change, user_fault, AdapterDefaults, FileConfigs, FileConfigsView,
    FileContent, FoundEntry, ProjectConfig, ProjectConfigStatus, ProjectStep, UserConfig,
    UserConfigView,
};
use crate::hashing::sha256_hex_of;
use crate::ids::{SessionId, WorkspaceId};
use crate::laws::configuration::law_saved_key_goes_to_its_own_endpoint;
use crate::api::WorkspaceInfo;
use crate::path::{absolute, joined, parent_of, FilePath};
use crate::persistence::keys::workspace_key;
use crate::persistence::profile_views;
use crate::seqs::lemma_filter_keeps;

verus! {

/// A project's file is held as it was read: with its root, its values and the digest of its bytes.
/// An absent one is held too; it overrides nothing. The answer tells the path, whether there is a
/// file and what it overrides. Other projects and the user's configuration stay as they were.
pub proof fn law_loaded_projects_are_held(
    before: FileConfigsView,
    workspace: WorkspaceInfo,
    path: FilePath,
    content: FileContent<ProjectConfig>,
    after: FileConfigsView,
    r: Result<ProjectConfigStatus, StoreError>,
    other: WorkspaceId,
)
    requires
        loads_project(before, workspace, path, content, after, r),
    ensures
        r is Ok <==> (content is Absent || (content matches FileContent::Read { value, .. }
            && project_fault(value) is None)),
        r is Err ==> after == before,
        r matches Ok(status) ==> {
            let held = after.projects[workspace_key(workspace.id)];
            &&& after.projects.dom() == before.projects.dom().insert(workspace_key(workspace.id))
            &&& held.root == workspace.root@
            &&& status.path == path
            &&& status.overrides == held.value.overrides
            &&& content matches FileContent::Read { bytes, value } ==> {
                &&& held.value == value
                &&& held.digest == Some(sha256_hex_of(bytes@))
                &&& status.exists
            }
            &&& content is Absent ==> {
                &&& held.digest is None
                &&& !status.exists
                &&& held.value.schema_version == 1
                &&& status.overrides.worker is None
                &&& status.overrides.coordinator is None
                &&& status.overrides.limits is None
                &&& status.overrides.tools is None
            }
        },
        other != workspace.id ==> after.projects[workspace_key(other)]
            == before.projects[workspace_key(other)],
        after.user == before.user,
        after.user_digest == before.user_digest,
        after.bone_home == before.bone_home,
        content matches FileContent::NotUtf8 { path: shown } ==> (r matches Err(
            StoreError::ConfigFile { message },
        ) && message@ == shown@ + " is not UTF-8"@),
        content matches FileContent::Invalid { path: shown, error } ==> (r matches Err(
            StoreError::ConfigFile { message },
        ) && message@ == shown@ + ": "@ + error@),
        content matches FileContent::Read { value, .. } ==> (value.schema_version != 1 ==> r == Err::<
            ProjectConfigStatus,
            StoreError,
        >(StoreError::ConfigVersion { expected: 1, actual: value.schema_version })),
{
    assert(workspace_key(workspace.id).owner == workspace.id.0);
    assert(workspace_key(other).owner == other.0);
}

/// What loading a project's file answers is what its status tells afterwards, but for the path,
/// which is always the one below the project's root.
pub proof fn law_loaded_projects_are_shown(
    before: FileConfigsView,
    workspace: WorkspaceInfo,
    path: FilePath,
    content: FileContent<ProjectConfig>,
    after: FileConfigsView,
    loaded: ProjectConfigStatus,
    r: Option<ProjectConfigStatus>,
)
    requires
        loads_project(before, workspace, path, content, after, Ok(loaded)),
        gives_status(after, workspace.id, r),
    ensures
        r matches Some(status) && status.exists == loaded.exists && status.overrides
            == loaded.overrides && status.path@ == joined(
            workspace.root@,
            vstd::utf8::encode_utf8(".bone/config.toml"@),
        ),
{
}

/// A project whose file was never loaded has no status.
pub proof fn law_unloaded_projects_have_no_status(
    configs: FileConfigsView,
    workspace: WorkspaceId,
    r: Option<ProjectConfigStatus>,
)
    requires
        gives_status(configs, workspace, r),
    ensures
        r is Some <==> configs.projects.dom().contains(workspace_key(workspace)),
{
}

/// A user's file is held as it was read: with its values and the digest of its bytes. A refused one
/// changes nothing, and no project is touched.
pub proof fn law_reloaded_user_files_are_held(
    before: FileConfigsView,
    content: FileContent<UserConfig>,
    defaults: AdapterDefaults,
    after: FileConfigsView,
    r: Result<(), StoreError>,
)
    requires
        reloads_user_file(before, content, defaults, after, r),
    ensures
        after.projects == before.projects,
        after.bone_home == before.bone_home,
        r is Err ==> after == before,
        content matches FileContent::Read { bytes, value } ==> {
            &&& r is Ok <==> user_fault(value@) is None
            &&& r is Ok ==> after.user == value@ && after.user_digest == Some(sha256_hex_of(bytes@))
        },
        content is Absent && r is Ok ==> after.user_digest is None && after.user.profiles.len() == 0
            && after.user.settings.worker is None && after.user.settings.coordinator is None,
        content matches FileContent::NotUtf8 { path: shown } ==> (r matches Err(
            StoreError::ConfigFile { message },
        ) && message@ == shown@ + " is not UTF-8"@),
        content matches FileContent::Invalid { path: shown, error } ==> (r matches Err(
            StoreError::ConfigFile { message },
        ) && message@ == shown@ + ": "@ + error@),
        content matches FileContent::Read { value, .. } ==> (value@.schema_version != 1 ==> r
            == Err::<(), StoreError>(
            StoreError::ConfigVersion { expected: 1, actual: value@.schema_version },
        )),
{
}

/// Reading both files again is reading the user's and then the project's, or neither: where one of
/// them is refused, nothing changes.
pub proof fn law_both_files_are_reloaded_or_neither(
    before: FileConfigsView,
    user: FileContent<UserConfig>,
    defaults: AdapterDefaults,
    workspace: WorkspaceInfo,
    path: FilePath,
    project: FileContent<ProjectConfig>,
    after: FileConfigsView,
    r: Result<ProjectConfigStatus, StoreError>,
    between: FileConfigsView,
    first: Result<(), StoreError>,
    last: FileConfigsView,
    second: Result<ProjectConfigStatus, StoreError>,
)
    requires
        reloads_both_files(before, user, defaults, workspace, path, project, after, r),
        reloads_user_file(before, user, defaults, between, first),
        loads_project(between, workspace, path, project, last, second),
    ensures
        r is Ok <==> first is Ok && second is Ok,
        r is Err ==> after == before,
        r is Ok ==> after == last && r->Ok_0.exists == second->Ok_0.exists && r->Ok_0.path
            == second->Ok_0.path && r->Ok_0.overrides == second->Ok_0.overrides,
{
}

/// The files are opened below an absolute directory only. They hold what the user's file says, and
/// no project yet.
pub proof fn law_files_are_opened_below_a_root(
    bone_home: FilePath,
    content: FileContent<UserConfig>,
    defaults: AdapterDefaults,
    r: Result<FileConfigs, StoreError>,
)
    requires
        opens_configs(bone_home, content, defaults, r),
    ensures
        !absolute(bone_home@) ==> (r matches Err(StoreError::RelativeRoot { path }) && path@
            == bone_home@),
        r matches Ok(configs) ==> absolute(bone_home@) && configs@.bone_home == bone_home@
            && configs@.projects.dom() == Set::<DocumentKey>::empty(),
        absolute(bone_home@) ==> (content matches FileContent::Read { bytes, value } ==> {
            &&& r is Ok <==> user_fault(value@) is None
            &&& r matches Ok(configs) ==> configs@.user == value@ && configs@.user_digest == Some(
                sha256_hex_of(bytes@),
            )
        }),
{
    if r is Ok {
        assert(r->Ok_0@.projects.dom() =~= Set::<DocumentKey>::empty());
    }
}

/// A change of the user's configuration is granted exactly where the file is still the one that was
/// read and the changed configuration is valid. Then it is the changed configuration that is to be
/// written. Where the file is another one, or came or went, the change is refused as a conflict.
pub proof fn law_user_changes_need_the_file_that_was_read(
    configs: FileConfigsView,
    current: Option<Seq<u8>>,
    next: UserConfigView,
    r: Result<UserConfig, StoreError>,
)
    requires
        user_change(configs, current, next, r),
    ensures
        ({
            let same = match (current, configs.user_digest) {
                (Some(bytes), Some(digest)) => sha256_hex_of(bytes) == digest,
                (None, None) => true,
                _ => false,
            };
            &&& r is Ok <==> same && user_fault(next) is None
            &&& r matches Ok(config) ==> config@ == next
            &&& !same <==> (r matches Err(StoreError::ConfigConflict { .. }))
            &&& r matches Err(StoreError::ConfigConflict { path }) ==> path@ == joined(
                configs.bone_home,
                vstd::utf8::encode_utf8("config.toml"@),
            )
        }),
{
}

/// A written configuration of the user is held at once: its values, the digest of its bytes and
/// nothing else change, and what is returned overrides with its settings. It can be changed again
/// as long as the file has those bytes.
pub proof fn law_written_user_configuration_is_held(
    before: FileConfigsView,
    next: UserConfigView,
    bytes: Seq<u8>,
    after: FileConfigsView,
    r: RuntimeOverrides,
    further: UserConfigView,
    again: Result<UserConfig, StoreError>,
)
    requires
        publishes_user(before, next, bytes, after, r),
        user_change(after, Some(bytes), further, again),
    ensures
        after.user == next,
        after.user_digest == Some(sha256_hex_of(bytes)),
        after.projects == before.projects,
        after.bone_home == before.bone_home,
        r.worker == next.settings.worker,
        r.coordinator == next.settings.coordinator,
        r.limits == Some(next.settings.limits),
        r.tools == Some(next.settings.tools),
        again is Ok <==> user_fault(further) is None,
        again matches Ok(config) ==> config@ == further,
{
}

/// Deleting a profile gives a configuration to be written only where there is such a profile. That
/// one has no profile of the name, keeps all others, and keeps the settings.
pub proof fn law_deleted_profile_leaves_the_file(
    configs: FileConfigsView,
    name: Seq<char>,
    current: Option<Seq<u8>>,
    r: Result<Option<UserConfig>, StoreError>,
    at: int,
)
    requires
        deletes_profile_of_user(configs, name, current, r),
        0 <= at < configs.user.profiles.len(),
    ensures
        r matches Ok(None) ==> configs.user.profiles[at].id@ != name,
        r matches Ok(Some(config)) ==> {
            &&& config@.settings == configs.user.settings
            &&& config@.schema_version == configs.user.schema_version
            &&& configs.user.profiles[at].id@ != name ==> config@.profiles.contains(
                configs.user.profiles[at],
            )
            &&& forall|i: int|
                0 <= i < config@.profiles.len() ==> (#[trigger] config@.profiles[i]).id@ != name
                    && configs.user.profiles.contains(config@.profiles[i])
        },
        (current is None) != (configs.user_digest is None) ==> (r matches Err(
            StoreError::ConfigConflict { .. },
        )),
{
    let all = configs.user.profiles;
    let keep = crate::file_config::other_than(name);
    broadcast use vstd::seq_lib::group_filter_ensures;

    assert forall|i: int| 0 <= i < all.filter(keep).len() implies (#[trigger] all.filter(
        keep,
    )[i]).id@ != name && all.contains(all.filter(keep)[i]) by {
        lemma_filter_keeps(all, keep, i);
    }
}

/// A change of a project's configuration is granted exactly where its file was loaded, is still the
/// one that was read, and stays valid. What is to be written differs in what the change names.
pub proof fn law_project_changes_need_the_file_that_was_read(
    configs: FileConfigsView,
    workspace: WorkspaceId,
    change: ConfigChange,
    path: FilePath,
    current: Option<Seq<u8>>,
    r: Result<ProjectConfig, StoreError>,
)
    requires
        updates_project(configs, workspace, change, path, current, r),
    ensures
        ({
            let held = configs.projects[workspace_key(workspace)];
            let loaded = configs.projects.dom().contains(workspace_key(workspace));
            let same = match (current, held.digest) {
                (Some(bytes), Some(digest)) => sha256_hex_of(bytes) == digest,
                (None, None) => true,
                _ => false,
            };
            &&& r is Ok ==> loaded && same
            &&& !loaded ==> r == Err::<ProjectConfig, StoreError>(
                StoreError::Corrupt { message: "workspace configuration was not loaded" },
            )
            &&& loaded && !same <==> (r matches Err(StoreError::ConfigConflict { .. }))
            &&& r matches Err(StoreError::ConfigConflict { path: found }) ==> found == path
            &&& r matches Ok(next) ==> {
                &&& project_fault(next) is None
                &&& next.schema_version == held.value.schema_version
                &&& change matches ConfigChange::Worker(value) ==> next.overrides
                    == (RuntimeOverrides { worker: value, ..held.value.overrides })
                &&& change matches ConfigChange::Coordinator(value) ==> next.overrides
                    == (RuntimeOverrides { coordinator: value, ..held.value.overrides })
                &&& change matches ConfigChange::Model(value) ==> next.overrides
                    == (RuntimeOverrides {
                    worker: value,
                    coordinator: value,
                    ..held.value.overrides
                })
                &&& change matches ConfigChange::Limits(value) ==> next.overrides
                    == (RuntimeOverrides { limits: value, ..held.value.overrides })
                &&& change matches ConfigChange::Tools(value) ==> next.overrides
                    == (RuntimeOverrides { tools: value, ..held.value.overrides })
            }
        }),
{
}

/// A written configuration of a project is held at once, for that project alone, and can be changed
/// again as long as the file has the written bytes.
pub proof fn law_written_project_configuration_is_held(
    before: FileConfigsView,
    workspace: WorkspaceId,
    next: ProjectConfig,
    bytes: Seq<u8>,
    after: FileConfigsView,
    r: RuntimeOverrides,
    change: ConfigChange,
    path: FilePath,
    again: Result<ProjectConfig, StoreError>,
    other: WorkspaceId,
)
    requires
        before.projects.dom().contains(workspace_key(workspace)),
        publishes_project(before, workspace, next, bytes, after, r),
        updates_project(after, workspace, change, path, Some(bytes), again),
    ensures
        r == next.overrides,
        after.projects.dom() == before.projects.dom(),
        after.projects[workspace_key(workspace)].value == next,
        after.projects[workspace_key(workspace)].digest == Some(sha256_hex_of(bytes)),
        after.projects[workspace_key(workspace)].root
            == before.projects[workspace_key(workspace)].root,
        other != workspace ==> after.projects[workspace_key(other)]
            == before.projects[workspace_key(other)],
        after.user == before.user,
        after.user_digest == before.user_digest,
        after.bone_home == before.bone_home,
        !(again matches Err(StoreError::ConfigConflict { .. })),
{
    assert(workspace_key(workspace).owner == workspace.0);
    assert(workspace_key(other).owner == other.0);
    assert(after.projects.dom() =~= before.projects.dom());
}

/// A project's directory is made only on demand and only where there is none. Something else in its
/// place is refused; a directory is resolved before it is used.
pub proof fn law_project_directories_are_real(
    root: Seq<u8>,
    found: FoundEntry,
    create: bool,
    r: ProjectStep,
)
    requires
        inspects(root, found, create, r),
    ensures
        r is Refuse <==> found is Other,
        r is Resolve <==> found is Directory,
        r is Create <==> found is Missing && create,
        r is Absent <==> found is Missing && !create,
        r matches ProjectStep::Refuse { directory, .. } ==> directory@ == joined(
            root,
            vstd::utf8::encode_utf8(".bone"@),
        ),
        r matches ProjectStep::Resolve { directory } ==> directory@ == joined(
            root,
            vstd::utf8::encode_utf8(".bone"@),
        ),
        r matches ProjectStep::Create { directory } ==> directory@ == joined(
            root,
            vstd::utf8::encode_utf8(".bone"@),
        ),
        r matches ProjectStep::Absent { path } ==> path@ == joined(
            joined(root, vstd::utf8::encode_utf8(".bone"@)),
            vstd::utf8::encode_utf8("config.toml"@),
        ),
{
}

/// A project's file is used only in a directory that lies directly below the root after all links
/// are resolved.
pub proof fn law_project_files_stay_in_the_project(
    root: Seq<u8>,
    resolved: Seq<u8>,
    r: Result<FilePath, StoreError>,
)
    requires
        resolves_path(root, resolved, r),
    ensures
        r is Ok <==> parent_of(resolved) == Some(root),
        r matches Ok(path) ==> path@ == joined(resolved, vstd::utf8::encode_utf8("config.toml"@)),
        r matches Err(error) ==> (error matches StoreError::UnsafeStorage { path, .. } && path@
            == joined(root, vstd::utf8::encode_utf8(".bone"@))),
{
}

/// Reading the user's file again needs an open application. Then the file is held or refused as
/// it is without one, and all active sessions are told of a new one; a refused one changes nothing.
pub proof fn law_active_sessions_hear_of_a_user_file(
    app: App,
    held: FileConfigsView,
    content: FileContent<UserConfig>,
    defaults: AdapterDefaults,
    loaded: FileConfigsView,
    r: Result<Vec<SessionId>, Error>,
    alone: FileConfigsView,
    read: Result<(), StoreError>,
)
    requires
        reloads_user(app, held, content, defaults, loaded, r),
        reloads_user_file(held, content, defaults, alone, read),
    ensures
        r is Ok <==> !app.closed && read is Ok,
        r is Ok ==> loaded == alone,
        r matches Ok(told) ==> told@ == app.active(None),
        r is Err ==> loaded == held,
        app.closed ==> r == Err::<Vec<SessionId>, Error>(Error::Closed),
{
}

/// Reading a project's file again needs an open application and a known workspace. Then the file
/// is held or refused as it is without one, and the active sessions of the workspace are told.
pub proof fn law_active_sessions_hear_of_a_project_file(
    app: App,
    held: FileConfigsView,
    workspace: WorkspaceInfo,
    path: FilePath,
    content: FileContent<ProjectConfig>,
    loaded: FileConfigsView,
    r: Result<(ProjectConfigStatus, Vec<SessionId>), Error>,
    alone: FileConfigsView,
    read: Result<ProjectConfigStatus, StoreError>,
)
    requires
        reloads_project(app, held, workspace.id, path, content, loaded, r),
        loads_project(held, workspace, path, content, alone, read),
        app.store@.root_of(workspace.id) == workspace.root@,
    ensures
        r is Ok <==> !app.closed && app.store@.has_workspace(workspace.id) && read is Ok,
        r is Ok ==> loaded == alone,
        r matches Ok((status, told)) ==> status.path == read->Ok_0.path && status.exists
            == read->Ok_0.exists && status.overrides == read->Ok_0.overrides && told@ == app.active(
            Some(workspace.id),
        ),
        r is Err ==> loaded == held,
        app.closed ==> (r matches Err(error) && error == Error::Closed),
        !app.closed && !app.store@.has_workspace(workspace.id) ==> (r matches Err(error) && error
            == Error::WorkspaceNotFound),
{
}

/// Reading both files again holds both or neither, and all active sessions are told.
pub proof fn law_active_sessions_hear_of_both_files(
    app: App,
    held: FileConfigsView,
    user: FileContent<UserConfig>,
    defaults: AdapterDefaults,
    workspace: WorkspaceInfo,
    path: FilePath,
    project: FileContent<ProjectConfig>,
    loaded: FileConfigsView,
    r: Result<(ProjectConfigStatus, Vec<SessionId>), Error>,
    alone: FileConfigsView,
    read: Result<ProjectConfigStatus, StoreError>,
)
    requires
        reloads_both(app, held, user, defaults, workspace.id, path, project, loaded, r),
        reloads_both_files(held, user, defaults, workspace, path, project, alone, read),
        app.store@.root_of(workspace.id) == workspace.root@,
    ensures
        r is Ok <==> !app.closed && app.store@.has_workspace(workspace.id) && read is Ok,
        r is Ok ==> loaded == alone,
        r matches Ok((status, told)) ==> status.path == read->Ok_0.path && status.exists
            == read->Ok_0.exists && status.overrides == read->Ok_0.overrides && told@ == app.active(
            None,
        ),
        r is Err ==> loaded == held,
        app.closed ==> (r matches Err(error) && error == Error::Closed),
        !app.closed && !app.store@.has_workspace(workspace.id) ==> (r matches Err(error) && error
            == Error::WorkspaceNotFound),
{
}

/// The status of a project's file is what the files tell of it, for a known workspace of an open
/// application; without a loaded file there is none.
pub proof fn law_project_status_is_what_the_files_tell(
    app: App,
    configs: FileConfigsView,
    workspace: WorkspaceId,
    r: Result<ProjectConfigStatus, Error>,
    known: Option<ProjectConfigStatus>,
)
    requires
        shows_project(app, configs, workspace, r),
        gives_status(configs, workspace, known),
    ensures
        r is Ok <==> !app.closed && app.store@.has_workspace(workspace) && known is Some,
        r matches Ok(status) ==> status.path@ == known->0.path@ && status.exists == known->0.exists
            && status.overrides == known->0.overrides,
        app.closed ==> (r matches Err(error) && error == Error::Closed),
        !app.closed && !app.store@.has_workspace(workspace) ==> (r matches Err(error) && error
            == Error::WorkspaceNotFound),
{
}

/// A provisioned key is given back to the endpoint of its profile, and to no other endpoint of that
/// profile. Keys of other profiles are given back as before.
pub proof fn law_provisioned_keys_can_be_read(
    bone_home: Seq<u8>,
    profile: Profile,
    key: Seq<char>,
    content: CredentialContent,
    file: CredentialFile,
    owner: ApiKeyCredentials,
    other: ApiKeyCredentials,
    r: Result<ApiKey, ApiKeyCredentialError>,
)
    requires
        provisions(bone_home, profile, key, content, Ok(file)),
        owner.profile_id@ == profile.id@,
        Some(owner.endpoint_fingerprint@) == fingerprint_of(profile.endpoint),
        crate::config::valid_profile_name(owner.profile_id@),
        crate::hashing::is_digest(owner.endpoint_fingerprint@),
        !crate::text::is_blank(key),
        reads_key(other, CredentialContent::File(file), r),
    ensures
        other.profile_id@ == profile.id@ ==> {
            &&& Some(other.endpoint_fingerprint@) == fingerprint_of(profile.endpoint) ==> (
            r matches Ok(found) && found@ == key)
            &&& Some(other.endpoint_fingerprint@) != fingerprint_of(profile.endpoint) ==> (
            r matches Err(error) && error == ApiKeyCredentialError::EndpointMismatch)
        },
        other.profile_id@ != profile.id@ ==> reads_key(other, content, r),
{
    assert(saves_key(owner, content, key, Ok(file)));
    law_saved_key_goes_to_its_own_endpoint(owner, content, key, file, other, r);
}

/// A key that cannot be kept is reported as unavailable credentials of its profile: without an
/// absolute directory, with an invalid profile, or beside a file that cannot be used. Otherwise it
/// is kept.
pub proof fn law_keys_are_kept_where_they_can_be(
    bone_home: Seq<u8>,
    profile: Profile,
    key: Seq<char>,
    content: CredentialContent,
    r: Result<CredentialFile, Error>,
)
    requires
        provisions(bone_home, profile, key, content, r),
    ensures
        r is Ok <==> profile.problem() is None && absolute(bone_home) && fingerprint_of(
            profile.endpoint,
        ) is Some && saved_keys(content) is Some,
        r matches Err(error) ==> (error matches Error::Credential(problem) && problem.profile@
            == profile.id@ && problem.kind == CredentialProblemKind::Unavailable),
        r matches Ok(file) ==> file.schema_version == 1,
{
}

/// A key is set only for the saved profile that the caller has seen, and never for the
/// subscription.
pub proof fn law_keys_are_set_for_the_seen_profile(
    app: App,
    bone_home: FilePath,
    expected: Profile,
    key: ApiKey,
    content: CredentialContent,
    r: Result<CredentialFile, Error>,
    saved: Seq<ProfileView>,
    at: int,
)
    requires
        sets_key(app, bone_home, expected, key, content, r),
        app.store@.profiles == Some(saved),
    ensures
        app.closed ==> (r matches Err(error) && error == Error::Closed),
        r is Ok ==> {
            &&& !app.closed
            &&& expected.endpoint.protocol != Protocol::ChatGptSubscription
            &&& exists|i: int| 0 <= i < saved.len() && (#[trigger] saved[i]).id@ == expected.id@
            &&& provisions(bone_home@, expected, key@, content, r)
        },
        !app.closed && (forall|i: int|
            0 <= i < saved.len() ==> (#[trigger] saved[i]).id@ != expected.id@) ==> (r matches Err(
            Error::Configuration(ConfigProblem::MissingProfile(name)),
        ) && name@ == expected.id@),
        !app.closed && 0 <= at < saved.len() && saved[at].id@ == expected.id@ && saved[at].label@
            != expected.label@ && (forall|i: int|
            0 <= i < at ==> (#[trigger] saved[i]).id@ != expected.id@) ==> r is Err,
{
}

/// A profile that is looked up is the first saved one of its name; without one, the name is
/// reported as missing.
pub proof fn law_profiles_are_found_by_name(
    app: App,
    id: ProfileId,
    r: Result<Profile, Error>,
    saved: Seq<ProfileView>,
)
    requires
        finds_profile(app, id, r),
        app.store@.profiles == Some(saved),
    ensures
        r is Ok <==> exists|i: int| 0 <= i < saved.len() && (#[trigger] saved[i]).id@ == id@,
        r matches Ok(profile) ==> exists|i: int|
            0 <= i < saved.len() && (#[trigger] saved[i]) == profile@ && saved[i].id@ == id@ && (
            forall|j: int| 0 <= j < i ==> (#[trigger] saved[j]).id@ != id@),
        r matches Err(error) ==> (error matches Error::Configuration(
            ConfigProblem::MissingProfile(name),
        ) && name@ == id@),
{
}

/// A profile is as expected only where the first saved one of its name agrees with it.
pub proof fn law_expected_profiles_are_the_saved_ones(
    app: App,
    expected: Profile,
    r: Result<(), Error>,
    saved: Seq<ProfileView>,
)
    requires
        expects_profile(app, expected, r),
        app.store@.profiles == Some(saved),
    ensures
        app.closed ==> r == Err::<(), Error>(Error::Closed),
        r is Ok ==> exists|i: int|
            0 <= i < saved.len() && (#[trigger] saved[i]).id@ == expected.id@ && saved[i].label@
                == expected.label@ && saved[i].endpoint.protocol == expected.endpoint.protocol
                && saved[i].models.len() == expected.models@.len(),
        !app.closed && (forall|i: int|
            0 <= i < saved.len() ==> (#[trigger] saved[i]).id@ != expected.id@) ==> (r matches Err(
            Error::Configuration(ConfigProblem::MissingProfile(name)),
        ) && name@ == expected.id@),
{
}

/// The configuration of a workspace without a session has nothing that runs. It is given for a
/// known workspace of an open application.
pub proof fn law_workspaces_run_nothing(
    app: App,
    workspace: WorkspaceId,
    defaults: AdapterDefaults,
    r: Result<ResolvedConfig, Error>,
)
    requires
        gives_workspace_resolved(app, workspace, defaults, r),
    ensures
        r is Ok <==> !app.closed && app.store@.has_workspace(workspace),
        r matches Ok(resolved) ==> resolved.running is None,
        app.closed ==> (r matches Err(error) && error == Error::Closed),
        !app.closed && !app.store@.has_workspace(workspace) ==> (r matches Err(error) && error
            == Error::WorkspaceNotFound),
{
}

/// A model is saved only for a saved profile, and one of the subscription as a whole model only
/// with a login. A refused change leaves the store as it was.
pub proof fn law_models_need_their_profile_and_login(
    app: App,
    scope: ConfigScope,
    selection: ModelSelection,
    defaults: AdapterDefaults,
    subscription_cached: bool,
    next: App,
    r: Result<ConfigUpdate, Error>,
    saved: Seq<ProfileView>,
    at: int,
)
    requires
        updates_config(
            app,
            scope,
            ConfigChange::Model(Some(selection)),
            defaults,
            subscription_cached,
            next,
            r,
        ),
        app.store@.profiles == Some(saved),
    ensures
        r is Err ==> next.store@ == app.store@,
        r is Ok ==> !app.closed && exists|i: int|
            0 <= i < saved.len() && (#[trigger] saved[i]).id@ == selection.profile@,
        (forall|i: int| 0 <= i < saved.len() ==> (#[trigger] saved[i]).id@ != selection.profile@)
            ==> r is Err,
        0 <= at < saved.len() && saved[at].id@ == selection.profile@ && (forall|i: int|
            0 <= i < at ==> (#[trigger] saved[i]).id@ != selection.profile@)
            && saved[at].endpoint.protocol == Protocol::ChatGptSubscription && !subscription_cached
            ==> r is Err,
        0 <= at < saved.len() && saved[at].id@ == selection.profile@ && (forall|i: int|
            0 <= i < at ==> (#[trigger] saved[i]).id@ != selection.profile@)
            && saved[at].endpoint.protocol != Protocol::ChatGptSubscription && selection.options
            is None && change_problem(ConfigChange::Model(Some(selection))) is None && !app.closed
            && scope_problem(app.store@, scope) is None ==> r is Ok,
{
    let change = ConfigChange::Model(Some(selection));
    let name = selection.profile@;
    if change_problem(change) is None && !app.closed && scope_problem(app.store@, scope) is None {
        assert forall|profiles: Seq<Profile>| #[trigger]
            app.store@.offers(profile_views(profiles)) && 0 <= at < saved.len() && saved[at].id@
                == name && (forall|i: int| 0 <= i < at ==> (#[trigger] saved[i]).id@ != name) implies
            crate::config::profile_named(profiles, name)@ == saved[at] && crate::config::has_profile(
            profiles,
            name,
        ) by {
            assert(profiles[at]@ == saved[at]);
            assert forall|i: int| 0 <= i < at implies (#[trigger] profiles[i]).id@ != name by {
                assert(profiles[i]@ == saved[i]);
            }
            assert(crate::config::first_profile(profiles, name, at));
            lemma_first_profile(profiles, name, at);
        }
        assert forall|profiles: Seq<Profile>| #[trigger]
            app.store@.offers(profile_views(profiles)) && crate::config::has_profile(
                profiles,
                name,
            ) implies exists|i: int| 0 <= i < saved.len() && (#[trigger] saved[i]).id@ == name by {
            let i = choose|i: int| 0 <= i < profiles.len() && (#[trigger] profiles[i]).id@ == name;
            assert(profile_views(profiles)[i] == profiles[i]@);
            assert(saved[i].id@ == name);
        }
    }
}

} // verus!

//! Promises of the configuration, of its files and of the saved keys.

use vstd::prelude::*;

use crate::config::{
    lemma_first_profile, model_problem, resolution, resolution_problem, valid_model_id,
    ConfigChange, ConfigProblemView, ModelSelection, Profile, ProfileView, Protocol,
    RuntimeOverrides, RuntimeSettings,
};
use crate::credentials::{
    clears_key, first_key, has_key, key_of, key_views, law_cleared_key_is_gone,
    law_saved_file_stays_usable, law_saved_key_is_read_back, law_saving_keeps_other_keys,
    lemma_key_exists, of_other, reads_key, saved_keys, saves_key, usable_keys, usable_record,
    with_key, without_key, ApiKey, ApiKeyCredentialError, ApiKeyCredentials, CredentialContent,
    CredentialFile, CredentialRecordView,
};
use crate::file_config::{
    changed_overrides, changed_settings, other_than, project_fault, user_fault, user_loaded,
    with_profile, AdapterDefaults, Fault, FileContent, ProjectConfig, UserConfig, UserConfigView,
};
use crate::persistence::settings::{drops_profile, keeps_profile};
use crate::persistence::StoreView;
use crate::seqs::lemma_filter_keeps;

verus! {

/// Every value of a resolved configuration is the one of the nearest scope that sets it: the
/// session's where it sets one, else the workspace's, else the user's. So it is for the limits, the
/// tool limits and the worker. The coordinator too; where no scope names one, the worker
/// coordinates. The workspace is the root that was asked for.
pub proof fn law_resolved_values_are_the_nearest(
    global: RuntimeSettings,
    workspace: Option<&RuntimeOverrides>,
    session: Option<&RuntimeOverrides>,
    profiles: Seq<Profile>,
    root: Seq<u8>,
)
    requires
        resolution_problem(global, workspace, session, profiles) is None,
    ensures
        ({
            let config = resolution(global, workspace, session, profiles, root);
            &&& config.workspace == root
            &&& session is Some && session->0.limits is Some ==> config.limits
                == session->0.limits->0
            &&& (session is None || session->0.limits is None) && workspace is Some
                && workspace->0.limits is Some ==> config.limits == workspace->0.limits->0
            &&& (session is None || session->0.limits is None) && (workspace is None
                || workspace->0.limits is None) ==> config.limits == global.limits
            &&& session is Some && session->0.tools is Some ==> config.tools == session->0.tools->0
            &&& (session is None || session->0.tools is None) && workspace is Some
                && workspace->0.tools is Some ==> config.tools == workspace->0.tools->0
            &&& (session is None || session->0.tools is None) && (workspace is None
                || workspace->0.tools is None) ==> config.tools == global.tools
            &&& session is Some && session->0.worker is Some ==> Some(config.worker)
                == session->0.worker
            &&& (session is None || session->0.worker is None) && workspace is Some
                && workspace->0.worker is Some ==> Some(config.worker) == workspace->0.worker
            &&& (session is None || session->0.worker is None) && (workspace is None
                || workspace->0.worker is None) ==> Some(config.worker) == global.worker
            &&& session is Some && session->0.coordinator is Some ==> Some(config.coordinator)
                == session->0.coordinator
            &&& (session is None || session->0.coordinator is None) && workspace is Some
                && workspace->0.coordinator is Some ==> Some(config.coordinator)
                == workspace->0.coordinator
            &&& (session is None || session->0.coordinator is None) && (workspace is None
                || workspace->0.coordinator is None) ==> (match global.coordinator {
                Some(coordinator) => config.coordinator == coordinator,
                None => config.coordinator == config.worker,
            })
        }),
{
}

/// A selection that can be used stands for a saved profile: the first one with the name that it
/// gives.
proof fn lemma_selected_profile(selection: ModelSelection, profiles: Seq<Profile>)
    requires
        model_problem(selection, profiles) is None,
    ensures
        exists|i: int|
            0 <= i < profiles.len() && (#[trigger] profiles[i]).id@ == selection.profile@
                && crate::config::profile_named(profiles, selection.profile@) == profiles[i] && (
            forall|j: int| 0 <= j < i ==> (#[trigger] profiles[j]).id@ != selection.profile@),
{
    let name = selection.profile@;
    let at = choose|i: int| 0 <= i < profiles.len() && (#[trigger] profiles[i]).id@ == name;
    lemma_first_named(profiles, name, at);
    let first = choose|i: int| crate::config::first_profile(profiles, name, i);
    lemma_first_profile(profiles, name, first);
    assert(profiles[first].id@ == name);
}

proof fn lemma_first_named(profiles: Seq<Profile>, name: Seq<char>, at: int)
    requires
        0 <= at < profiles.len(),
        profiles[at].id@ == name,
    ensures
        exists|i: int| crate::config::first_profile(profiles, name, i),
    decreases at,
{
    if forall|i: int| 0 <= i < at ==> (#[trigger] profiles[i]).id@ != name {
        assert(crate::config::first_profile(profiles, name, at));
    } else {
        let i = choose|i: int| 0 <= i < at && (#[trigger] profiles[i]).id@ == name;
        lemma_first_named(profiles, name, i);
    }
}

/// What is resolved can be run: both models belong to saved profiles, whose values the
/// configuration has; the limits are those that the adapters accept and that can be stored; and the
/// agent waits longer for a tool than the longest Bash call lasts.
pub proof fn law_resolved_configuration_can_be_run(
    global: RuntimeSettings,
    workspace: Option<&RuntimeOverrides>,
    session: Option<&RuntimeOverrides>,
    profiles: Seq<Profile>,
    root: Seq<u8>,
)
    requires
        resolution_problem(global, workspace, session, profiles) is None,
    ensures
        ({
            let config = resolution(global, workspace, session, profiles, root);
            &&& exists|i: int|
                0 <= i < profiles.len() && (#[trigger] profiles[i])@ == config.worker_profile
                    && profiles[i].id@ == config.worker.profile@
            &&& exists|i: int|
                0 <= i < profiles.len() && (#[trigger] profiles[i])@ == config.coordinator_profile
                    && profiles[i].id@ == config.coordinator.profile@
            &&& config.limits.valid
            &&& config.tools.valid
            &&& config.limits.context_bytes <= 1_048_576
            &&& config.limits.item_bytes <= 1_048_576
            &&& config.limits.tool_output_bytes <= 1_048_576
            &&& config.tools.max_output_bytes <= 524_288
            &&& config.tools.max_patch_bytes <= 1_048_576
            &&& config.limits.tool_timeout > config.tools.max_bash_timeout
            &&& config.worker.options matches Some(options) ==> options.valid
            &&& config.coordinator.options matches Some(options) ==> options.valid
        }),
{
    let config = resolution(global, workspace, session, profiles, root);
    lemma_selected_profile(config.worker, profiles);
    lemma_selected_profile(config.coordinator, profiles);
}

/// Without a model in any scope there is no configuration, and that is what is said. With one whose
/// profile is not saved, the missing profile is named.
pub proof fn law_incomplete_configuration_is_told(
    global: RuntimeSettings,
    workspace: RuntimeOverrides,
    session: RuntimeOverrides,
    profiles: Seq<Profile>,
)
    ensures
        session.worker is None && workspace.worker is None && global.worker is None
            <==> resolution_problem(global, Some(&workspace), Some(&session), profiles) == Some(
            ConfigProblemView::NeedsModel,
        ),
        forall|selection: ModelSelection|
            (forall|i: int| 0 <= i < profiles.len() ==> (#[trigger] profiles[i]).id@ != selection.profile@)
                ==> #[trigger] model_problem(selection, profiles) == Some(
                ConfigProblemView::MissingProfile(selection.profile@),
            ),
        forall|selection: ModelSelection|
            (exists|i: int| 0 <= i < profiles.len() && (#[trigger] profiles[i]).id@ == selection.profile@)
                && selection.options is None ==> #[trigger] model_problem(selection, profiles)
                is None,
{
}

/// A change of the user's settings changes what it names and nothing else. Limits that are taken
/// back are the adapters' own ones again.
pub proof fn law_settings_change_what_is_named(
    settings: RuntimeSettings,
    change: ConfigChange,
    defaults: AdapterDefaults,
)
    ensures
        ({
            let after = changed_settings(settings, change, defaults);
            &&& after.worker == (match change {
                ConfigChange::Model(value) => value,
                ConfigChange::Worker(value) => value,
                _ => settings.worker,
            })
            &&& after.coordinator == (match change {
                ConfigChange::Model(value) => value,
                ConfigChange::Coordinator(value) => value,
                _ => settings.coordinator,
            })
            &&& after.limits == (match change {
                ConfigChange::Limits(Some(limits)) => limits,
                ConfigChange::Limits(None) => defaults.limits,
                _ => settings.limits,
            })
            &&& after.tools == (match change {
                ConfigChange::Tools(Some(tools)) => tools,
                ConfigChange::Tools(None) => defaults.tools,
                _ => settings.tools,
            })
        }),
{
}

/// A change of what a workspace or a session overrides changes what it names and nothing else; what
/// is taken back is inherited again.
pub proof fn law_overrides_change_what_is_named(overrides: RuntimeOverrides, change: ConfigChange)
    ensures
        ({
            let after = changed_overrides(overrides, change);
            &&& after.worker == (match change {
                ConfigChange::Model(value) => value,
                ConfigChange::Worker(value) => value,
                _ => overrides.worker,
            })
            &&& after.coordinator == (match change {
                ConfigChange::Model(value) => value,
                ConfigChange::Coordinator(value) => value,
                _ => overrides.coordinator,
            })
            &&& after.limits == (match change {
                ConfigChange::Limits(value) => value,
                _ => overrides.limits,
            })
            &&& after.tools == (match change {
                ConfigChange::Tools(value) => value,
                _ => overrides.tools,
            })
        }),
{
}

/// A user's file is taken up as it is or not at all. One of this version, whose profiles are valid
/// and have different names and whose models and limits are valid, is taken up with its values and
/// its digest; any other is refused. Without a file the settings are the adapters' own, without
/// models and without profiles.
pub proof fn law_user_files_are_taken_up_as_they_are(
    bytes: Vec<u8>,
    value: UserConfig,
    defaults: AdapterDefaults,
)
    ensures
        ({
            let loaded = user_loaded(FileContent::Read { bytes, value }, defaults);
            &&& loaded is Ok ==> loaded->Ok_0 == (
                value@,
                Some(crate::hashing::sha256_hex_of(bytes@)),
            )
            &&& loaded is Ok <==> user_fault(value@) is None
            &&& user_loaded(FileContent::Absent, defaults) matches Ok((fresh, digest)) ==> {
                &&& digest is None
                &&& fresh.schema_version == 1
                &&& fresh.profiles.len() == 0
                &&& fresh.settings.worker is None
                &&& fresh.settings.coordinator is None
                &&& fresh.settings.tools == defaults.tools
                &&& fresh.settings.limits.context_bytes == defaults.limits.context_bytes
            }
        }),
{
}

/// A user's configuration without a fault has this version, no name twice, and only valid profiles,
/// models and limits.
pub proof fn law_faultless_user_configuration_is_valid(config: UserConfigView, i: int, j: int)
    requires
        user_fault(config) is None,
    ensures
        config.schema_version == 1,
        0 <= i < config.profiles.len() ==> config.profiles[i].problem() is None,
        0 <= i < j < config.profiles.len() ==> config.profiles[i].id@ != config.profiles[j].id@,
        config.settings.worker matches Some(selection) ==> selection.problem() is None,
        config.settings.coordinator matches Some(selection) ==> selection.problem() is None,
        config.settings.limits.valid,
        config.settings.tools.valid,
        config.settings.limits.context_bytes <= 1_048_576,
        config.settings.limits.item_bytes <= 1_048_576,
        config.settings.limits.tool_output_bytes <= 1_048_576,
        config.settings.tools.max_output_bytes <= 524_288,
        config.settings.tools.max_patch_bytes <= 1_048_576,
{
    lemma_no_profile_fault(config.profiles, 0, i);
    lemma_no_profile_fault(config.profiles, 0, j);
    if 0 <= i < j < config.profiles.len() && config.profiles[i].id@ == config.profiles[j].id@ {
        assert(crate::file_config::repeated(config.profiles, j));
    }
}

proof fn lemma_no_profile_fault(profiles: Seq<ProfileView>, from: int, at: int)
    requires
        0 <= from,
        crate::file_config::profiles_fault(profiles, from) is None,
    ensures
        from <= at < profiles.len() ==> profiles[at].problem() is None
            && !crate::file_config::repeated(profiles, at),
    decreases profiles.len() - from,
{
    if from < profiles.len() {
        lemma_no_profile_fault(profiles, from + 1, at);
    }
}

/// A user's configuration of this version with valid and different profiles, valid models and valid
/// limits has no fault.
pub proof fn law_valid_user_configuration_is_faultless(config: UserConfigView)
    requires
        config.schema_version == 1,
        forall|i: int|
            0 <= i < config.profiles.len() ==> (#[trigger] config.profiles[i]).problem() is None,
        forall|i: int, j: int|
            0 <= i < j < config.profiles.len() ==> (#[trigger] config.profiles[i]).id@ != (
            #[trigger] config.profiles[j]).id@,
        config.settings.worker matches Some(selection) ==> selection.problem() is None,
        config.settings.coordinator matches Some(selection) ==> selection.problem() is None,
        config.settings.limits.valid,
        config.settings.tools.valid,
        config.settings.limits.context_bytes <= 1_048_576,
        config.settings.limits.item_bytes <= 1_048_576,
        config.settings.limits.tool_output_bytes <= 1_048_576,
        config.settings.tools.max_output_bytes <= 524_288,
        config.settings.tools.max_patch_bytes <= 1_048_576,
    ensures
        user_fault(config) is None,
{
    lemma_profiles_without_fault(config.profiles, 0);
}

proof fn lemma_profiles_without_fault(profiles: Seq<ProfileView>, from: int)
    requires
        0 <= from,
        forall|i: int| 0 <= i < profiles.len() ==> (#[trigger] profiles[i]).problem() is None,
        forall|i: int, j: int|
            0 <= i < j < profiles.len() ==> (#[trigger] profiles[i]).id@ != (
            #[trigger] profiles[j]).id@,
    ensures
        crate::file_config::profiles_fault(profiles, from) is None,
    decreases profiles.len() - from,
{
    if from < profiles.len() {
        lemma_profiles_without_fault(profiles, from + 1);
    }
}

/// A project's configuration is in order exactly where it has this version and overrides only with
/// valid models and limits.
pub proof fn law_project_configuration_is_checked(config: ProjectConfig)
    ensures
        project_fault(config) is None <==> {
            &&& config.schema_version == 1
            &&& config.overrides.worker matches Some(selection) ==> selection.problem() is None
            &&& config.overrides.coordinator matches Some(selection) ==> selection.problem()
                is None
            &&& config.overrides.limits matches Some(limits) ==> limits.valid
                && limits.context_bytes <= 1_048_576 && limits.item_bytes
                <= 1_048_576 && limits.tool_output_bytes
                <= 1_048_576
            &&& config.overrides.tools matches Some(tools) ==> tools.valid && tools.max_output_bytes
                <= 524_288 && tools.max_patch_bytes <= 1_048_576
        },
        config.schema_version != 1 ==> project_fault(config) == Some(
            Fault::Version(config.schema_version),
        ),
{
}

/// A saved key is given back to the profile and endpoint that it was saved for. Nobody else gets
/// it: the same profile with another endpoint is told of the mismatch, and whatever another profile
/// was given before, it is given now.
pub proof fn law_saved_key_goes_to_its_own_endpoint(
    credentials: ApiKeyCredentials,
    content: CredentialContent,
    key: Seq<char>,
    file: CredentialFile,
    other: ApiKeyCredentials,
    r: Result<ApiKey, ApiKeyCredentialError>,
)
    requires
        crate::config::valid_profile_name(credentials.profile_id@),
        crate::hashing::is_digest(credentials.endpoint_fingerprint@),
        !crate::text::is_blank(key),
        saves_key(credentials, content, key, Ok(file)),
        reads_key(other, CredentialContent::File(file), r),
    ensures
        other.profile_id@ == credentials.profile_id@ ==> {
            &&& other.endpoint_fingerprint@ == credentials.endpoint_fingerprint@ ==> (
            r matches Ok(found) && found@ == key)
            &&& other.endpoint_fingerprint@ != credentials.endpoint_fingerprint@ ==> (
            r matches Err(error) && error == ApiKeyCredentialError::EndpointMismatch)
        },
        other.profile_id@ != credentials.profile_id@ ==> reads_key(other, content, r),
{
    let keys = saved_keys(content)->0;
    let record = credentials.record(key);
    law_saved_file_stays_usable(keys, record);
    law_saved_key_is_read_back(keys, record);
    let after = with_key(keys, record);
    if other.profile_id@ != credentials.profile_id@ {
        if has_key(keys, other.profile_id@) {
            law_saving_keeps_other_keys(keys, record, other.profile_id@);
        } else if has_key(after, other.profile_id@) {
            let i = choose|i: int| first_key(after, other.profile_id@, i);
            assert(keys[i].profile_id == other.profile_id@);
            lemma_key_exists(keys, other.profile_id@, i);
        }
    }
}

/// A key that is read stands in the file, under the profile and the endpoint that ask for it. A file
/// of another version, with a profile twice or with a broken record gives no key at all.
pub proof fn law_read_key_stands_in_the_file(
    credentials: ApiKeyCredentials,
    file: CredentialFile,
    key: ApiKey,
)
    requires
        reads_key(credentials, CredentialContent::File(file), Ok(key)),
    ensures
        file.schema_version == 1,
        exists|i: int|
            {
                &&& 0 <= i < file.api_keys@.len()
                &&& (#[trigger] file.api_keys@[i])@.profile_id == credentials.profile_id@
                &&& file.api_keys@[i]@.endpoint_fingerprint == credentials.endpoint_fingerprint@
                &&& file.api_keys@[i]@.api_key == key@
            },
        forall|i: int, j: int|
            0 <= i < j < file.api_keys@.len() ==> (#[trigger] file.api_keys@[i])@.profile_id != (
            #[trigger] file.api_keys@[j])@.profile_id,
        forall|i: int|
            0 <= i < file.api_keys@.len() ==> !crate::text::is_blank(
                (#[trigger] file.api_keys@[i])@.api_key,
            ),
{
    let keys = key_views(file.api_keys@);
    let i = choose|i: int| first_key(keys, credentials.profile_id@, i);
    assert(keys[i] == file.api_keys@[i]@);
    assert forall|i: int, j: int| 0 <= i < j < file.api_keys@.len() implies (
    #[trigger] file.api_keys@[i])@.profile_id != (#[trigger] file.api_keys@[j])@.profile_id by {
        assert(keys[i] == file.api_keys@[i]@);
        assert(keys[j] == file.api_keys@[j]@);
    }
    assert forall|i: int| 0 <= i < file.api_keys@.len() implies !crate::text::is_blank(
        (#[trigger] file.api_keys@[i])@.api_key,
    ) by {
        assert(keys[i] == file.api_keys@[i]@);
        assert(usable_record(keys[i]));
    }
}

/// A cleared key is given to nobody any more, and whatever another profile was given before, it is
/// given now.
pub proof fn law_cleared_key_is_not_given(
    credentials: ApiKeyCredentials,
    content: CredentialContent,
    file: CredentialFile,
    other: ApiKeyCredentials,
    r: Result<ApiKey, ApiKeyCredentialError>,
)
    requires
        clears_key(credentials, content, Ok(Some(file))),
        reads_key(other, CredentialContent::File(file), r),
    ensures
        other.profile_id@ == credentials.profile_id@ ==> (r matches Err(error) && error
            == ApiKeyCredentialError::MissingApiKey),
        other.profile_id@ != credentials.profile_id@ ==> reads_key(other, content, r),
{
    let keys = saved_keys(content)->0;
    let name = credentials.profile_id@;
    let keep = of_other(name);
    let after = without_key(keys, name);
    law_cleared_key_is_gone(keys, name);
    lemma_kept_keys(keys, name, other.profile_id@);
}

/// Clearing keeps the other keys in order.
proof fn lemma_kept_keys(keys: Seq<CredentialRecordView>, name: Seq<char>, other: Seq<char>)
    ensures
        usable_keys(keys) ==> usable_keys(without_key(keys, name)),
        other != name ==> {
            &&& has_key(without_key(keys, name), other) == has_key(keys, other)
            &&& has_key(keys, other) && usable_keys(keys) ==> key_of(without_key(keys, name), other)
                == key_of(keys, other)
        },
    decreases keys.len(),
{
    let keep = of_other(name);
    let after = without_key(keys, name);
    if usable_keys(keys) {
        lemma_kept_distinct(keys, name);
    }
    if other != name {
        if has_key(keys, other) {
            let k = choose|k: int| first_key(keys, other, k);
            keys.lemma_filter_contains(keep, k);
            let n = choose|n: int| 0 <= n < after.len() && after[n] == keys[k];
            lemma_key_exists(after, other, n);
            let m = choose|m: int| first_key(after, other, m);
            lemma_filter_keeps(keys, keep, m);
            let j = choose|j: int| 0 <= j < keys.len() && keys[j] == after[m];
            if usable_keys(keys) {
                if j < k {
                    assert(keys[j].profile_id != keys[k].profile_id);
                } else if k < j {
                    assert(keys[k].profile_id != keys[j].profile_id);
                }
            }
        } else if has_key(after, other) {
            let m = choose|m: int| first_key(after, other, m);
            lemma_filter_keeps(keys, keep, m);
            let j = choose|j: int| 0 <= j < keys.len() && keys[j] == after[m];
            lemma_key_exists(keys, other, j);
        }
    }
}

proof fn lemma_kept_distinct(keys: Seq<CredentialRecordView>, name: Seq<char>)
    requires
        usable_keys(keys),
    ensures
        usable_keys(without_key(keys, name)),
    decreases keys.len(),
{
    reveal(Seq::filter);
    let keep = of_other(name);
    let after = without_key(keys, name);
    if keys.len() > 0 {
        let head = keys.drop_last();
        assert forall|i: int, j: int| 0 <= i < j < head.len() implies (
        #[trigger] head[i]).profile_id != (#[trigger] head[j]).profile_id by {
            assert(keys[i].profile_id != keys[j].profile_id);
        }
        assert forall|i: int| 0 <= i < head.len() implies usable_record(#[trigger] head[i]) by {
            assert(usable_record(keys[i]));
        }
        lemma_kept_distinct(head, name);
        let rest = without_key(head, name);
        if keep(keys.last()) {
            assert(after == rest.push(keys.last()));
            assert(usable_record(keys[keys.len() - 1]));
            assert forall|i: int, j: int| 0 <= i < j < after.len() implies (
            #[trigger] after[i]).profile_id != (#[trigger] after[j]).profile_id by {
                if j == rest.len() {
                    lemma_filter_keeps(head, keep, i);
                    let n = choose|n: int| 0 <= n < head.len() && head[n] == rest[i];
                    assert(keys[n].profile_id != keys[keys.len() - 1].profile_id);
                } else {
                    assert(rest[i].profile_id != rest[j].profile_id);
                }
            }
        } else {
            assert(after == rest);
        }
    }
}

/// A profile that is kept is found under its name with what was kept, and the store changes in
/// nothing but its profiles: those of other names stay.
pub proof fn law_kept_profiles_are_found(
    before: StoreView,
    profile: ProfileView,
    after: StoreView,
    saved: Seq<ProfileView>,
    at: int,
)
    requires
        before.profiles == Some(saved),
        keeps_profile(before, profile, after),
    ensures
        after == (StoreView { profiles: after.profiles, ..before }),
        after.profiles is Some,
        after.profiles->0.contains(profile),
        0 <= at < saved.len() && saved[at].id@ != profile.id@ ==> after.profiles->0.contains(
            saved[at],
        ),
{
    lemma_with_profile_holds(saved, profile);
    if 0 <= at < saved.len() && saved[at].id@ != profile.id@ {
        lemma_with_profile_keeps(saved, profile, at);
    }
}

proof fn lemma_with_profile_holds(saved: Seq<ProfileView>, profile: ProfileView)
    ensures
        with_profile(saved, profile).contains(profile),
    decreases saved.len(),
{
    let after = with_profile(saved, profile);
    if saved.len() == 0 || saved[0].id@ == profile.id@ {
        assert(after[0] == profile);
    } else {
        let rest = with_profile(saved.skip(1), profile);
        lemma_with_profile_holds(saved.skip(1), profile);
        let i = choose|i: int| 0 <= i < rest.len() && rest[i] == profile;
        assert(after[i + 1] == profile);
    }
}

proof fn lemma_with_profile_keeps(saved: Seq<ProfileView>, profile: ProfileView, at: int)
    requires
        0 <= at < saved.len(),
        saved[at].id@ != profile.id@,
    ensures
        with_profile(saved, profile).contains(saved[at]),
    decreases saved.len(),
{
    let after = with_profile(saved, profile);
    if saved[0].id@ == profile.id@ {
        assert(after[at] == saved[at]);
    } else if at == 0 {
        assert(after[0] == saved[0]);
    } else {
        let rest = with_profile(saved.skip(1), profile);
        lemma_with_profile_keeps(saved.skip(1), profile, at - 1);
        let i = choose|i: int| 0 <= i < rest.len() && rest[i] == saved[at];
        assert(after[i + 1] == saved[at]);
    }
}

/// A profile that is dropped is gone, those of other names stay, and the store changes in nothing
/// else.
pub proof fn law_dropped_profiles_are_gone(
    before: StoreView,
    name: Seq<char>,
    after: StoreView,
    saved: Seq<ProfileView>,
    at: int,
)
    requires
        before.profiles == Some(saved),
        drops_profile(before, name, after),
    ensures
        after == (StoreView { profiles: after.profiles, ..before }),
        after.profiles is Some,
        0 <= at < after.profiles->0.len() ==> after.profiles->0[at].id@ != name && saved.contains(
            after.profiles->0[at],
        ),
        0 <= at < saved.len() && saved[at].id@ != name ==> after.profiles->0.contains(saved[at]),
{
    broadcast use vstd::seq_lib::group_filter_ensures;

    let keep = other_than(name);
    if 0 <= at < saved.filter(keep).len() {
        lemma_filter_keeps(saved, keep, at);
    }
}

/// A model is named by a trimmed text of at most 256 bytes without control characters.
pub proof fn law_model_names_are_plain(model: Seq<char>)
    ensures
        valid_model_id(model) <==> {
            &&& !crate::text::is_blank(model)
            &&& crate::text::is_trimmed(model)
            &&& crate::text::byte_count(model) <= 256
            &&& forall|i: int|
                0 <= i < model.len() ==> (#[trigger] model[i]) as u32 > 0x1f && !(0x7f
                    <= model[i] as u32 <= 0x9f)
        },
{
    if valid_model_id(model) {
        assert forall|i: int| 0 <= i < model.len() implies (#[trigger] model[i]) as u32 > 0x1f && !(
        0x7f <= model[i] as u32 <= 0x9f) by {
            assert(!crate::text::is_control(model[i]));
        }
    }
}

/// A profile is valid exactly where it has a trimmed label of at most 128 bytes, an endpoint that
/// the adapters accept, and valid and different models; the subscription stands under its own name
/// only. A selection is valid where its model is and its options are.
pub proof fn law_valid_profiles_are_usable(profile: ProfileView, selection: ModelSelection)
    ensures
        profile.problem() is None <==> {
            &&& !crate::text::is_blank(profile.label@)
            &&& crate::text::is_trimmed(profile.label@)
            &&& crate::text::byte_count(profile.label@) <= 128
            &&& profile.endpoint.valid
            &&& forall|i: int|
                0 <= i < profile.models.len() ==> valid_model_id((#[trigger] profile.models[i])@)
            &&& forall|i: int, j: int|
                0 <= i < j < profile.models.len() ==> (#[trigger] profile.models[i])@ != (
                #[trigger] profile.models[j])@
            &&& profile.endpoint.protocol == Protocol::ChatGptSubscription ==> profile.id@
                == "chatgpt"@
        },
        selection.problem() is None <==> valid_model_id(selection.model@) && (selection.options
            is None || selection.options->0.valid),
{
}

} // verus!

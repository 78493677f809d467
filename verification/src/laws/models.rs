//! What the settings promise about models, and the providers about connections.

use vstd::prelude::*;

use crate::config::{Profile, ProfileView, Protocol, RuntimeConfigView};
use crate::credentials::ApiKeyCredentialError;
use crate::document::{law_listings_are_complete, listing, DocumentKey, KeyRange};
use crate::error::CredentialProblemKind;
use crate::ids::{SessionId, WorkspaceId};
use crate::persistence::keys::{session_key, workspace_key};
use crate::profiles::{adds_profile, valid_profile_id, LlmProfile, LlmProfilesError};
use crate::providers::{
    connects, connects_subscription, is_login_target, logs_out_of, problem_kind, takes_api_key,
    ConnectPlan, EndpointSource, ProviderConnectError,
};
use crate::settings::{
    agent_settings, applies_when, configures_task, first_system, goes_on, inherits_model,
    plans_model, problem_from, same_settings, selection_problem, sets_display, sets_model,
    table_problem, valid_key, ApplyState, EffectiveRevision,
    ModelChange, ModelOverridesView, ModelResolution, ModelSelection, ModelWrite, Retry, RetryStep,
    Scope, SettingSource, SettingsError, SettingsView, TaskConfig, TurnConfig,
};
use crate::text::{byte_count, is_blank, is_trimmed};

verus! {

/// A model is named by a trimmed text of at most 256 bytes, and is never given no time at all.
pub proof fn law_valid_selections_name_a_model(model: Seq<char>, timeout_seconds: Option<u32>)
    ensures
        selection_problem(model, timeout_seconds) is None <==> !is_blank(model) && is_trimmed(model)
            && byte_count(model) <= 256 && timeout_seconds != Some(0u32),
{
}

/// The model of a session is its own choice where it has one, else its workspace's, else the user's,
/// else the built-in one; and it says which of them it is.
pub proof fn law_the_nearest_choice_decides(
    overrides: ModelOverridesView,
    workspace: WorkspaceId,
    session: SessionId,
    built_in: ModelSelection,
)
    ensures
        ({
            let found = overrides.resolved(workspace, session, built_in);
            let own = overrides.sessions.dom().contains(session_key(session));
            let shared = overrides.workspaces.dom().contains(workspace_key(workspace));
            &&& own ==> found.selection == overrides.sessions[session_key(session)] && found.source
                == SettingSource::Session
            &&& !own && shared ==> found.selection == overrides.workspaces[workspace_key(workspace)]
                && found.source == SettingSource::Workspace
            &&& !own && !shared && overrides.user is Some ==> found.selection == overrides.user->0
                && found.source == SettingSource::User
            &&& !own && !shared && overrides.user is None ==> found.selection == built_in
                && found.source == SettingSource::BuiltIn
        }),
{
}

/// A choice that is taken is kept in its scope and in no other, and what it gives for the session is
/// the answer. One that is not valid, or is for another workspace or session, changes nothing.
pub proof fn law_choices_are_kept_in_their_scope(
    before: SettingsView,
    workspace: WorkspaceId,
    session: SessionId,
    scope: Scope,
    selection: ModelSelection,
    revision: EffectiveRevision,
    after: SettingsView,
    r: Result<ModelChange, SettingsError>,
)
    requires
        sets_model(before, workspace, session, scope, selection, revision, after, r),
    ensures
        ({
            let valid = selection_problem(selection.model@, selection.timeout_seconds) is None;
            let fits = match scope {
                Scope::User => true,
                Scope::Workspace(id) => id == workspace,
                Scope::Session(id) => id == session,
            };
            &&& !valid || !fits ==> r is Err && after == before
            &&& valid && fits ==> {
                &&& scope is User ==> after.overrides == (ModelOverridesView {
                    user: Some(selection),
                    ..before.overrides
                })
                &&& scope is Workspace ==> after.overrides == (ModelOverridesView {
                    workspaces: before.overrides.workspaces.insert(
                        workspace_key(workspace),
                        selection,
                    ),
                    ..before.overrides
                })
                &&& scope is Session ==> after.overrides == (ModelOverridesView {
                    sessions: before.overrides.sessions.insert(session_key(session), selection),
                    ..before.overrides
                })
                &&& after.system is Some
                &&& after.display == before.display
                &&& before.system is Some && !(scope is User) ==> after.system == before.system
                &&& r matches Ok(change) ==> {
                    &&& change.scope == scope
                    &&& change.desired_revision == revision
                    &&& scope is Session ==> change.resolved.selection == selection
                    &&& scope is Session ==> change.resolved.source == SettingSource::Session
                }
            }
        }),
{
}

/// The first choice of a model sets the models of the whole system to it, and a later one for the
/// user sets the default solver; coordinator and deadlines then stay.
pub proof fn law_choices_for_the_user_set_the_default(
    before: SettingsView,
    workspace: WorkspaceId,
    session: SessionId,
    scope: Scope,
    selection: ModelSelection,
    r: Result<ModelWrite, SettingsError>,
)
    requires
        plans_model(before, workspace, session, scope, selection, r),
        r is Ok,
    ensures
        before.system is None ==> (r->Ok_0 matches ModelWrite::System(system) && {
            &&& system.default_solver.model == selection.model
            &&& system.default_solver.effort == selection.effort
            &&& system.coordinator.model == selection.model
            &&& system.coordinator.effort == selection.effort
        }),
        before.system is Some && scope is User && !same_settings(
            before.system->0.default_solver,
            agent_settings(selection),
        ) ==> (r->Ok_0 matches ModelWrite::System(system) && {
            &&& system.default_solver.model == selection.model
            &&& system.default_solver.effort == selection.effort
            &&& system.coordinator == before.system->0.coordinator
            &&& system.soft_deadline_seconds == before.system->0.soft_deadline_seconds
            &&& system.shutdown_grace_seconds == before.system->0.shutdown_grace_seconds
        }),
        before.system is Some && !(scope is User) ==> r->Ok_0 == ModelWrite::Overrides(selection),
        selection.timeout_seconds matches Some(seconds) ==> agent_settings(selection).timeout_seconds
            == seconds,
        agent_settings(selection).model == selection.model && agent_settings(selection).effort
            == selection.effort,
{
}

/// Giving up the model of a session removes its choice and no other, and says whether there was one;
/// choosing what is displayed changes the display alone.
pub proof fn law_giving_up_a_choice_is_local(
    before: SettingsView,
    workspace: WorkspaceId,
    session: SessionId,
    revision: EffectiveRevision,
    after: SettingsView,
    r: (bool, Result<ModelResolution, SettingsError>),
    show_progress: bool,
    shown: SettingsView,
    answer: EffectiveRevision,
)
    requires
        inherits_model(before, workspace, session, revision, after, r),
        sets_display(before, show_progress, revision, shown, answer),
    ensures
        r.0 == before.overrides.sessions.dom().contains(session_key(session)),
        after == (SettingsView {
            overrides: ModelOverridesView {
                sessions: before.overrides.sessions.remove(session_key(session)),
                ..before.overrides
            },
            ..before
        }),
        shown.display.show_progress == show_progress,
        shown == (SettingsView { display: shown.display, ..before }),
        answer == revision,
{
}

/// A choice applies at once where no turn is under way; else it waits for the next one, and says
/// which revision runs meanwhile. A task runs with the model that was resolved, if there is one.
pub proof fn law_choices_wait_for_the_turn(
    desired: EffectiveRevision,
    turn: Option<&TurnConfig>,
    state: ApplyState,
    resolution: ModelResolution,
    task: Option<TaskConfig>,
)
    requires
        applies_when(desired, turn, state),
        configures_task(resolution, task),
    ensures
        turn is None ==> state == (ApplyState::Applied { effective_revision: desired }),
        turn matches Some(running) ==> state == (ApplyState::PendingNextTurn {
            desired_revision: desired,
            current_turn_revision: running.effective_revision,
        }),
        resolution is NeedsModel ==> task is None,
        resolution matches ModelResolution::Ready { resolved, .. } ==> {
            &&& task matches Some(config)
            &&& config.model == Some(resolved.selection.model)
            &&& config.effort == resolved.selection.effort
            &&& config.timeout_seconds == resolved.selection.timeout_seconds
        },
{
}

/// A write is done once its last part is written; else it is tried again, and given up in the end.
pub proof fn law_writes_are_tried_again(
    before: Retry,
    written: bool,
    last: bool,
    after: Retry,
    r: RetryStep,
)
    requires
        goes_on(before, written, last, after, r),
    ensures
        after.attempts == before.attempts + 1,
        r == RetryStep::Done <==> written && last,
        r == RetryStep::Again ==> !(written && last),
{
}

/// A name of a profile is made of lowercase letters, digits and single hyphens inside, at most 64 of
/// them, and is none of the words that mean a scope.
pub proof fn law_profile_names_are_plain(name: Seq<char>, i: int)
    requires
        valid_profile_id(name),
    ensures
        0 < name.len(),
        byte_count(name) <= 64,
        name != "default"@ && name != "global"@ && name != "coordinator"@ && name != "inherit"@,
        0 <= i < name.len() ==> ('a' <= name[i] <= 'z' || '0' <= name[i] <= '9' || name[i] == '-'),
        name[0] != '-' && name[name.len() - 1] != '-',
{
    if 0 <= i < name.len() {
        assert(crate::text::is_lower_or_digit(name[i]) || name[i] == '-');
    }
}

/// A profile is added behind the others exactly where it is valid, all others are, and its name is
/// not taken; else the profiles stay.
pub proof fn law_added_profiles_have_their_own_name(
    before: Seq<LlmProfile>,
    profile: LlmProfile,
    after: Seq<LlmProfile>,
    r: Result<(), LlmProfilesError>,
)
    requires
        adds_profile(before, profile, after, r),
    ensures
        r is Err ==> after == before,
        r is Ok ==> {
            &&& after == before.push(profile)
            &&& profile.problem() is None
            &&& forall|i: int| 0 <= i < before.len() ==> (#[trigger] before[i]).id@ != profile.id@
        },
{
    if r is Ok {
        let all = before.push(profile);
        assert(all[before.len() as int] == profile);
        assert(!crate::profiles::repeats(all, before.len() as int));
        assert forall|i: int| 0 <= i < before.len() implies (#[trigger] before[i]).id@
            != profile.id@ by {
            assert(all[i] == before[i]);
        }
    }
}

/// A configuration is connected only where both profiles and both models are valid and fit each
/// other. The subscription is used exactly where one of the profiles is the subscription's, a key
/// for any other profile, and one connection serves both roles where they share a profile.
pub proof fn law_connections_follow_the_profiles(
    runtime: RuntimeConfigView,
    r: Result<ConnectPlan, ProviderConnectError>,
)
    requires
        connects(runtime, r),
    ensures
        ({
            let coordinator = runtime.coordinator_profile;
            let worker = runtime.worker_profile;
            let by_login = |profile: ProfileView| profile.endpoint.protocol
                == Protocol::ChatGptSubscription;
            &&& coordinator.problem() is Some || worker.problem() is Some ==> r is Err
            &&& runtime.coordinator.profile@ != coordinator.id@ || runtime.worker.profile@
                != worker.id@ ==> r is Err
            &&& runtime.coordinator.problem() is Some || runtime.worker.problem() is Some ==> r is Err
            &&& r matches Ok(plan) ==> {
                &&& plan.subscription == (by_login(coordinator) || by_login(worker))
                &&& plan.coordinator == (if by_login(coordinator) {
                    EndpointSource::Subscription
                } else {
                    EndpointSource::ApiKey
                })
                &&& coordinator.id@ == worker.id@ ==> plan.worker == EndpointSource::Coordinator
                &&& coordinator.id@ != worker.id@ ==> plan.worker == (if by_login(worker) {
                    EndpointSource::Subscription
                } else {
                    EndpointSource::ApiKey
                })
            }
            &&& coordinator.problem() is None && worker.problem() is None
                && runtime.coordinator.profile@ == coordinator.id@ && runtime.worker.profile@
                == worker.id@ && runtime.coordinator.problem() is None && runtime.worker.problem()
                is None ==> (r is Ok <==> coordinator.id@ != worker.id@
                || coordinator.endpoint.agrees(worker.endpoint))
        }),
{
}

/// A valid profile takes either a login or a key: a login exactly where it is the subscription's. A
/// profile that is not valid takes neither, and logging out removes what it takes.
pub proof fn law_profiles_take_a_login_or_a_key(
    profile: Profile,
    login: Result<(), ProviderConnectError>,
    key: Result<(), ProviderConnectError>,
    logout: Result<EndpointSource, ProviderConnectError>,
    cached: bool,
    connected: Result<(), ProviderConnectError>,
)
    requires
        is_login_target(profile, login),
        takes_api_key(profile, key),
        logs_out_of(profile, logout),
        connects_subscription(cached, connected),
    ensures
        ({
            let valid = profile@.problem() is None;
            let by_login = profile@.endpoint.protocol == Protocol::ChatGptSubscription;
            &&& (login is Ok) == (valid && by_login)
            &&& (key is Ok) == (valid && !by_login)
            &&& (logout is Ok) == valid
            &&& logout matches Ok(source) ==> source == (if by_login {
                EndpointSource::Subscription
            } else {
                EndpointSource::ApiKey
            })
            &&& (connected is Ok) == cached
            &&& !cached ==> (connected matches Err(ProviderConnectError::LoginRequired(_)))
        }),
{
}

/// A key that is missing or saved for another endpoint is reported as that; everything else that
/// is wrong with a key is reported as unavailable credentials.
pub proof fn law_credential_problems_are_told_apart(error: ApiKeyCredentialError)
    ensures
        problem_kind(error) == CredentialProblemKind::Missing <==> error
            == ApiKeyCredentialError::MissingApiKey,
        problem_kind(error) == CredentialProblemKind::EndpointMismatch <==> error
            == ApiKeyCredentialError::EndpointMismatch,
        problem_kind(error) == CredentialProblemKind::Unavailable <==> error
            == ApiKeyCredentialError::InvalidApiKey || error == ApiKeyCredentialError::Unavailable,
{
}

/// The name of a setting is made of parts between single dots. A part is not empty and has only
/// lower-case letters, digits, underscores and hyphens; the name has at most 128 bytes.
pub proof fn law_setting_names_have_parts(key: Seq<char>, i: int)
    requires
        valid_key(key),
    ensures
        1 <= key.len(),
        byte_count(key) <= 128,
        0 <= i < key.len() ==> 'a' <= key[i] <= 'z' || '0' <= key[i] <= '9' || key[i] == '_'
            || key[i] == '-' || key[i] == '.',
        key[0] != '.',
        key[key.len() - 1] != '.',
        0 <= i < key.len() - 1 && key[i] == '.' ==> key[i + 1] != '.',
{
}

/// One part of plain characters is the name of a setting, and so are two with a dot between them.
pub proof fn law_plain_parts_name_a_setting(first: Seq<char>, second: Seq<char>)
    requires
        1 <= first.len() && 1 <= second.len(),
        byte_count(first + seq!['.'] + second) <= 128,
        byte_count(first) <= 128,
        forall|i: int|
            0 <= i < first.len() ==> 'a' <= #[trigger] first[i] <= 'z' || '0' <= first[i] <= '9'
                || first[i] == '_' || first[i] == '-',
        forall|i: int|
            0 <= i < second.len() ==> 'a' <= #[trigger] second[i] <= 'z' || '0' <= second[i] <= '9'
                || second[i] == '_' || second[i] == '-',
    ensures
        valid_key(first),
        valid_key(first + seq!['.'] + second),
{
    let both = first + seq!['.'] + second;
    assert forall|i: int| 0 <= i < both.len() implies crate::settings::key_char(
        #[trigger] both[i],
    ) || both[i] == '.' by {
        if i < first.len() {
            assert(both[i] == first[i]);
        } else if i > first.len() {
            assert(both[i] == second[i - first.len() - 1]);
        }
    }
    assert(both[0] == first[0]);
    assert(both.last() == second.last());
    assert forall|i: int| 0 <= i < both.len() - 1 implies !(#[trigger] both[i] == '.' && both[i + 1]
        == '.') by {
        if i < first.len() {
            assert(both[i] == first[i]);
        } else if i == first.len() {
            assert(both[i + 1] == second[0]);
        } else {
            assert(both[i] == second[i - first.len() - 1]);
        }
    }
}

/// The first model that is chosen both coordinates and solves, with thirty seconds until a turn is
/// to come to its end and five for a shutdown.
pub proof fn law_the_first_model_does_everything(selection: ModelSelection)
    ensures
        first_system(selection).coordinator == agent_settings(selection),
        first_system(selection).default_solver == agent_settings(selection),
        first_system(selection).soft_deadline_seconds == 30,
        first_system(selection).shutdown_grace_seconds == 5,
{
}

/// Choices without a problem are valid one by one: the user's, every workspace's and every
/// session's.
pub proof fn law_every_choice_is_checked(overrides: ModelOverridesView, key: DocumentKey)
    requires
        overrides.workspaces.dom().finite(),
        overrides.sessions.dom().finite(),
        overrides.problem() is None,
    ensures
        overrides.user matches Some(choice) ==> selection_problem(
            choice.model@,
            choice.timeout_seconds,
        ) is None,
        overrides.workspaces.dom().contains(key) ==> selection_problem(
            overrides.workspaces[key].model@,
            overrides.workspaces[key].timeout_seconds,
        ) is None,
        overrides.sessions.dom().contains(key) ==> selection_problem(
            overrides.sessions[key].model@,
            overrides.sessions[key].timeout_seconds,
        ) is None,
{
    lemma_table_is_checked(overrides.workspaces, key);
    lemma_table_is_checked(overrides.sessions, key);
}

proof fn lemma_table_is_checked(choices: Map<DocumentKey, ModelSelection>, key: DocumentKey)
    requires
        choices.dom().finite(),
        table_problem(choices) is None,
    ensures
        choices.dom().contains(key) ==> selection_problem(
            choices[key].model@,
            choices[key].timeout_seconds,
        ) is None,
{
    let range = KeyRange { owner: None, item: None, before: None };
    let keys = listing(choices.dom(), range);
    law_listings_are_complete(choices.dom(), range);
    if choices.dom().contains(key) {
        assert(keys.contains(key));
        let at = choose|i: int| 0 <= i < keys.len() && keys[i] == key;
        lemma_checked_from(keys, choices, 0, at);
    }
}

proof fn lemma_checked_from(
    keys: Seq<DocumentKey>,
    choices: Map<DocumentKey, ModelSelection>,
    from: int,
    at: int,
)
    requires
        0 <= from <= at < keys.len(),
        problem_from(keys, choices, from) is None,
    ensures
        selection_problem(choices[keys[at]].model@, choices[keys[at]].timeout_seconds) is None,
    decreases at - from,
{
    if from < at {
        lemma_checked_from(keys, choices, from + 1, at);
    }
}

} // verus!

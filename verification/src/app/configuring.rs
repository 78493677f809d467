//! How the application is configured, and which open sessions it tells of a change.

use vstd::prelude::*;

use super::live::{all_keys, session_of};
use super::reload::{lemma_offers_agree, lemma_same_problem};
use super::{App, LiveSession};
use crate::config::{
    agent_limits_problem, has_profile, model_problem, profile_named, resolution,
    resolution_problem, resolve_model, resolve_runtime, tool_limits_problem, validate_agent_limits,
    validate_tool_limits, ConfigChange, ConfigError, ConfigProblem, ConfigProblemView, ConfigScope,
    ModelSelection, Profile, ProfileId, ProfileView, ResolvedConfig, RuntimeConfig,
    RuntimeOverrides,
};
use crate::document::{listing, DocumentKey, KeyRange};
use crate::error::Error;
use crate::file_config::{other_than, with_profile, without_profile, AdapterDefaults};
use crate::ids::{SessionId, WorkspaceId};
use crate::persistence::{profile_views, DataStore, StoreView};
use crate::providers::{is_subscription, subscribed, ProviderConnectError};
use crate::seqs::{lemma_filter_keeps, lemma_filter_none, lemma_filter_step, lemma_take_all};

verus! {

/// A saved change of the configuration, with the sessions that are to be told of it.
#[derive(Debug, PartialEq, Eq)]
pub struct ConfigUpdate {
    pub saved: RuntimeOverrides,
    /// The sessions that are to take the change even where nothing seems to differ.
    pub forced: Vec<SessionId>,
    pub ordinary: Vec<SessionId>,
}

/// The model that a change chooses.
pub open spec fn chosen_model(change: ConfigChange) -> Option<ModelSelection> {
    match change {
        ConfigChange::Model(value) => value,
        ConfigChange::Worker(value) => value,
        ConfigChange::Coordinator(value) => value,
        _ => None,
    }
}

/// What is wrong with a change in itself.
pub open spec fn change_problem(change: ConfigChange) -> Option<ConfigError> {
    match change {
        ConfigChange::Limits(Some(limits)) => agent_limits_problem(limits),
        ConfigChange::Tools(Some(tools)) => tool_limits_problem(tools),
        _ => match chosen_model(change) {
            Some(selection) => selection.problem(),
            None => None,
        },
    }
}

/// Checks a change in itself.
pub fn validate_change(change: &ConfigChange) -> (r: Result<(), Error>)
    ensures
        match change_problem(*change) {
            Some(problem) => r matches Err(error) && error.is_invalid(problem.text()),
            None => r is Ok,
        },
{
    let checked = match change {
        ConfigChange::Model(Some(value)) => value.validate(),
        ConfigChange::Worker(Some(value)) => value.validate(),
        ConfigChange::Coordinator(Some(value)) => value.validate(),
        ConfigChange::Limits(Some(limits)) => validate_agent_limits(limits),
        ConfigChange::Tools(Some(tools)) => validate_tool_limits(tools),
        _ => Ok(()),
    };
    match checked {
        Ok(()) => Ok(()),
        Err(problem) => Err(Error::InvalidState(problem.message())),
    }
}

/// Whether a scope reaches a session.
pub open spec fn reaches(scope: ConfigScope, session: SessionId, workspace: WorkspaceId) -> bool {
    match scope {
        ConfigScope::User => true,
        ConfigScope::Workspace(id) => workspace == id,
        ConfigScope::Session(id) => session == id,
    }
}

/// Whether a scope reaches a session.
pub fn config_affects(scope: ConfigScope, session: SessionId, workspace: WorkspaceId) -> (r: bool)
    ensures
        r == reaches(scope, session, workspace),
{
    match scope {
        ConfigScope::User => true,
        ConfigScope::Workspace(id) => workspace == id,
        ConfigScope::Session(id) => session == id,
    }
}

/// Whether the models of a scope are those of a session in at least one role: no nearer scope sets
/// both.
pub open spec fn model_applies(
    store: StoreView,
    scope: ConfigScope,
    session: SessionId,
    workspace: WorkspaceId,
    defaults: AdapterDefaults,
) -> bool {
    let own = store.scope_config(ConfigScope::Session(session), defaults);
    let shared = store.scope_config(ConfigScope::Workspace(workspace), defaults);
    match scope {
        ConfigScope::Session(id) => session == id,
        ConfigScope::Workspace(id) => workspace == id && (own.worker is None || own.coordinator
            is None),
        ConfigScope::User => (own.worker is None && shared.worker is None) || (own.coordinator
            is None && shared.coordinator is None),
    }
}

/// Whether the models of a scope are those of a session in at least one role.
pub fn model_scope_applies(
    store: &DataStore,
    scope: ConfigScope,
    session: SessionId,
    workspace: WorkspaceId,
    defaults: AdapterDefaults,
) -> (r: bool)
    requires
        defaults.usable(),
    ensures
        r == model_applies(store@, scope, session, workspace, defaults),
{
    let own = store.config(ConfigScope::Session(session), defaults.clone());
    match scope {
        ConfigScope::Session(id) => session == id,
        ConfigScope::Workspace(id) => workspace == id && (own.worker.is_none()
            || own.coordinator.is_none()),
        ConfigScope::User => {
            let shared = store.config(ConfigScope::Workspace(workspace), defaults);
            (own.worker.is_none() && shared.worker.is_none()) || (own.coordinator.is_none()
                && shared.coordinator.is_none())
        },
    }
}

/// Whether a change chooses a model that is reached by the subscription's login, for both roles.
pub open spec fn needs_login(change: ConfigChange, profiles: Seq<Profile>) -> bool {
    &&& change is Model
    &&& chosen_model(change) is Some
    &&& subscribed(profile_named(profiles, chosen_model(change)->0.profile@)@)
}

/// Whether an open session is to be told of a change in a scope, by force or not.
pub open spec fn is_told(
    sessions: Map<DocumentKey, LiveSession>,
    store: StoreView,
    scope: ConfigScope,
    sets_model: bool,
    by_force: bool,
    defaults: AdapterDefaults,
) -> spec_fn(DocumentKey) -> bool {
    |key: DocumentKey|
        {
            let session = SessionId(key.owner);
            let workspace = sessions[key].workspace;
            &&& !sessions[key].releasing
            &&& reaches(scope, session, workspace)
            &&& by_force == (sets_model && model_applies(
                store,
                scope,
                session,
                workspace,
                defaults,
            ))
        }
}

/// Whether a scope exists.
pub open spec fn scope_problem(store: StoreView, scope: ConfigScope) -> Option<Error> {
    match scope {
        ConfigScope::User => None,
        ConfigScope::Workspace(id) => if store.has_workspace(id) {
            None
        } else {
            Some(Error::WorkspaceNotFound)
        },
        ConfigScope::Session(id) => if store.has_session(id) {
            None
        } else {
            Some(Error::SessionNotFound)
        },
    }
}

/// Whether this is the configuration that a session wants: the settings of its scopes, resolved
/// with the profiles of the store.
pub open spec fn wants(
    store: StoreView,
    workspace: WorkspaceId,
    session: Option<SessionId>,
    defaults: AdapterDefaults,
    profiles: Seq<Profile>,
    desired: Result<RuntimeConfig, ConfigProblem>,
) -> bool {
    let shared = store.scope_config(ConfigScope::Workspace(workspace), defaults);
    let own = match session {
        Some(id) => Some(&store.scope_config(ConfigScope::Session(id), defaults)),
        None => None,
    };
    let user = store.user_settings(defaults);
    match desired {
        Ok(config) => {
            &&& resolution_problem(user, Some(&shared), own, profiles) is None
            &&& config@ == resolution(
                user,
                Some(&shared),
                own,
                profiles,
                store.root_of(workspace),
            )
        },
        Err(problem) => resolution_problem(user, Some(&shared), own, profiles) == Some(problem@),
    }
}

/// Whether a change of the configuration gives this application and this answer.
pub open spec fn updates_config(
    app: App,
    scope: ConfigScope,
    change: ConfigChange,
    defaults: AdapterDefaults,
    subscription_cached: bool,
    next: App,
    r: Result<ConfigUpdate, Error>,
) -> bool {
    &&& next == (App { store: next.store, ..app })
    &&& {
        let before = app.store@;
        if change_problem(change) is Some {
            &&& r matches Err(error)
            &&& error.is_invalid(change_problem(change)->0.text())
            &&& next.store@ == before
        } else if app.closed {
            &&& r matches Err(error)
            &&& error == Error::Closed
            &&& next.store@ == before
        } else if scope_problem(before, scope) is Some {
            &&& r matches Err(error)
            &&& Some(error) == scope_problem(before, scope)
            &&& next.store@ == before
        } else {
            exists|profiles: Seq<Profile>| #[trigger]
                before.offers(profile_views(profiles)) && (if chosen_model(change) is Some
                    && model_problem(chosen_model(change)->0, profiles) is Some {
                    &&& r matches Err(Error::Configuration(problem))
                    &&& Some(problem@) == model_problem(chosen_model(change)->0, profiles)
                    &&& next.store@ == before
                } else if needs_login(change, profiles) && !subscription_cached {
                    &&& r matches Err(Error::LoginRequired(id))
                    &&& id@ == chosen_model(change)->0.profile@
                    &&& next.store@ == before
                } else {
                    let after = before.with_config(scope, change, defaults);
                    let sets_model = change is Model && chosen_model(change) is Some;
                    let keys = listing(app.sessions@.dom(), all_keys());
                    &&& next.store@ == after
                    &&& r matches Ok(update)
                    &&& update.saved == after.scope_config(scope, defaults)
                    &&& update.forced@ == keys.filter(
                        is_told(
                            app.sessions@,
                            after,
                            scope,
                            sets_model,
                            true,
                            defaults,
                        ),
                    ).map_values(session_of())
                    &&& update.ordinary@ == keys.filter(
                        is_told(
                            app.sessions@,
                            after,
                            scope,
                            sets_model,
                            false,
                            defaults,
                        ),
                    ).map_values(session_of())
                })
        }
    }
}

/// Whether this is what is configured in a scope.
pub open spec fn gives_config(
    app: App,
    scope: ConfigScope,
    defaults: AdapterDefaults,
    r: Result<RuntimeOverrides, Error>,
) -> bool {
    r == (if app.closed {
        Err::<RuntimeOverrides, Error>(Error::Closed)
    } else {
        match scope_problem(app.store@, scope) {
            Some(error) => Err(error),
            None => Ok(app.store@.scope_config(scope, defaults)),
        }
    })
}

/// Whether this is the configuration of a session.
pub open spec fn gives_resolved(
    app: App,
    session: SessionId,
    running: Option<RuntimeConfig>,
    defaults: AdapterDefaults,
    r: Result<ResolvedConfig, Error>,
) -> bool {
    let workspace = app.store@.session(session).info.workspace;
    if app.closed {
        r matches Err(error) && error == Error::Closed
    } else if !app.store@.has_session(session) {
        r matches Err(error) && error == Error::SessionNotFound
    } else if !app.store@.has_workspace(workspace) {
        r matches Err(error) && error == Error::WorkspaceNotFound
    } else {
        &&& r matches Ok(resolved)
        &&& resolved.running == running
        &&& exists|profiles: Seq<Profile>| #[trigger]
            app.store@.offers(profile_views(profiles)) && wants(
                app.store@,
                workspace,
                Some(session),
                defaults,
                profiles,
                resolved.desired,
            )
    }
}

/// Whether this is the configuration of a workspace.
pub open spec fn gives_workspace_resolved(
    app: App,
    workspace: WorkspaceId,
    defaults: AdapterDefaults,
    r: Result<ResolvedConfig, Error>,
) -> bool {
    if app.closed {
        r matches Err(error) && error == Error::Closed
    } else if !app.store@.has_workspace(workspace) {
        r matches Err(error) && error == Error::WorkspaceNotFound
    } else {
        &&& r matches Ok(resolved)
        &&& resolved.running is None
        &&& exists|profiles: Seq<Profile>| #[trigger]
            app.store@.offers(profile_views(profiles)) && wants(
                app.store@,
                workspace,
                None,
                defaults,
                profiles,
                resolved.desired,
            )
    }
}

/// Whether this is the profile with a name.
pub open spec fn finds_profile(
    app: App,
    id: ProfileId,
    r: Result<Profile, Error>,
) -> bool {
    exists|profiles: Seq<ProfileView>| #[trigger]
        app.store@.offers(profiles) && match r {
            Ok(profile) => exists|i: int| #[trigger] named_at(profiles, id@, i)
                && profile@ == profiles[i],
            Err(error) => {
                &&& forall|i: int| 0 <= i < profiles.len() ==> (#[trigger] profiles[i]).id@
                    != id@
                &&& error matches Error::Configuration(ConfigProblem::MissingProfile(name))
                &&& name@ == id@
            },
        }
}

/// Whether saving a profile gives this application and this answer.
pub open spec fn saves_profile(
    app: App,
    profile: Profile,
    next: App,
    r: Result<Vec<SessionId>, Error>,
) -> bool {
    &&& next == (App { store: next.store, ..app })
    &&& match profile.problem() {
        Some(problem) => {
            &&& r matches Err(error)
            &&& error.is_invalid(problem.text())
            &&& next.store@ == app.store@
        },
        None => if app.closed {
            &&& r matches Err(error)
            &&& error == Error::Closed
            &&& next.store@ == app.store@
        } else {
            &&& r matches Ok(told)
            &&& told@ == app.active(None)
            &&& exists|before: Seq<ProfileView>|
                app.store@.offers(before) && next.store@ == (StoreView {
                    profiles: Some(#[trigger] with_profile(before, profile@)),
                    ..app.store@
                })
        },
    }
}

/// Whether deleting a profile gives this application and this answer.
pub open spec fn deletes_profile(
    app: App,
    id: ProfileId,
    removed: Result<(), ProviderConnectError>,
    next: App,
    r: Result<Option<Vec<SessionId>>, Error>,
) -> bool {
    &&& next == (App { store: next.store, ..app })
    &&& if app.closed {
        &&& r matches Err(error)
        &&& error == Error::Closed
        &&& next.store@ == app.store@
    } else {
        match r {
            Ok(Some(told)) => {
                &&& removed is Ok
                &&& told@ == app.active(None)
                &&& exists|before: Seq<ProfileView>|
                    {
                        &&& app.store@.offers(before)
                        &&& exists|i: int| named_at(before, id@, i)
                    } && next.store@ == (StoreView {
                        profiles: Some(#[trigger] without_profile(before, id@)),
                        ..app.store@
                    })
            },
            Ok(None) => {
                &&& next.store@ == app.store@
                &&& exists|before: Seq<ProfileView>| #[trigger]
                    app.store@.offers(before) && forall|i: int|
                        0 <= i < before.len() ==> (#[trigger] before[i]).id@ != id@
            },
            Err(error) => {
                &&& next.store@ == app.store@
                &&& removed matches Err(cause) && cause.becomes(error)
                &&& exists|before: Seq<ProfileView>| #[trigger]
                    app.store@.offers(before) && exists|i: int|
                        named_at(before, id@, i)
            },
        }
    }
}

/// Whether this says if a profile is still the expected one.
pub open spec fn expects_profile(
    app: App,
    expected: Profile,
    r: Result<(), Error>,
) -> bool {
    if app.closed {
        r == Err::<(), Error>(Error::Closed)
    } else {
        exists|profiles: Seq<ProfileView>| #[trigger]
            app.store@.offers(profiles) && match r {
                Ok(()) => exists|i: int, current: Profile| #[trigger]
                    named_at(profiles, expected.id@, i) && #[trigger] current@ == profiles[i]
                        && current.agrees(expected),
                Err(error) => {
                    ||| error matches Error::Configuration(ConfigProblem::MissingProfile(name))
                        && name@ == expected.id@ && forall|i: int|
                        0 <= i < profiles.len() ==> (#[trigger] profiles[i]).id@
                            != expected.id@
                    ||| error.is_invalid("profile changed before credentials were saved"@)
                        && exists|i: int, current: Profile| #[trigger]
                        named_at(profiles, expected.id@, i) && #[trigger] current@
                            == profiles[i] && !current.agrees(expected)
                },
            }
    }
}

impl App {
    /// Checks that a scope exists.
    pub fn ensure_scope(&self, scope: ConfigScope) -> (r: Result<(), Error>)
        ensures
            r == (match scope_problem(self.store@, scope) {
                Some(error) => Err::<(), Error>(error),
                None => Ok(()),
            }),
    {
        match scope {
            ConfigScope::User => Ok(()),
            ConfigScope::Workspace(id) => match self.find_workspace(id) {
                Ok(_) => Ok(()),
                Err(error) => Err(error),
            },
            ConfigScope::Session(id) => {
                if self.store.session(id).is_some() {
                    Ok(())
                } else {
                    Err(Error::SessionNotFound)
                }
            },
        }
    }

    /// What is set in a scope.
    pub fn config(&self, scope: ConfigScope, defaults: AdapterDefaults) -> (r: Result<
        RuntimeOverrides,
        Error,
    >)
        requires
            defaults.usable(),
        ensures
            gives_config(*self, scope, defaults, r),
    {
        if self.closed {
            return Err(Error::Closed);
        }
        match self.ensure_scope(scope) {
            Ok(()) => Ok(self.store.config(scope, defaults)),
            Err(error) => Err(error),
        }
    }

    /// The open sessions that are to be told of a change in a scope, by force or not.
    fn told(
        &self,
        scope: ConfigScope,
        sets_model: bool,
        by_force: bool,
        defaults: AdapterDefaults,
    ) -> (r: Vec<SessionId>)
        requires
            defaults.usable(),
        ensures
            r@ == listing(self.sessions@.dom(), all_keys()).filter(
                is_told(self.sessions@, self.store@, scope, sets_model, by_force, defaults),
            ).map_values(session_of()),
    {
        let keys = self.sessions.select(&KeyRange { owner: None, item: None, before: None });
        let ghost keep = is_told(
            self.sessions@,
            self.store@,
            scope,
            sets_model,
            by_force,
            defaults,
        );
        let mut r: Vec<SessionId> = Vec::new();
        let mut i: usize = 0;
        proof {
            lemma_filter_none(keys@, keep);
            assert(r@ =~= keys@.take(0).filter(keep).map_values(session_of()));
        }
        while i < keys.len()
            invariant
                i <= keys@.len(),
                defaults.usable(),
                keys@ == listing(self.sessions@.dom(), all_keys()),
                keep == is_told(
                    self.sessions@,
                    self.store@,
                    scope,
                    sets_model,
                    by_force,
                    defaults,
                ),
                forall|j: int| #![trigger keys@[j]]
                    0 <= j < keys@.len() ==> self.sessions@.dom().contains(keys@[j]),
                r@ == keys@.take(i as int).filter(keep).map_values(session_of()),
            decreases keys@.len() - i,
        {
            proof {
                assert(self.sessions@.dom().contains(keys@[i as int]));
                lemma_filter_step(keys@, i as int, keep);
            }
            match self.sessions.get(&keys[i]) {
                Some(session) => {
                    let id = SessionId(keys[i].owner);
                    if !session.releasing && config_affects(scope, id, session.workspace) {
                        let forced = sets_model && model_scope_applies(
                            &self.store,
                            scope,
                            id,
                            session.workspace,
                            defaults.clone(),
                        );
                        if forced == by_force {
                            r.push(id);
                        }
                    }
                },
                None => {},
            }
            proof {
                assert(r@ =~= keys@.take(i + 1).filter(keep).map_values(session_of()));
            }
            i = i + 1;
        }
        proof {
            lemma_take_all(keys@);
        }
        r
    }

    /// Saves a change in a scope, and says which open sessions are to be told of it: those that a
    /// new model reaches by force, the others that the scope reaches without. A model of the
    /// subscription is chosen only where the subscription's login is cached; where it has to be
    /// authorized first, the selection stays as it was.
    pub fn update_config(
        &mut self,
        scope: ConfigScope,
        change: ConfigChange,
        defaults: AdapterDefaults,
        subscription_cached: bool,
    ) -> (r: Result<ConfigUpdate, Error>)
        requires
            defaults.usable(),
        ensures
            updates_config(*old(self), scope, change, defaults, subscription_cached, *final(self), r),
    {
        match validate_change(&change) {
            Ok(()) => {},
            Err(error) => {
                return Err(error);
            },
        }
        if self.closed {
            return Err(Error::Closed);
        }
        match self.ensure_scope(scope) {
            Ok(()) => {},
            Err(error) => {
                return Err(error);
            },
        }
        let profiles = self.store.profiles();
        assert(self.store@.offers(profile_views(profiles@)));
        let (selection, sets_model) = match &change {
            ConfigChange::Model(Some(value)) => (Some(value.clone()), true),
            ConfigChange::Worker(Some(value)) => (Some(value.clone()), false),
            ConfigChange::Coordinator(Some(value)) => (Some(value.clone()), false),
            _ => (None, false),
        };
        match selection {
            Some(selection) => {
                match resolve_model(selection, &profiles) {
                    Ok(model) => {
                        if sets_model && is_subscription(&model.profile) && !subscription_cached {
                            return Err(Error::LoginRequired(model.selection.profile));
                        }
                    },
                    Err(problem) => {
                        return Err(Error::Configuration(problem));
                    },
                }
            },
            None => {},
        }
        let saved = self.store.update_config(scope, change, defaults.clone());
        let forced = self.told(scope, sets_model, true, defaults.clone());
        let ordinary = self.told(scope, sets_model, false, defaults);
        Ok(ConfigUpdate { saved, forced, ordinary })
    }

    /// Whether this is the configuration that a session wants.
    pub open spec fn resolves(
        self,
        session: SessionId,
        defaults: AdapterDefaults,
        answer: Result<Result<RuntimeConfig, ConfigProblem>, Error>,
    ) -> bool {
        let workspace = self.store@.session(session).info.workspace;
        if !self.store@.has_session(session) {
            answer matches Err(error) && error == Error::SessionNotFound
        } else if !self.store@.has_workspace(workspace) {
            answer matches Err(error) && error == Error::WorkspaceNotFound
        } else {
            answer matches Ok(desired) && exists|profiles: Seq<Profile>| #[trigger]
                self.store@.offers(profile_views(profiles)) && wants(
                    self.store@,
                    workspace,
                    Some(session),
                    defaults,
                    profiles,
                    desired,
                )
        }
    }

    /// The configuration that a session wants.
    pub fn resolve_session_config(&self, session: SessionId, defaults: AdapterDefaults) -> (r: Result<
        Result<RuntimeConfig, ConfigProblem>,
        Error,
    >)
        requires
            defaults.usable(),
        ensures
            self.resolves(session, defaults, r),
    {
        let saved = match self.store.session(session) {
            Some(saved) => saved,
            None => {
                return Err(Error::SessionNotFound);
            },
        };
        let workspace = match self.find_workspace(saved.info.workspace) {
            Ok(workspace) => workspace,
            Err(error) => {
                return Err(error);
            },
        };
        let global = self.store.global_settings(defaults.clone());
        let shared = self.store.config(ConfigScope::Workspace(workspace.id), defaults.clone());
        let own = self.store.config(ConfigScope::Session(session), defaults);
        let profiles = self.store.profiles();
        assert(self.store@.offers(profile_views(profiles@)));
        Ok(resolve_runtime(&global, Some(&shared), Some(&own), &profiles, workspace.root))
    }

    /// The configuration that a session wants, with the one that it runs with.
    pub fn resolved_config(
        &self,
        session: SessionId,
        running: Option<RuntimeConfig>,
        defaults: AdapterDefaults,
    ) -> (r: Result<ResolvedConfig, Error>)
        requires
            defaults.usable(),
        ensures
            gives_resolved(*self, session, running, defaults, r),
    {
        if self.closed {
            return Err(Error::Closed);
        }
        match self.resolve_session_config(session, defaults) {
            Ok(desired) => Ok(ResolvedConfig { desired, running }),
            Err(error) => Err(error),
        }
    }

    /// The configuration that a new session of a workspace would want.
    pub fn resolved_workspace_config(&self, workspace: WorkspaceId, defaults: AdapterDefaults) -> (r:
        Result<ResolvedConfig, Error>)
        requires
            defaults.usable(),
        ensures
            gives_workspace_resolved(*self, workspace, defaults, r),
    {
        if self.closed {
            return Err(Error::Closed);
        }
        let found = match self.find_workspace(workspace) {
            Ok(found) => found,
            Err(error) => {
                return Err(error);
            },
        };
        let global = self.store.global_settings(defaults.clone());
        let shared = self.store.config(ConfigScope::Workspace(workspace), defaults);
        let profiles = self.store.profiles();
        assert(self.store@.offers(profile_views(profiles@)));
        let desired = resolve_runtime(&global, Some(&shared), None, &profiles, found.root);
        Ok(ResolvedConfig { desired, running: None })
    }

    /// The saved profiles.
    pub fn profiles(&self) -> (r: Result<Vec<Profile>, Error>)
        ensures
            if self.closed {
                r matches Err(error) && error == Error::Closed
            } else {
                r matches Ok(profiles) && self.store@.offers(profile_views(profiles@))
            },
    {
        if self.closed {
            return Err(Error::Closed);
        }
        Ok(self.store.profiles())
    }

    /// The saved profile with a name.
    pub fn profile(&self, id: &ProfileId) -> (r: Result<Profile, Error>)
        ensures
            finds_profile(*self, *id, r),
    {
        let profiles = self.store.profiles();
        let ghost views = profile_views(profiles@);
        assert(self.store@.offers(views));
        let mut i: usize = 0;
        while i < profiles.len()
            invariant
                i <= profiles@.len(),
                views == profile_views(profiles@),
                self.store@.offers(views),
                forall|j: int| 0 <= j < i ==> (#[trigger] views[j]).id@ != id@,
            decreases profiles@.len() - i,
        {
            assert(views[i as int] == profiles@[i as int]@);
            if profiles[i].id.same(id) {
                assert(named_at(views, id@, i as int));
                return Ok(profiles[i].copy());
            }
            i = i + 1;
        }
        Err(Error::Configuration(ConfigProblem::MissingProfile(id.clone())))
    }

    /// Saves a profile, and says which open sessions are to be told of it.
    pub fn save_profile(&mut self, profile: Profile) -> (r: Result<Vec<SessionId>, Error>)
        ensures
            saves_profile(*old(self), profile, *final(self), r),
    {
        match profile.validate() {
            Ok(()) => {},
            Err(problem) => {
                return Err(Error::InvalidState(problem.message()));
            },
        }
        if self.closed {
            return Err(Error::Closed);
        }
        self.store.save_profile(profile);
        Ok(self.active_sessions(None))
    }

    /// Deletes a profile once its credentials are removed, and says which open sessions are to be
    /// told of it. They keep their selection of it. Where the credentials could not be removed, the
    /// profile stays. Deleting one that is not saved does nothing.
    pub fn delete_profile(&mut self, id: &ProfileId, removed: Result<(), ProviderConnectError>) -> (r:
        Result<Option<Vec<SessionId>>, Error>)
        ensures
            deletes_profile(*old(self), *id, removed, *final(self), r),
    {
        if self.closed {
            return Err(Error::Closed);
        }
        match self.profile(id) {
            Ok(_) => {},
            Err(_) => {
                return Ok(None);
            },
        }
        let ghost start = self.store@;
        match removed {
            Ok(()) => {},
            Err(cause) => {
                return Err(cause.into_error());
            },
        }
        self.store.delete_profile(id);
        proof {
            let found = choose|found: Seq<ProfileView>| #[trigger]
                start.offers(found) && exists|i: int| named_at(found, id@, i);
            let at = choose|i: int| named_at(found, id@, i);
            let before = choose|before: Seq<ProfileView>|
                start.offers(before) && self.store@ == (StoreView {
                    profiles: Some(#[trigger] without_profile(before, id@)),
                    ..start
                });
            assert(named_at(before, id@, at));
        }
        Ok(Some(self.active_sessions(None)))
    }

    /// Checks that a profile is still the one that a key was entered for.
    pub fn expect_profile(&self, expected: &Profile) -> (r: Result<(), Error>)
        ensures
            expects_profile(*self, *expected, r),
    {
        if self.closed {
            return Err(Error::Closed);
        }
        match self.profile(&expected.id) {
            Ok(current) => {
                let same = current.same(expected);
                proof {
                    let profiles = choose|profiles: Seq<ProfileView>| #[trigger]
                        self.store@.offers(profiles) && exists|i: int| #[trigger]
                            named_at(profiles, expected.id@, i) && current@ == profiles[i];
                    let i = choose|i: int| #[trigger]
                        named_at(profiles, expected.id@, i) && current@ == profiles[i];
                    assert(self.store@.offers(profiles));
                    assert(named_at(profiles, expected.id@, i));
                    assert(current@ == profiles[i]);
                }
                if same {
                    Ok(())
                } else {
                    Err(Error::invalid("profile changed before credentials were saved"))
                }
            },
            Err(error) => Err(error),
        }
    }
}

/// Whether the first profile with a name stands at `index`.
pub open spec fn named_at(
    profiles: Seq<ProfileView>,
    name: Seq<char>,
    index: int,
) -> bool {
    &&& 0 <= index < profiles.len()
    &&& profiles[index].id@ == name
    &&& forall|i: int| 0 <= i < index ==> (#[trigger] profiles[i]).id@ != name
}

/// Every open session that a change reaches is told of it once: by force or not, never both.
pub proof fn law_each_session_is_told_once(
    sessions: Map<DocumentKey, LiveSession>,
    store: StoreView,
    scope: ConfigScope,
    sets_model: bool,
    defaults: AdapterDefaults,
    key: DocumentKey,
)
    requires
        sessions.dom().contains(key),
        !sessions[key].releasing,
        reaches(scope, SessionId(key.owner), sessions[key].workspace),
    ensures
        is_told(sessions, store, scope, sets_model, true, defaults)(key) != is_told(
            sessions,
            store,
            scope,
            sets_model,
            false,
            defaults,
        )(key),
{
}

/// What a store has saved decides whether a choice of a model is usable, and whether it needs the
/// subscription's login, however its profiles are listed.
pub proof fn law_stored_profiles_decide(
    store: StoreView,
    change: ConfigChange,
    a: Seq<Profile>,
    b: Seq<Profile>,
)
    requires
        store.offers(profile_views(a)),
        store.offers(profile_views(b)),
        chosen_model(change) is Some,
    ensures
        model_problem(chosen_model(change)->0, a) == model_problem(chosen_model(change)->0, b),
        model_problem(chosen_model(change)->0, a) is None ==> needs_login(change, a)
            == needs_login(change, b),
{
    lemma_offers_agree(store, a, b);
    lemma_same_problem(chosen_model(change)->0, a, b);
}

/// After a profile was deleted, every scope keeps its selections, and one that names the profile is
/// reported as naming a missing one.
pub proof fn law_deleted_profile_is_reported_missing(
    store: StoreView,
    before: Seq<ProfileView>,
    profiles: Seq<Profile>,
    selection: ModelSelection,
    scope: ConfigScope,
    defaults: AdapterDefaults,
)
    requires
        (StoreView {
            profiles: Some(without_profile(before, selection.profile@)),
            ..store
        }).offers(profile_views(profiles)),
    ensures
        (StoreView {
            profiles: Some(without_profile(before, selection.profile@)),
            ..store
        }).scope_config(scope, defaults) == store.scope_config(scope, defaults),
        model_problem(selection, profiles) == Some(
            ConfigProblemView::MissingProfile(selection.profile@),
        ),
{
    let name = selection.profile@;
    let left = without_profile(before, name);
    if has_profile(profiles, name) {
        let i = choose|i: int| 0 <= i < profiles.len() && (#[trigger] profiles[i]).id@ == name;
        assert(profile_views(profiles)[i] == profiles[i]@);
        assert(left[i] == profiles[i]@);
        lemma_filter_keeps(before, other_than(name), i);
    }
}

} // verus!

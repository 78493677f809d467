//! What the application promises about its sessions, its configuration and its questions.

use vstd::prelude::*;

use crate::api::{
    AcceptanceCursor, AcceptancePage, AppShutdownReport, CreateSessionRequest, EvidenceCursor,
    EvidencePage, EvidenceRef, EvidenceSourcePage, HistoryCursor, LoginState, ResultArtifact,
    ResultPage, ResultRef, SessionInfo, SessionReleaseReceipt, SessionReleaseStatus,
    SessionRetentionReason, UnresolvedWriteView, WorkspaceInfo, WorkspaceOverview,
};
use crate::app::configuring::{
    deletes_profile, gives_config, gives_resolved, saves_profile, updates_config, ConfigUpdate,
};
use crate::app::live::{
    all_keys, begins_release, ends_release, enters_workspace, looks_up, makes_session,
    makes_session_once, registers, session_of, Lookup, ReleaseStart,
};
use crate::app::login::LoginEvent;
use crate::app::queries::{
    lists_acceptances, lists_evidence, lists_open_writes, lists_results, lists_sessions,
    notes_active, overviews, reads_source, recalls_active, shows_artifact,
};
use crate::app::reload::reloads_sessions;
use crate::app::shutdown::{
    ends_shutdown, finishes_shutdown, in_report_order, requests_shutdown, Shutdown, ShutdownStep,
};
use crate::app::{App, LiveSession};
use crate::config::{
    ConfigChange, ConfigScope, Profile, ProfileId, ProfileView, ResolvedConfig, RuntimeConfig,
    RuntimeOverrides,
};
use crate::document::{law_listings_are_complete, listing, DocumentKey};
use crate::error::Error;
use crate::file_config::{with_profile, without_profile, AdapterDefaults};
use crate::ids::{SessionId, WorkspaceId};
use crate::persistence::keys::{session_key, workspace_key};
use crate::persistence::results::{gives_artifact, pages_evidence, pages_results};
use crate::persistence::{SavedSession, StoreView};
use crate::providers::ProviderConnectError;
use crate::seqs::lemma_filter_keeps;
use crate::title::valid_title;

verus! {

/// A saved profile is what is found under its name afterwards; every other profile stays where it
/// is, as it is.
pub proof fn law_saved_profile_is_what_is_found(
    profiles: Seq<ProfileView>,
    profile: ProfileView,
    i: int,
)
    requires
        0 <= i < profiles.len(),
    ensures
        ({
            let after = with_profile(profiles, profile);
            &&& after.len() >= profiles.len()
            &&& profiles[i].id@ != profile.id@ ==> after[i] == profiles[i]
            &&& exists|n: int| #![trigger after[n]]
                0 <= n < after.len() && after[n] == profile && forall|k: int|
                    0 <= k < n ==> (#[trigger] after[k]).id@ != profile.id@
            &&& after.len() > profiles.len() ==> after.len() == profiles.len() + 1 && (forall|k: int|
                0 <= k < profiles.len() ==> (#[trigger] profiles[k]).id@ != profile.id@)
        }),
    decreases profiles.len(),
{
    let after = with_profile(profiles, profile);
    if profiles[0].id@ == profile.id@ {
        assert(after[0] == profile);
    } else {
        let rest = profiles.skip(1);
        let tail = with_profile(rest, profile);
        assert(after == seq![profiles[0]] + tail);
        if rest.len() == 0 {
            assert(tail == seq![profile]);
            assert(after[1] == profile);
            assert(after[0] == profiles[0]);
        } else {
            let j = if i > 0 { i - 1 } else { 0 };
            law_saved_profile_is_what_is_found(rest, profile, j);
            let n = choose|n: int| #![trigger tail[n]]
                0 <= n < tail.len() && tail[n] == profile && forall|k: int|
                    0 <= k < n ==> (#[trigger] tail[k]).id@ != profile.id@;
            assert(after[n + 1] == profile);
            assert forall|k: int| 0 <= k < n + 1 implies (#[trigger] after[k]).id@ != profile.id@ by {
                if k > 0 {
                    assert(after[k] == tail[k - 1]);
                }
            }
            if i > 0 {
                assert(after[i] == tail[i - 1]);
                assert(rest[i - 1] == profiles[i]);
            }
            if after.len() > profiles.len() {
                assert forall|k: int| 0 <= k < profiles.len() implies (#[trigger] profiles[k]).id@
                    != profile.id@ by {
                    if k > 0 {
                        assert(rest[k - 1] == profiles[k]);
                    }
                }
            }
        }
    }
}

/// Without a profile every other one is still there, in its order, and nothing else is.
pub proof fn law_other_profiles_survive_a_deletion(
    profiles: Seq<ProfileView>,
    name: Seq<char>,
    i: int,
)
    ensures
        ({
            let after = without_profile(profiles, name);
            &&& 0 <= i < profiles.len() && profiles[i].id@ != name ==> after.contains(profiles[i])
            &&& 0 <= i < after.len() ==> after[i].id@ != name && profiles.contains(after[i])
        }),
{
    let keep = crate::file_config::other_than(name);
    let after = without_profile(profiles, name);
    if 0 <= i < profiles.len() && profiles[i].id@ != name {
        profiles.lemma_filter_contains(keep, i);
    }
    if 0 <= i < after.len() {
        lemma_filter_keeps(profiles, keep, i);
    }
}

/// A change of the configuration that is taken is saved in its scope and nowhere else, and what is
/// saved there is the answer. Sessions, inputs and histories are not touched.
pub proof fn law_taken_changes_are_saved_in_their_scope(
    app: App,
    scope: ConfigScope,
    change: ConfigChange,
    defaults: AdapterDefaults,
    subscription_cached: bool,
    next: App,
    r: Result<ConfigUpdate, Error>,
)
    requires
        updates_config(app, scope, change, defaults, subscription_cached, next, r),
    ensures
        ({
            let before = app.store@;
            let after = next.store@;
            &&& next.sessions == app.sessions
            &&& next.closed == app.closed
            &&& r is Err ==> after == before
            &&& app.closed ==> r is Err
            &&& scope matches ConfigScope::Session(id) ==> {
                &&& !before.sessions.dom().contains(session_key(id)) ==> r is Err
                &&& r is Ok ==> {
                    &&& after.session_overrides.dom().contains(session_key(id))
                    &&& r->Ok_0.saved == after.session_overrides[session_key(id)]
                    &&& after.session_overrides == before.session_overrides.insert(
                        session_key(id),
                        r->Ok_0.saved,
                    )
                    &&& after == (StoreView { session_overrides: after.session_overrides, ..before })
                }
            }
            &&& scope matches ConfigScope::Workspace(id) ==> (r is Ok ==> {
                &&& after.workspace_overrides.dom().contains(workspace_key(id))
                &&& r->Ok_0.saved == after.workspace_overrides[workspace_key(id)]
                &&& after.workspace_overrides == before.workspace_overrides.insert(
                    workspace_key(id),
                    r->Ok_0.saved,
                )
                &&& after == (StoreView {
                    workspace_overrides: after.workspace_overrides,
                    ..before
                })
            })
            &&& scope is User && r is Ok ==> after.settings is Some && after == (StoreView {
                settings: after.settings,
                ..before
            })
        }),
{
}

/// Every open session that a taken change reaches, and that is not being released, is told of it,
/// and no other is: all of them by a change for the user, those of the workspace by one for a
/// workspace, and the session itself by its own.
pub proof fn law_reached_sessions_are_told(
    app: App,
    scope: ConfigScope,
    change: ConfigChange,
    defaults: AdapterDefaults,
    subscription_cached: bool,
    next: App,
    r: Result<ConfigUpdate, Error>,
    id: SessionId,
)
    requires
        updates_config(app, scope, change, defaults, subscription_cached, next, r),
        r is Ok,
        app.sessions@.dom().finite(),
        forall|key: DocumentKey| #[trigger]
            app.sessions@.dom().contains(key) ==> key == session_key(SessionId(key.owner)),
    ensures
        ({
            let open = app.sessions@[session_key(id)];
            let reached = app.sessions@.dom().contains(session_key(id)) && !open.releasing
                && match scope {
                ConfigScope::User => true,
                ConfigScope::Workspace(workspace) => open.workspace == workspace,
                ConfigScope::Session(only) => id == only,
            };
            let told = r->Ok_0.forced@.contains(id) || r->Ok_0.ordinary@.contains(id);
            &&& told == reached
            &&& !(change is Model) ==> !r->Ok_0.forced@.contains(id)
            &&& scope == ConfigScope::Session(id) && change is Model && change->Model_0 is Some
                && reached ==> r->Ok_0.forced@.contains(id)
        }),
{
    let keys = listing(app.sessions@.dom(), all_keys());
    law_listings_are_complete(app.sessions@.dom(), all_keys());
    let sets_model = change is Model && crate::app::configuring::chosen_model(change) is Some;
    let forced = crate::app::configuring::is_told(
        app.sessions@,
        next.store@,
        scope,
        sets_model,
        true,
        defaults,
    );
    let ordinary = crate::app::configuring::is_told(
        app.sessions@,
        next.store@,
        scope,
        sets_model,
        false,
        defaults,
    );
    lemma_told(app, keys, forced, id);
    lemma_told(app, keys, ordinary, id);
}

/// A session is among those that are told exactly where it is open and meant.
proof fn lemma_told(
    app: App,
    keys: Seq<DocumentKey>,
    meant: spec_fn(DocumentKey) -> bool,
    id: SessionId,
)
    requires
        forall|key: DocumentKey| #[trigger]
            keys.contains(key) <==> app.sessions@.dom().contains(key) && all_keys().admits(key),
        forall|key: DocumentKey| #[trigger]
            app.sessions@.dom().contains(key) ==> key == session_key(SessionId(key.owner)),
    ensures
        keys.filter(meant).map_values(session_of()).contains(id) <==> app.sessions@.dom().contains(
            session_key(id),
        ) && meant(session_key(id)),
{
    let kept = keys.filter(meant);
    let told = kept.map_values(session_of());
    let key = session_key(id);
    if told.contains(id) {
        let n = choose|n: int| 0 <= n < told.len() && told[n] == id;
        lemma_filter_keeps(keys, meant, n);
        assert(keys.contains(kept[n]));
        assert(app.sessions@.dom().contains(kept[n]));
        assert(session_of()(kept[n]) == id);
        assert(kept[n] == key);
    }
    if app.sessions@.dom().contains(key) && meant(key) {
        assert(all_keys().admits(key));
        assert(keys.contains(key));
        let k = choose|k: int| 0 <= k < keys.len() && keys[k] == key;
        keys.lemma_filter_contains(meant, k);
        let n = choose|n: int| 0 <= n < kept.len() && kept[n] == key;
        assert(told[n] == id);
    }
}

/// The sessions that are active are all that are open and not being released, in a workspace where
/// one is given.
pub proof fn law_active_sessions_are_all_open_ones(
    app: App,
    workspace: Option<WorkspaceId>,
    id: SessionId,
)
    requires
        app.sessions@.dom().finite(),
        forall|key: DocumentKey| #[trigger]
            app.sessions@.dom().contains(key) ==> key == session_key(SessionId(key.owner)),
    ensures
        ({
            let open = app.sessions@[session_key(id)];
            app.active(workspace).contains(id) <==> app.sessions@.dom().contains(session_key(id))
                && !open.releasing && (workspace is None || workspace == Some(open.workspace))
        }),
{
    let keys = listing(app.sessions@.dom(), all_keys());
    law_listings_are_complete(app.sessions@.dom(), all_keys());
    lemma_told(app, keys, crate::app::live::is_active(app.sessions@, workspace), id);
}

/// What is configured in a scope is given as it is stored, and nothing for a scope that is not
/// there.
pub proof fn law_configuration_is_given_as_stored(
    app: App,
    scope: ConfigScope,
    defaults: AdapterDefaults,
    r: Result<RuntimeOverrides, Error>,
)
    requires
        gives_config(app, scope, defaults, r),
        !app.closed,
    ensures
        scope matches ConfigScope::Session(id) ==> {
            let key = session_key(id);
            &&& !app.store@.sessions.dom().contains(key) ==> r == Err::<RuntimeOverrides, Error>(
                Error::SessionNotFound,
            )
            &&& app.store@.sessions.dom().contains(key) && app.store@.session_overrides.dom().contains(
                key,
            ) ==> r == Ok::<RuntimeOverrides, Error>(app.store@.session_overrides[key])
        },
        scope matches ConfigScope::Workspace(id) ==> {
            let key = workspace_key(id);
            let there = exists|i: int|
                0 <= i < app.store@.workspaces.len() && (#[trigger] app.store@.workspaces[i]).id
                    == id;
            &&& !there ==> r == Err::<RuntimeOverrides, Error>(Error::WorkspaceNotFound)
            &&& r is Ok && app.store@.workspace_overrides.dom().contains(key) ==> r == Ok::<
                RuntimeOverrides,
                Error,
            >(app.store@.workspace_overrides[key])
        },
        scope is User && app.store@.settings is Some ==> {
            let kept = app.store@.settings->0;
            &&& r matches Ok(given)
            &&& given.limits == Some(kept.limits)
            &&& given.tools == Some(kept.tools)
            &&& given.worker == kept.worker
            &&& given.coordinator == kept.coordinator
        },
{
}

/// The resolved configuration of a session shows what runs beside what is wanted.
pub proof fn law_resolved_shows_what_runs(
    app: App,
    session: SessionId,
    running: Option<RuntimeConfig>,
    defaults: AdapterDefaults,
    r: Result<ResolvedConfig, Error>,
)
    requires
        gives_resolved(app, session, running, defaults, r),
    ensures
        r matches Ok(resolved) ==> resolved.running == running,
        app.closed ==> r == Err::<ResolvedConfig, Error>(Error::Closed),
        !app.closed && !app.store@.sessions.dom().contains(session_key(session)) ==> r == Err::<
            ResolvedConfig,
            Error,
        >(Error::SessionNotFound),
{
}

/// A valid profile that is saved is offered afterwards and every active session is told; an invalid
/// one is refused. The sessions stay open as they are.
pub proof fn law_saved_profiles_are_offered(
    app: App,
    profile: Profile,
    next: App,
    r: Result<Vec<SessionId>, Error>,
)
    requires
        saves_profile(app, profile, next, r),
    ensures
        next.sessions == app.sessions && next.closed == app.closed,
        r is Err ==> next.store@ == app.store@,
        profile.problem() is Some || app.closed ==> r is Err,
        profile.problem() is None && !app.closed ==> {
            &&& r matches Ok(told)
            &&& told@ == app.active(None)
            &&& next.store@.profiles matches Some(offered)
            &&& offered.contains(profile@)
            &&& next.store@ == (StoreView { profiles: next.store@.profiles, ..app.store@ })
        },
{
    if profile.problem() is None && !app.closed {
        let before = choose|before: Seq<ProfileView>|
            app.store@.offers(before) && next.store@ == (StoreView {
                profiles: Some(#[trigger] with_profile(before, profile@)),
                ..app.store@
            });
        let offered = with_profile(before, profile@);
        if before.len() == 0 {
            assert(offered[0] == profile@);
        } else {
            law_saved_profile_is_what_is_found(before, profile@, 0);
            let n = choose|n: int| #![trigger offered[n]]
                0 <= n < offered.len() && offered[n] == profile@ && forall|k: int|
                    0 <= k < n ==> (#[trigger] offered[k]).id@ != profile@.id@;
            assert(offered[n] == profile@);
        }
        assert(offered.contains(profile@));
        assert(next.store@.profiles == Some(offered));
    }
}

/// A profile that is deleted, once its credentials are removed, is no longer offered, and every
/// active session is told. Where the credentials could not be removed, or no profile has the name,
/// nothing changes.
pub proof fn law_deleted_profiles_are_not_offered(
    app: App,
    id: ProfileId,
    removed: Result<(), ProviderConnectError>,
    next: App,
    r: Result<Option<Vec<SessionId>>, Error>,
)
    requires
        deletes_profile(app, id, removed, next, r),
    ensures
        next.sessions == app.sessions && next.closed == app.closed,
        app.closed ==> r is Err && next.store@ == app.store@,
        !app.closed ==> (r matches Ok(Some(told)) ==> {
            &&& removed is Ok
            &&& told@ == app.active(None)
            &&& next.store@.profiles matches Some(offered)
            &&& forall|i: int| 0 <= i < offered.len() ==> (#[trigger] offered[i]).id@ != id@
            &&& next.store@ == (StoreView { profiles: next.store@.profiles, ..app.store@ })
        }),
        !(r matches Ok(Some(_))) ==> next.store@ == app.store@,
        !app.closed && app.store@.profiles is Some && removed is Ok && (exists|i: int|
            0 <= i < app.store@.profiles->0.len() && (#[trigger] app.store@.profiles->0[i]).id@
                == id@) ==> (r matches Ok(Some(_))),
{
    if !app.closed && (r matches Ok(Some(_))) {
        let before = choose|before: Seq<ProfileView>|
            {
                &&& app.store@.offers(before)
                &&& exists|i: int| crate::app::configuring::named_at(before, id@, i)
            } && next.store@ == (StoreView {
                profiles: Some(#[trigger] without_profile(before, id@)),
                ..app.store@
            });
        let offered = without_profile(before, id@);
        assert forall|i: int| 0 <= i < offered.len() implies (#[trigger] offered[i]).id@ != id@ by {
            law_other_profiles_survive_a_deletion(before, id@, i);
        }
    }
}

/// A workspace is opened only where its root is a directory, and then has that root.
pub proof fn law_workspaces_are_directories(
    app: App,
    id: WorkspaceId,
    root: crate::path::FilePath,
    is_dir: bool,
    next: App,
    r: Result<WorkspaceInfo, Error>,
)
    requires
        enters_workspace(app, id, root, is_dir, next, r),
    ensures
        (r is Ok) == (is_dir && !app.closed),
        r is Err ==> next.store@ == app.store@,
        r matches Ok(opened) ==> {
            &&& opened.root@ == root@
            &&& exists|i: int|
                0 <= i < next.store@.workspaces.len() && (#[trigger] next.store@.workspaces[i]).root
                    == root@ && next.store@.workspaces[i].id == opened.id
            &&& next.store@ == (StoreView { workspaces: next.store@.workspaces, ..app.store@ })
        },
        next.sessions == app.sessions && next.closed == app.closed,
{
    if r is Ok {
        let all = next.store@.workspaces;
        if crate::persistence::sessions::has_root(app.store@.workspaces, root@) {
            let i = choose|i: int| #[trigger]
                crate::persistence::sessions::rooted_at(app.store@.workspaces, root@, i) && r->Ok_0.id
                    == app.store@.workspaces[i].id;
            assert(all[i].root == root@);
        } else {
            assert(all[all.len() - 1].root == root@);
        }
    }
}

/// A session is made in a workspace that is there, with a valid title, and then has both.
pub proof fn law_made_sessions_have_their_title(
    app: App,
    id: SessionId,
    workspace: WorkspaceId,
    title: String,
    next: App,
    r: Result<SavedSession, Error>,
)
    requires
        makes_session(app, id, workspace, title, next, r),
    ensures
        ({
            let key = session_key(id);
            let there = exists|i: int|
                0 <= i < app.store@.workspaces.len() && (#[trigger] app.store@.workspaces[i]).id
                    == workspace;
            &&& !valid_title(title@) || app.closed || !there ==> r is Err
            &&& r is Err ==> next.store@ == app.store@
            &&& r is Ok ==> {
                &&& !app.store@.sessions.dom().contains(key)
                &&& r->Ok_0@ == next.store@.sessions[key]
                &&& next.store@.sessions.dom().contains(key)
                &&& next.store@.sessions[key].info == (SessionInfo {
                    id,
                    workspace,
                    title,
                    archived: false,
                })
                &&& next.store@.sessions[key].next_input == 1
                &&& next.store@.sessions[key].draft@.len() == 0
            }
            &&& next.sessions == app.sessions && next.closed == app.closed
        }),
{
}

/// A request for a session is answered with the session that was made for it first, and with a
/// conflict where its title or workspace differ from the first time.
pub proof fn law_session_requests_conflict(
    app: App,
    id: SessionId,
    request: CreateSessionRequest,
    next: App,
    r: Result<SavedSession, Error>,
)
    requires
        makes_session_once(app, id, request, next, r),
        valid_title(request.title@),
        !app.closed,
        exists|i: int|
            crate::persistence::sessions::identified_at(
                app.store@.workspaces,
                request.workspace,
                i,
            ),
    ensures
        ({
            let used = crate::persistence::keys::creation_key(request.request_id);
            let first = app.store@.creations[used];
            let same = first.workspace == request.workspace && first.title@ == request.title@;
            &&& app.store@.creations.dom().contains(used) ==> next.store@ == app.store@
            &&& app.store@.creations.dom().contains(used) && !same ==> r == Err::<
                SavedSession,
                Error,
            >(Error::RequestConflict)
            &&& app.store@.creations.dom().contains(used) && same
                && app.store@.sessions.dom().contains(session_key(first.session)) ==> (
            r matches Ok(saved) && saved@ == app.store@.sessions[session_key(first.session)])
            &&& !app.store@.creations.dom().contains(used) && r is Ok ==> {
                &&& r->Ok_0.info.id == id
                &&& r->Ok_0.info.title == request.title
                &&& r->Ok_0.info.workspace == request.workspace
                &&& next.store@.creations.dom().contains(used)
                &&& next.store@.creations[used].session == id
            }
        }),
{
}

/// A session that is open is found open, one that is stored and not open is to be opened as it is
/// stored, one that is being released is busy, and any other is not found. An entry of a session
/// that has ended is dropped.
pub proof fn law_sessions_are_looked_up(
    app: App,
    id: SessionId,
    ended: bool,
    next: App,
    r: Result<Lookup, Error>,
)
    requires
        looks_up(app, id, ended, next, r),
        !app.closed,
    ensures
        ({
            let key = session_key(id);
            let open = app.sessions@.dom().contains(key);
            let releasing = open && app.sessions@[key].releasing;
            &&& next.store@ == app.store@
            &&& releasing ==> r == Err::<Lookup, Error>(Error::SessionBusy(id)) && next.sessions@
                == app.sessions@
            &&& open && !releasing && !ended ==> r == Ok::<Lookup, Error>(Lookup::Open)
                && next.sessions@ == app.sessions@
            &&& !releasing && (!open || ended) ==> {
                &&& !next.sessions@.dom().contains(key)
                &&& app.store@.sessions.dom().contains(key) ==> (r matches Ok(Lookup::Saved(saved))
                    && saved@ == app.store@.sessions[key])
                &&& !app.store@.sessions.dom().contains(key) ==> r == Err::<Lookup, Error>(
                    Error::SessionNotFound,
                )
            }
        }),
{
}

/// A session is registered once: then it is open in its workspace. Where it is open already nothing
/// changes, and one that is being released is busy.
pub proof fn law_sessions_are_registered_once(
    app: App,
    id: SessionId,
    workspace: WorkspaceId,
    next: App,
    r: Result<bool, Error>,
)
    requires
        registers(app, id, workspace, next, r),
    ensures
        ({
            let key = session_key(id);
            let open = app.sessions@.dom().contains(key);
            &&& next.store@ == app.store@ && next.closed == app.closed
            &&& !open ==> r == Ok::<bool, Error>(true) && next.sessions@ == app.sessions@.insert(
                key,
                LiveSession { workspace, releasing: false },
            )
            &&& open ==> next.sessions@ == app.sessions@
            &&& open && app.sessions@[key].releasing ==> r == Err::<bool, Error>(
                Error::SessionBusy(id),
            )
            &&& open && !app.sessions@[key].releasing ==> r == Ok::<bool, Error>(false)
        }),
{
}

/// A release of an open session is asked for once, while others are told that one is under way; a
/// session that is not open, or has ended, is answered at once. A released session is closed, and
/// one that is kept is open again. The answer is the session's.
pub proof fn law_releases_come_to_an_end(
    app: App,
    id: SessionId,
    ended: bool,
    begun: App,
    start: Result<ReleaseStart, Error>,
    result: Result<SessionReleaseStatus, Error>,
    next: App,
    r: Result<SessionReleaseReceipt, Error>,
)
    requires
        begins_release(app, id, ended, begun, start),
        ends_release(begun, id, result, next, r),
        !app.closed,
    ensures
        ({
            let key = session_key(id);
            let open = app.sessions@.dom().contains(key);
            let asked = open && !app.sessions@[key].releasing && !ended;
            &&& begun.store@ == app.store@ && next.store@ == app.store@
            &&& start == Ok::<ReleaseStart, Error>(ReleaseStart::Ask) <==> asked
            &&& asked ==> begun.sessions@ == app.sessions@.insert(
                key,
                LiveSession { releasing: true, ..app.sessions@[key] },
            )
            &&& !open || (open && !app.sessions@[key].releasing && ended) ==> start == Ok::<
                ReleaseStart,
                Error,
            >(
                ReleaseStart::Answer(
                    SessionReleaseReceipt { session: id, status: SessionReleaseStatus::NotOpen },
                ),
            ) && !begun.sessions@.dom().contains(key)
            &&& open && app.sessions@[key].releasing ==> start == Ok::<ReleaseStart, Error>(
                ReleaseStart::Answer(
                    SessionReleaseReceipt {
                        session: id,
                        status: SessionReleaseStatus::Retained(
                            SessionRetentionReason::ReleaseInProgress,
                        ),
                    },
                ),
            ) && begun.sessions@ == app.sessions@
            &&& result == Ok::<SessionReleaseStatus, Error>(SessionReleaseStatus::Released)
                ==> !next.sessions@.dom().contains(key)
            &&& asked && result != Ok::<SessionReleaseStatus, Error>(SessionReleaseStatus::Released)
                ==> next.sessions@[key] == app.sessions@[key] && next.sessions@.dom()
                == app.sessions@.dom()
            &&& result matches Ok(status) ==> r == Ok::<SessionReleaseReceipt, Error>(
                SessionReleaseReceipt { session: id, status },
            )
            &&& result matches Err(error) ==> r == Err::<SessionReleaseReceipt, Error>(error)
        }),
{
    let key = session_key(id);
    let open = app.sessions@.dom().contains(key);
    if open && !app.sessions@[key].releasing && !ended && result != Ok::<
        SessionReleaseStatus,
        Error,
    >(SessionReleaseStatus::Released) {
        assert(next.sessions@.dom() =~= app.sessions@.dom());
    }
}

/// Asking the application for results is asking its store, for a session that is there, with that
/// session's cursor, and for at most 32 at once.
pub proof fn law_results_are_asked_of_the_store(
    app: App,
    session: SessionId,
    cursor: Option<HistoryCursor>,
    limit: usize,
    next: App,
    r: Result<ResultPage, Error>,
)
    requires
        lists_results(app, session, cursor, limit, next, r),
    ensures
        next.sessions == app.sessions && next.closed == app.closed,
        app.closed ==> r == Err::<ResultPage, Error>(Error::Closed),
        !app.closed && cursor is Some && cursor->0.session != session ==> r is Err && next.store@
            == app.store@,
        !app.closed && !(cursor is Some && cursor->0.session != session)
            && !app.store@.sessions.dom().contains(session_key(session)) ==> r == Err::<
            ResultPage,
            Error,
        >(Error::SessionNotFound),
        r matches Ok(page) ==> pages_results(
            app.store@,
            session,
            cursor,
            if limit < 1 { 1 } else if limit > 32 { 32 } else { limit },
            next.store@,
            Ok(page),
        ),
{
}

/// Asking the application for an artifact or for the sources of a result is asking its store, with
/// that result's cursor and for at most 32 at once. A result that is not there is an error.
pub proof fn law_sources_are_asked_of_the_store(
    app: App,
    result: ResultRef,
    cursor: Option<EvidenceCursor>,
    limit: usize,
    next: App,
    r: Result<EvidencePage, Error>,
    artifact: Result<ResultArtifact, Error>,
)
    requires
        lists_evidence(app, result, cursor, limit, next, r),
        shows_artifact(app, result, artifact),
    ensures
        next.sessions == app.sessions && next.closed == app.closed,
        app.closed ==> r == Err::<EvidencePage, Error>(Error::Closed) && artifact == Err::<
            ResultArtifact,
            Error,
        >(Error::Closed),
        !app.closed && cursor is Some && cursor->0.result != result ==> r is Err && next.store@
            == app.store@,
        r matches Ok(page) ==> pages_evidence(
            app.store@,
            result,
            cursor,
            if limit < 1 { 1 } else if limit > 32 { 32 } else { limit },
            next.store@,
            Ok(Some(page)),
        ),
        artifact matches Ok(found) ==> gives_artifact(app.store@, result, Ok(Some(found))),
        !app.closed && (app.store@.find_result(result) matches Ok(None)) ==> artifact is Err,
        !app.closed && (app.store@.find_result(result) matches Ok(Some(_))) ==> artifact is Ok,
{
}

/// A source is read only where the result cites it, in the same session; then the page says which
/// source it is of and what is known of it.
pub proof fn law_only_cited_sources_are_read(
    app: App,
    result: ResultRef,
    source: EvidenceRef,
    offset: u64,
    max_bytes: usize,
    next: App,
    r: Result<EvidenceSourcePage, Error>,
)
    requires
        reads_source(app, result, source, offset, max_bytes, next, r),
    ensures
        next.sessions == app.sessions && next.closed == app.closed,
        app.closed || source.session != result.session ==> r is Err && next.store@ == app.store@,
        r matches Ok(page) ==> {
            let collected = app.store@.both_backfills(result.session).0;
            &&& collected.find_result(result) matches Ok(Some(found))
            &&& found.evidence.contains(source)
            &&& page.source == source
            &&& page.availability@ == next.store@.availability(source)
            &&& page.availability@ is Available ==> page.text is Some && page.offset == offset
            &&& !(page.availability@ is Available) ==> page.text is None && page.next_offset is None
        },
{
}

/// The decisions on a result, and the open writes and sessions of a workspace, are what the store
/// holds; an application that is closed, or a workspace or result that is not there, gives none.
pub proof fn law_lists_are_what_the_store_holds(
    app: App,
    workspace: WorkspaceId,
    writes: Result<Vec<UnresolvedWriteView>, Error>,
    sessions: Result<Vec<SessionInfo>, Error>,
    active: Result<Option<SessionId>, Error>,
    result: ResultRef,
    cursor: Option<AcceptanceCursor>,
    limit: usize,
    decisions: Result<AcceptancePage, Error>,
)
    requires
        lists_open_writes(app, workspace, writes),
        lists_sessions(app, workspace, sessions),
        recalls_active(app, workspace, active),
        lists_acceptances(app, result, cursor, limit, decisions),
    ensures
        ({
            let there = exists|i: int|
                0 <= i < app.store@.workspaces.len() && (#[trigger] app.store@.workspaces[i]).id
                    == workspace;
            let listed = app.store@.listed_sessions(workspace);
            let key = workspace_key(workspace);
            &&& app.closed ==> writes is Err && sessions is Err && active is Err && decisions is Err
            &&& !there ==> writes is Err && sessions is Err && active is Err
            &&& writes matches Ok(open) ==> open@ == app.store@.unresolved(workspace, None)
            &&& sessions matches Ok(infos) ==> infos@.len() == listed.len() && forall|i: int|
                0 <= i < listed.len() ==> #[trigger] infos@[i] == app.store@.sessions[listed[i]].info
            &&& active matches Ok(Some(id)) ==> app.store@.last_active.dom().contains(key)
                && app.store@.last_active[key] == id
            &&& active matches Ok(None) ==> !app.store@.last_active.dom().contains(key)
            &&& cursor is Some && cursor->0.result != result ==> decisions is Err
            &&& decisions matches Ok(page) ==> app.store@.acceptance_page(
                result,
                cursor,
                if limit < 1 { 1 } else if limit > 32 { 32 } else { limit },
            ) == Ok::<_, crate::error::StoreError>((page.items@, page.older_cursor))
        }),
{
}

/// Only a session of the workspace can be noted as its active one, and then it is.
pub proof fn law_active_sessions_are_noted(
    app: App,
    workspace: WorkspaceId,
    session: SessionId,
    next: App,
    r: Result<(), Error>,
)
    requires
        notes_active(app, workspace, session, next, r),
    ensures
        ({
            let key = workspace_key(workspace);
            &&& r is Err ==> next.store@ == app.store@
            &&& r is Ok ==> {
                &&& app.store@.sessions.dom().contains(session_key(session))
                &&& app.store@.sessions[session_key(session)].info.workspace == workspace
                &&& next.store@.last_active == app.store@.last_active.insert(key, session)
                &&& next.store@ == (StoreView {
                    last_active: next.store@.last_active,
                    ..app.store@
                })
            }
            &&& app.closed ==> r == Err::<(), Error>(Error::Closed)
            &&& next.sessions == app.sessions && next.closed == app.closed
        }),
{
}

/// An overview is of the workspace that was asked for and shows what its store shows of it.
pub proof fn law_overviews_are_asked_of_the_store(
    app: App,
    workspace: WorkspaceId,
    next: App,
    r: Result<WorkspaceOverview, Error>,
)
    requires
        overviews(app, workspace, next, r),
    ensures
        next.sessions == app.sessions && next.closed == app.closed,
        app.closed ==> r == Err::<WorkspaceOverview, Error>(Error::Closed) && next.store@
            == app.store@,
        r matches Ok(overview) ==> overview.workspace.id == workspace
            && crate::persistence::overview::shows_overview(
            app.store@,
            overview.workspace,
            next.store@,
            Ok(overview),
        ),
{
}

/// The application is shut down once: the first request starts it, others wait for it, and once it
/// is complete its report is given again. What failed can be tried again. From the first request on
/// the application is closed.
pub proof fn law_the_application_ends_once(
    shutdown: Shutdown,
    app: App,
    done: Shutdown,
    next: App,
    r: ShutdownStep,
    result: Result<AppShutdownReport, Error>,
    last: Shutdown,
    answer: Result<AppShutdownReport, Error>,
)
    requires
        requests_shutdown(shutdown, app, done, next, r),
        ends_shutdown(result, last, answer),
    ensures
        next.store@ == app.store@,
        next.sessions@ == app.sessions@,
        shutdown is Idle ==> r is Start && done is Running && next.closed,
        shutdown is Running ==> r is Wait && done is Running,
        shutdown matches Shutdown::Complete(report) ==> (r matches ShutdownStep::Report(shown)
            && shown.unresolved_writes@ == report.unresolved_writes@ && done == shutdown),
        result matches Ok(report) ==> last == Shutdown::Complete(report) && (answer matches Ok(shown)
            && shown.unresolved_writes@ == report.unresolved_writes@),
        result matches Err(error) ==> last is Idle && answer == Err::<AppShutdownReport, Error>(
            error,
        ),
{
}

/// The application ends only where every session ended; then none is open any more, and the report
/// names every write of every workspace that is still open. Else the first failure is reported and
/// the sessions stay.
pub proof fn law_the_end_reports_every_open_write(
    app: App,
    answers: Seq<Result<(), Error>>,
    next: App,
    r: Result<AppShutdownReport, Error>,
    place: int,
    write: UnresolvedWriteView,
)
    requires
        finishes_shutdown(app, answers, next, r),
        0 <= place < app.store@.workspaces.len(),
        app.store@.unresolved(app.store@.workspaces[place].id, None).contains(write),
    ensures
        next.store@ == app.store@,
        (r is Ok) <==> (forall|i: int| 0 <= i < answers.len() ==> (#[trigger] answers[i]) is Ok),
        r matches Ok(report) ==> next.sessions@.dom().is_empty() && report.unresolved_writes@.contains(
            write,
        ),
        r matches Err(error) ==> next.sessions@ == app.sessions@ && exists|i: int|
            0 <= i < answers.len() && #[trigger] answers[i] == Err::<(), Error>(error),
{
    if r is Ok {
        let all = crate::app::shutdown::unsettled_from(
            app.store@,
            app.store@.workspaces.len() as int,
        );
        lemma_unsettled_from(app.store@, app.store@.workspaces.len() as int, place, write);
        broadcast use vstd::seq_lib::group_to_multiset_ensures;

        assert(all.to_multiset().count(write) > 0);
        assert(r->Ok_0.unresolved_writes@.to_multiset().count(write) > 0);
    } else {
        let at = choose|at: int| #[trigger]
            crate::app::shutdown::first_failure(answers, at) && answers[at]->Err_0 == r->Err_0;
        assert(answers[at] == Err::<(), Error>(r->Err_0));
        assert(!(answers[at] is Ok));
    }
}

proof fn lemma_unsettled_from(store: StoreView, count: int, place: int, write: UnresolvedWriteView)
    requires
        0 <= place < count <= store.workspaces.len(),
        store.unresolved(store.workspaces[place].id, None).contains(write),
    ensures
        crate::app::shutdown::unsettled_from(store, count).contains(write),
    decreases count,
{
    let head = crate::app::shutdown::unsettled_from(store, count - 1);
    let last = store.unresolved(store.workspaces[count - 1].id, None);
    let all = crate::app::shutdown::unsettled_from(store, count);
    assert(all == head + last);
    if place < count - 1 {
        lemma_unsettled_from(store, count - 1, place, write);
        let i = choose|i: int| 0 <= i < head.len() && head[i] == write;
        assert(all[i] == write);
    } else {
        let i = choose|i: int| 0 <= i < last.len() && last[i] == write;
        assert(all[head.len() + i] == write);
    }
}

/// Every open session whose configuration can be resolved with the profile is to reload a new key
/// of it, and no other.
pub proof fn law_sessions_with_the_profile_reload(
    app: App,
    profile: ProfileId,
    defaults: AdapterDefaults,
    r: Result<Vec<SessionId>, Error>,
    id: SessionId,
)
    requires
        reloads_sessions(app, profile, defaults, r),
        app.sessions@.dom().finite(),
        forall|key: DocumentKey| #[trigger]
            app.sessions@.dom().contains(key) ==> key == session_key(SessionId(key.owner)),
    ensures
        (r is Err) == app.closed,
        r matches Ok(told) ==> (told@.contains(id) <==> app.sessions@.dom().contains(
            session_key(id),
        ) && !app.sessions@[session_key(id)].releasing && app.store@.takes(
            id,
            profile@,
            defaults,
        )),
{
    let keys = listing(app.sessions@.dom(), all_keys());
    law_listings_are_complete(app.sessions@.dom(), all_keys());
    lemma_told(
        app,
        keys,
        crate::app::reload::reloads(app.sessions@, app.store@, profile@, defaults),
        id,
    );
}

/// A session takes a new key exactly where its worker or its coordinator is of the profile: its own
/// choice where it has one, else the workspace's, else the user's.
pub proof fn law_sessions_take_keys_of_their_models(
    store: StoreView,
    session: SessionId,
    name: Seq<char>,
    defaults: AdapterDefaults,
)
    requires
        store.configured(session, defaults),
        store.session_overrides.dom().contains(session_key(session)),
        store.session_overrides[session_key(session)].worker is Some,
        store.session_overrides[session_key(session)].coordinator is Some,
    ensures
        ({
            let own = store.session_overrides[session_key(session)];
            store.takes(session, name, defaults) <==> own.worker->0.profile@ == name
                || own.coordinator->0.profile@ == name
        }),
{
}

/// A login shows the code of the last prompt until it ends, ends as it is answered or given up, and
/// stays ended.
pub proof fn law_logins_follow_their_events(state: LoginState, event: LoginEvent)
    ensures
        ({
            let after = state.after(event);
            let ended = state is Succeeded || state is Failed || state is Cancelled;
            &&& ended ==> after == state
            &&& !ended ==> {
                &&& event matches LoginEvent::Prompt { verification_uri, user_code } ==> after
                    == (LoginState::DeviceCode { verification_uri, user_code })
                &&& event matches LoginEvent::Answered(Ok(_)) ==> after is Succeeded
                &&& event matches LoginEvent::Answered(Err(message)) ==> after
                    == (LoginState::Failed { message })
                &&& event is GivenUp ==> after is Cancelled
            }
        }),
{
}

/// The open writes of a report stand in the order of their workspaces, those of a workspace in the
/// order of its sessions, and those of a session in the order of their runtimes and calls.
pub proof fn law_reports_are_in_order(writes: Seq<UnresolvedWriteView>, i: int, j: int)
    requires
        in_report_order(writes),
        0 <= i < j < writes.len(),
    ensures
        writes[i].workspace.0 <= writes[j].workspace.0,
        writes[i].workspace == writes[j].workspace ==> writes[i].session.0 <= writes[j].session.0,
        writes[i].workspace == writes[j].workspace && writes[i].session == writes[j].session ==> {
            &&& writes[i].call.runtime.0 <= writes[j].call.runtime.0
            &&& writes[i].call.runtime == writes[j].call.runtime ==> writes[i].call.id
                <= writes[j].call.id
        },
{
    assert(!crate::app::shutdown::listed_before(writes[j], writes[i]));
}

} // verus!

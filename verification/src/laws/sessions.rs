//! What becomes of workspaces and sessions in the durable data.

use vstd::prelude::*;

use crate::api::{
    CreateSessionRequest, InputId, InputState, InputView, SessionEventView, SessionInfo, SessionSeq,
    WorkspaceInfo,
};
use crate::config::RuntimeConfig;
use crate::document::{law_listings_are_complete, listing, DocumentKey, KeyRange};
use crate::error::StoreError;
use crate::ids::{RuntimeId, SessionId, WorkspaceId};
use crate::laws::inputs::law_every_input_is_listed;
use crate::persistence::creation::{recalls_session, remembers_session, retitles_provisional};
use crate::persistence::inputs::all_to;
use crate::persistence::keys::{creation_key, input_key, session_key};
use crate::persistence::laws::{law_recovery_interrupts_what_was_under_way, lemma_sorting_keeps};
use crate::persistence::recovery::{
    lemma_changes_keep_numbers, lemma_reconcile_keeps_inputs, lemma_reconcile_keeps_session,
    recovers_session,
};
use crate::persistence::sessions::{
    creates_session, finds_workspace, keeps_draft, names_workspace, notes_close,
    notes_reconfiguration, notes_start, retitles, shelves,
};
use crate::persistence::{
    SavedRuntime, SavedSession, SavedSessionView, StoreView, StoredEntryView, StoredEventView,
};
use crate::seqs::{lemma_filter_keeps, lemma_sorted_by, lemma_sorted_was_there};

verus! {

/// A root has one workspace: where there is one for the root, it is returned and nothing changes;
/// else the catalogue gets one more at its end, under the given identity.
pub proof fn law_a_root_has_one_workspace(
    before: StoreView,
    id: WorkspaceId,
    root: Seq<u8>,
    after: StoreView,
    r: WorkspaceInfo,
)
    requires
        finds_workspace(before, id, root, after, r),
    ensures
        r.root@ == root,
        exists|i: int|
            0 <= i < after.workspaces.len() && (#[trigger] after.workspaces[i]).root == root
                && after.workspaces[i].id == r.id,
        (exists|i: int| 0 <= i < before.workspaces.len() && (#[trigger] before.workspaces[i]).root
            == root) ==> after == before,
        (forall|i: int| 0 <= i < before.workspaces.len() ==> (#[trigger] before.workspaces[i]).root
            != root) ==> {
            &&& r.id == id
            &&& after.workspaces.len() == before.workspaces.len() + 1
            &&& after.workspaces.drop_last() == before.workspaces
            &&& after.workspaces.last().id == id
            &&& after == (StoreView { workspaces: after.workspaces, ..before })
        },
{
    if exists|i: int| 0 <= i < before.workspaces.len() && (#[trigger] before.workspaces[i]).root
        == root {
        let i = choose|i: int|
            0 <= i < before.workspaces.len() && (#[trigger] before.workspaces[i]).root == root;
        lemma_first_root(before, root, i);
    } else {
        assert(after.workspaces.drop_last() =~= before.workspaces);
        assert(after.workspaces[after.workspaces.len() - 1].root == root);
    }
}

/// Where some workspace has the root, there is a first one.
proof fn lemma_first_root(store: StoreView, root: Seq<u8>, i: int)
    requires
        0 <= i < store.workspaces.len(),
        store.workspaces[i].root == root,
    ensures
        crate::persistence::sessions::has_root(store.workspaces, root),
    decreases i,
{
    if exists|j: int| 0 <= j < i && (#[trigger] store.workspaces[j]).root == root {
        let j = choose|j: int| 0 <= j < i && (#[trigger] store.workspaces[j]).root == root;
        lemma_first_root(store, root, j);
    } else {
        assert(crate::persistence::sessions::rooted_at(store.workspaces, root, i));
    }
}

/// A workspace of the catalogue is found by its identity, and no other is.
pub proof fn law_workspaces_are_found(
    store: StoreView,
    id: WorkspaceId,
    r: Option<WorkspaceInfo>,
    i: int,
)
    requires
        names_workspace(store, id, r),
        0 <= i < store.workspaces.len(),
        store.workspaces[i].id == id,
    ensures
        r matches Some(found) && found.id == id && exists|k: int|
            0 <= k <= i && (#[trigger] store.workspaces[k]).id == id && store.workspaces[k].root
                == found.root@,
{
    let k = choose|k: int| #[trigger]
        crate::persistence::sessions::identified_at(store.workspaces, id, k) && r->0.root@
            == store.workspaces[k].root;
    assert(store.workspaces[k].id == id);
}

/// A new session has its title and workspace, is not put away, numbers its inputs from one, has no
/// runtime, no draft and nothing taken over. It is made only where nothing is stored under its
/// identity, and changes no other session.
pub proof fn law_new_sessions_start_empty(
    before: StoreView,
    id: SessionId,
    workspace: WorkspaceId,
    title: String,
    after: StoreView,
    r: Result<SavedSession, StoreError>,
)
    requires
        creates_session(before, id, workspace, title, after, r),
    ensures
        ({
            let key = session_key(id);
            let free = !before.sessions.dom().contains(key)
                && !before.result_projections.dom().contains(key)
                && !before.evidence_projections.dom().contains(key);
            &&& (r is Ok) == free
            &&& !free ==> after == before
            &&& free ==> {
                &&& after.sessions.dom() == before.sessions.dom().insert(key)
                &&& r->Ok_0@ == after.sessions[key]
                &&& after.sessions[key].info.id == id
                &&& after.sessions[key].info.workspace == workspace
                &&& after.sessions[key].info.title == title
                &&& !after.sessions[key].info.archived
                &&& after.sessions[key].next_input == 1
                &&& after.sessions[key].runtime is None
                &&& after.sessions[key].agent_through == 0
                &&& after.sessions[key].core_through == 0
                &&& after.sessions[key].draft@.len() == 0
                &&& forall|other: DocumentKey| other != key && before.sessions.dom().contains(other)
                    ==> #[trigger] after.sessions[other] == before.sessions[other]
                &&& after.result_projections.dom().contains(key)
                &&& after.result_projections[key].complete
                &&& after.evidence_projections.dom().contains(key)
                &&& after.evidence_projections[key].complete
                &&& after == (StoreView {
                    sessions: after.sessions,
                    result_projections: after.result_projections,
                    evidence_projections: after.evidence_projections,
                    ..before
                })
            }
        }),
{
    assert(r is Ok ==> after.sessions.dom() =~= before.sessions.dom().insert(session_key(id)));
}

/// A session that the user gave a title has that title, and it is final. Nothing else of the
/// session changes, nor any other one.
pub proof fn law_given_titles_are_kept(
    before: StoreView,
    id: SessionId,
    title: String,
    after: StoreView,
    r: Result<SessionInfo, StoreError>,
)
    requires
        retitles(before, id, title, after, r),
    ensures
        ({
            let key = session_key(id);
            let there = before.sessions.dom().contains(key);
            &&& (r is Ok) == there
            &&& !there ==> after == before
            &&& there ==> {
                &&& r->Ok_0 == after.sessions[key].info
                &&& after.sessions[key].info.title == title
                &&& after.sessions == before.sessions.insert(
                    key,
                    SavedSessionView {
                        info: SessionInfo { title, ..before.sessions[key].info },
                        ..before.sessions[key]
                    },
                )
                &&& !after.provisional.dom().contains(key)
                &&& forall|other: DocumentKey| other != key ==> (
                #[trigger] after.provisional.dom().contains(other)
                    == before.provisional.dom().contains(other))
                &&& after == (StoreView {
                    sessions: after.sessions,
                    provisional: after.provisional,
                    ..before
                })
            }
        }),
{
}

/// A draft is kept as it was typed, and nothing else changes.
pub proof fn law_drafts_are_kept(
    before: StoreView,
    id: SessionId,
    draft: String,
    after: StoreView,
    r: Result<(), StoreError>,
)
    requires
        keeps_draft(before, id, draft, after, r),
    ensures
        ({
            let key = session_key(id);
            let there = before.sessions.dom().contains(key);
            &&& (r is Ok) == there
            &&& !there ==> after == before
            &&& there ==> {
                &&& after.sessions[key].draft == draft
                &&& after.sessions == before.sessions.insert(
                    key,
                    SavedSessionView { draft, ..before.sessions[key] },
                )
                &&& after == (StoreView { sessions: after.sessions, ..before })
            }
        }),
{
}

/// A session is put away or taken back as asked; doing the one after the other leaves the session
/// as it was before.
pub proof fn law_putting_away_can_be_undone(
    before: StoreView,
    id: SessionId,
    archived: bool,
    after: StoreView,
    r: Result<SessionInfo, StoreError>,
    back: StoreView,
    again: Result<SessionInfo, StoreError>,
)
    requires
        shelves(before, id, archived, after, r),
        shelves(after, id, !archived, back, again),
    ensures
        ({
            let key = session_key(id);
            let there = before.sessions.dom().contains(key);
            &&& (r is Ok) == there
            &&& !there ==> after == before
            &&& there ==> {
                &&& r->Ok_0 == after.sessions[key].info
                &&& after.sessions[key].info.archived == archived
                &&& after.sessions == before.sessions.insert(
                    key,
                    SavedSessionView {
                        info: SessionInfo { archived, ..before.sessions[key].info },
                        ..before.sessions[key]
                    },
                )
                &&& after == (StoreView { sessions: after.sessions, ..before })
                &&& before.sessions[key].info.archived == !archived ==> back == before
            }
        }),
{
    let key = session_key(id);
    if before.sessions.dom().contains(key) && before.sessions[key].info.archived == !archived {
        assert(back.sessions =~= before.sessions);
    }
}

/// A session runs in the runtime that was noted last for it, with that runtime's configuration and
/// position, and the history says that it started. Inputs, numbers, title and draft stay.
pub proof fn law_started_runtime_is_noted(
    before: StoreView,
    session: SessionId,
    runtime: SavedRuntime,
    agent_through: u64,
    now: i64,
    after: StoreView,
    r: Result<SessionSeq, StoreError>,
)
    requires
        notes_start(before, session, runtime, agent_through, now, after, r),
    ensures
        ({
            let key = session_key(session);
            let there = before.sessions.dom().contains(key);
            &&& (r is Ok) == there
            &&& !there ==> after == before
            &&& there ==> {
                &&& r->Ok_0.0 == before.history(session).len() + 1
                &&& after.sessions[key].runtime matches Some(noted)
                &&& noted.id == runtime.id
                &&& noted.config == runtime.config@
                &&& after.sessions[key].agent_through == agent_through
                &&& after.sessions == before.sessions.insert(
                    key,
                    SavedSessionView {
                        runtime: after.sessions[key].runtime,
                        agent_through,
                        ..before.sessions[key]
                    },
                )
                &&& after.history(session) == before.history(session).push(
                    StoredEntryView {
                        occurred_at: now,
                        event: StoredEventView::App(
                            SessionEventView::RuntimeStarted {
                                runtime: runtime.id,
                                config: runtime.config@,
                            },
                        ),
                    },
                )
                &&& after == (StoreView {
                    sessions: after.sessions,
                    journals: after.journals,
                    ..before
                })
            }
        }),
{
}

/// A new configuration is noted for the current runtime only, and the history says so. The runtime
/// and its position stay.
pub proof fn law_new_configuration_is_noted(
    before: StoreView,
    session: SessionId,
    runtime: RuntimeId,
    config: RuntimeConfig,
    now: i64,
    after: StoreView,
    r: Result<SessionSeq, StoreError>,
)
    requires
        notes_reconfiguration(before, session, runtime, config, now, after, r),
    ensures
        ({
            let key = session_key(session);
            let current = before.sessions.dom().contains(key) && before.sessions[key].runtime is Some
                && before.sessions[key].runtime->0.id == runtime;
            &&& (r is Ok) == current
            &&& !current ==> after == before
            &&& current ==> {
                &&& r->Ok_0.0 == before.history(session).len() + 1
                &&& after.sessions[key].runtime matches Some(noted)
                &&& noted.id == runtime
                &&& noted.config == config@
                &&& after.sessions == before.sessions.insert(
                    key,
                    SavedSessionView {
                        runtime: after.sessions[key].runtime,
                        ..before.sessions[key]
                    },
                )
                &&& after.history(session) == before.history(session).push(
                    StoredEntryView {
                        occurred_at: now,
                        event: StoredEventView::App(
                            SessionEventView::RuntimeReconfigured { runtime, config: config@ },
                        ),
                    },
                )
                &&& after == (StoreView {
                    sessions: after.sessions,
                    journals: after.journals,
                    ..before
                })
            }
        }),
{
}

/// A closed runtime is no longer the session's, and its position goes with it; where another one
/// runs, that one stays. The history says which one closed.
pub proof fn law_closed_runtime_is_gone(
    before: StoreView,
    session: SessionId,
    runtime: RuntimeId,
    now: i64,
    after: StoreView,
    r: Result<SessionSeq, StoreError>,
)
    requires
        notes_close(before, session, runtime, now, after, r),
    ensures
        ({
            let key = session_key(session);
            let there = before.sessions.dom().contains(key);
            let current = before.sessions[key].runtime is Some
                && before.sessions[key].runtime->0.id == runtime;
            &&& (r is Ok) == there
            &&& !there ==> after == before
            &&& there ==> {
                &&& r->Ok_0.0 == before.history(session).len() + 1
                &&& current ==> {
                    &&& after.sessions[key].runtime is None
                    &&& after.sessions[key].agent_through == 0
                }
                &&& after.sessions[key].core_through == before.sessions[key].core_through
                &&& after.sessions[key].info == before.sessions[key].info
                &&& after.sessions[key].next_input == before.sessions[key].next_input
                &&& after.sessions[key].draft == before.sessions[key].draft
                &&& after.sessions.dom() == before.sessions.dom()
                &&& forall|other: DocumentKey|
                    (other != key || !current) && before.sessions.dom().contains(other)
                        ==> #[trigger] after.sessions[other] == before.sessions[other]
                &&& after.history(session) == before.history(session).push(
                    StoredEntryView {
                        occurred_at: now,
                        event: StoredEventView::App(SessionEventView::RuntimeClosed { runtime }),
                    },
                )
                &&& after == (StoreView {
                    sessions: after.sessions,
                    journals: after.journals,
                    ..before
                })
            }
        }),
{
    assert(after.sessions.dom() =~= before.sessions.dom());
}

/// Every session of a workspace is listed with what is known of it, in the order of identities, and
/// no session of another workspace is.
pub proof fn law_every_session_is_listed(store: StoreView, workspace: WorkspaceId, key: DocumentKey)
    requires
        store.sessions.dom().finite(),
    ensures
        ({
            let keys = store.listed_sessions(workspace);
            &&& store.sessions.dom().contains(key) && store.sessions[key].info.workspace == workspace
                ==> keys.contains(key)
            &&& forall|i: int|
                0 <= i < keys.len() ==> store.sessions.dom().contains(#[trigger] keys[i])
                    && store.sessions[keys[i]].info.workspace == workspace
            &&& forall|i: int, j: int|
                0 <= i <= j < keys.len() ==> store.sessions[#[trigger] keys[i]].info.id.0
                    <= store.sessions[#[trigger] keys[j]].info.id.0
        }),
{
    let range = KeyRange { owner: None, item: None, before: None };
    let all = listing(store.sessions.dom(), range);
    let keep = |key: DocumentKey| store.sessions[key].info.workspace == workspace;
    let kept = all.filter(keep);
    let keys = store.listed_sessions(workspace);
    law_listings_are_complete(store.sessions.dom(), range);
    lemma_sorted_by(kept, store.session_order());
    assert(keys == crate::seqs::sorted_by(kept, store.session_order()));
    if store.sessions.dom().contains(key) && store.sessions[key].info.workspace == workspace {
        assert(all.contains(key));
        let k = choose|k: int| 0 <= k < all.len() && all[k] == key;
        all.lemma_filter_contains(keep, k);
        let n = choose|n: int| 0 <= n < kept.len() && kept[n] == key;
        lemma_sorting_keeps(kept, store.session_order(), n);
    }
    assert forall|i: int| 0 <= i < keys.len() implies store.sessions.dom().contains(
        #[trigger] keys[i],
    ) && store.sessions[keys[i]].info.workspace == workspace by {
        lemma_sorted_was_there(kept, store.session_order(), i);
        let n = choose|n: int| 0 <= n < kept.len() && kept[n] == keys[i];
        lemma_filter_keeps(all, keep, n);
        assert(all.contains(keys[i]));
    }
    assert forall|i: int, j: int| 0 <= i <= j < keys.len() implies store.sessions[
    #[trigger] keys[i]].info.id.0 <= store.sessions[#[trigger] keys[j]].info.id.0 by {
        assert(store.session_order()(keys[i]) <= store.session_order()(keys[j]));
    }
}

/// A new request for a session makes one: with the title and workspace of the request, noted under
/// the request, and with a provisional title exactly where the request says so. A request that was
/// used with another title or workspace gets no session, and one that was used before makes none.
pub proof fn law_requests_make_one_session(
    before: StoreView,
    id: SessionId,
    request: CreateSessionRequest,
    after: StoreView,
    r: Result<Option<SavedSession>, StoreError>,
)
    requires
        before.creates(id, request, after, r),
    ensures
        ({
            let key = session_key(id);
            let used = creation_key(request.request_id);
            let first = before.creations[used];
            &&& before.creations.dom().contains(used) ==> {
                &&& after == before
                &&& first.workspace != request.workspace || first.title@ != request.title@
                    ==> (r matches Ok(None))
                &&& first.workspace == request.workspace && first.title@ == request.title@
                    && before.sessions.dom().contains(session_key(first.session)) ==> (
                r matches Ok(Some(saved)) && saved@ == before.sessions[session_key(first.session)])
            }
            &&& !before.creations.dom().contains(used) && r is Ok ==> {
                &&& r matches Ok(Some(saved))
                &&& saved@ == after.sessions[key]
                &&& !before.sessions.dom().contains(key)
                &&& after.sessions.dom() == before.sessions.dom().insert(key)
                &&& after.sessions[key].info.id == id
                &&& after.sessions[key].info.workspace == request.workspace
                &&& after.sessions[key].info.title == request.title
                &&& !after.sessions[key].info.archived
                &&& after.sessions[key].next_input == 1
                &&& after.sessions[key].runtime is None
                &&& after.sessions[key].draft@.len() == 0
                &&& after.creations.dom().contains(used)
                &&& after.creations[used].session == id
                &&& after.creations[used].workspace == request.workspace
                &&& after.creations[used].title == request.title
                &&& after.provisional.dom().contains(key) == request.provisional
            }
            &&& r is Err ==> after == before
            &&& !before.creations.dom().contains(used) && !before.sessions.dom().contains(key)
                && !before.result_projections.dom().contains(key)
                && !before.evidence_projections.dom().contains(key) ==> r is Ok
        }),
{
    let key = session_key(id);
    if !before.creations.dom().contains(creation_key(request.request_id)) && r is Ok {
        assert(after.sessions.dom() =~= before.sessions.dom().insert(key));
    }
}

/// A provisional title is replaced, and the new one is final; a title that the user gave stays.
pub proof fn law_only_provisional_titles_are_replaced(
    before: StoreView,
    id: SessionId,
    title: String,
    after: StoreView,
    r: Result<Option<SessionInfo>, StoreError>,
)
    requires
        retitles_provisional(before, id, title, after, r),
    ensures
        ({
            let key = session_key(id);
            let there = before.sessions.dom().contains(key);
            let provisional = before.provisional.dom().contains(key);
            &&& (r is Ok) == there
            &&& !there || !provisional ==> after == before
            &&& there && !provisional ==> (r matches Ok(None))
            &&& there && provisional ==> {
                &&& r matches Ok(Some(info))
                &&& info == after.sessions[key].info
                &&& after.sessions == before.sessions.insert(
                    key,
                    SavedSessionView {
                        info: SessionInfo { title, ..before.sessions[key].info },
                        ..before.sessions[key]
                    },
                )
                &&& !after.provisional.dom().contains(key)
                &&& after == (StoreView {
                    sessions: after.sessions,
                    provisional: after.provisional,
                    ..before
                })
            }
        }),
{
}

/// The session that was noted last as active in a workspace is the one that is recalled for it, and
/// only a session of the workspace can be noted. No other workspace is touched.
pub proof fn law_active_session_is_recalled(
    before: StoreView,
    workspace: WorkspaceId,
    session: SessionId,
    after: StoreView,
    noted: bool,
    recalled: Option<SessionId>,
    other: WorkspaceId,
    theirs: Option<SessionId>,
    theirs_before: Option<SessionId>,
)
    requires
        remembers_session(before, workspace, session, after, noted),
        recalls_session(after, workspace, recalled),
        other != workspace,
        recalls_session(after, other, theirs),
        recalls_session(before, other, theirs_before),
    ensures
        noted <==> before.sessions.dom().contains(session_key(session))
            && before.sessions[session_key(session)].info.workspace == workspace,
        noted ==> recalled == Some(session),
        !noted ==> after == before,
        theirs == theirs_before,
        after == (StoreView { last_active: after.last_active, ..before }),
{
}

/// A session that was never noted is not recalled.
pub proof fn law_nothing_is_recalled_unnoted(
    store: StoreView,
    workspace: WorkspaceId,
    r: Option<SessionId>,
)
    requires
        recalls_session(store, workspace, r),
    ensures
        r is Some <==> store.last_active.dom().contains(
            crate::persistence::keys::workspace_key(workspace),
        ),
{
}

/// Recovery answers with what is stored: the session as it is after it, and every input of it. A
/// session that does not exist is not recovered. Where the answer is a success, nothing of the
/// session is left in the runtime that was lost.
pub proof fn law_recovery_returns_what_is_stored(
    before: StoreView,
    session: SessionId,
    now: i64,
    after: StoreView,
    r: Result<(SavedSession, Vec<InputView>), StoreError>,
    id: InputId,
)
    requires
        recovers_session(before, session, now, after, r),
        before.inputs.dom().finite(),
        before.inputs_under_their_numbers(),
    ensures
        ({
            let key = session_key(session);
            let input = input_key(session, id);
            let lost = before.sessions[key].runtime->0.id;
            &&& !before.sessions.dom().contains(key) ==> r is Err && after == before
            &&& r is Ok ==> {
                &&& r->Ok_0.0@ == after.sessions[key]
                &&& after.sessions[key].runtime is None
                &&& before.sessions[key].runtime is Some && after.inputs.dom().contains(input) ==> {
                    let state = after.inputs[input].state;
                    &&& !(state is Posting && state->Posting_runtime == lost)
                    &&& !(state is Accepted && state->Accepted_runtime == lost)
                    &&& !(state is WaitingForUser && state->WaitingForUser_runtime == lost)
                    &&& !(state is RoutingFailed && state->RoutingFailed_runtime == lost)
                    &&& r->Ok_0.1@.contains(after.inputs[input])
                }
            }
        }),
{
    let key = session_key(session);
    if r is Ok {
        if before.sessions[key].runtime is Some {
            law_recovery_interrupts_what_was_under_way(before, session, now, id);
            if after.inputs.dom().contains(input_key(session, id)) {
                let current = before.reconciled(session, now).0;
                if before.cores.dom().contains(key) {
                    let saved = before.session(session);
                    lemma_reconcile_keeps_inputs(
                        before,
                        saved.info.workspace,
                        session,
                        before.core_of(session),
                        saved.core_through,
                        before.listed_inputs(session),
                        before.core_of(session).records.len() as int,
                        now,
                    );
                }
                lemma_changes_keep_numbers(
                    current,
                    session,
                    all_to(
                        current.entered_inputs(session, before.sessions[key].runtime->0.id),
                        InputState::Interrupted { runtime: before.sessions[key].runtime->0.id },
                    ),
                );
                assert(after.inputs_under_their_numbers());
                law_every_input_is_listed(after, session, id);
            }
        } else {
            if before.cores.dom().contains(key) {
                let saved = before.session(session);
                lemma_reconcile_keeps_session(
                    before,
                    saved.info.workspace,
                    session,
                    before.core_of(session),
                    saved.core_through,
                    before.listed_inputs(session),
                    before.core_of(session).records.len() as int,
                    now,
                );
            }
        }
    }
}

} // verus!

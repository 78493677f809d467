//! What becomes of writes in the durable ledger.

use vstd::prelude::*;

use crate::api::{CallRef, JobRef, SessionEventView, UnresolvedWriteStatus, WriteResolution};
use crate::document::{law_listings_are_complete, listing, DocumentKey, KeyRange};
use crate::error::StoreError;
use crate::ids::{SessionId, WorkspaceId};
use crate::persistence::keys::{session_key, write_key};
use crate::persistence::laws::lemma_sorting_keeps;
use crate::persistence::writes::{
    begins_write, call_of, finishes_write, knows_effect, listed_writes, settles_write, shown_write,
    ResolveWriteResult,
};
use crate::persistence::{
    StoreView, StoredEntryView, StoredEventView, StoredWriteResolution, WriteAttempt, WriteState,
};
use crate::record::{ExternalEffect, ToolOutcome};
use crate::seqs::{lemma_filter_keeps, lemma_sorted_by, lemma_sorted_was_there};

verus! {

/// A write is begun once. It is then in the ledger of its workspace, pending, with its session, its
/// tool and its arguments, and among the attention items; no other write is touched. One that was
/// begun or settled before is not begun again, and one of a missing session, or of another
/// workspace than its session's, is refused.
pub proof fn law_writes_begin_once(
    before: StoreView,
    workspace: WorkspaceId,
    session: SessionId,
    call: CallRef,
    tool: String,
    arguments: String,
    after: StoreView,
    r: Result<bool, StoreError>,
)
    requires
        begins_write(before, workspace, session, call, tool, arguments, after, r),
    ensures
        ({
            let key = write_key(workspace, call);
            let saved = before.sessions[session_key(session)];
            let fits = before.sessions.dom().contains(session_key(session))
                && saved.info.workspace == workspace;
            let known = before.writes.dom().contains(key)
                || before.write_resolutions.dom().contains(key);
            &&& (r is Ok) == fits
            &&& r == Ok::<bool, StoreError>(true) <==> fits && !known
            &&& !fits || known ==> after == before
            &&& fits && !known ==> {
                &&& after.writes.dom() == before.writes.dom().insert(key)
                &&& after.writes[key].session == session
                &&& after.writes[key].call == call
                &&& after.writes[key].job is None
                &&& after.writes[key].tool == tool
                &&& after.writes[key].arguments == arguments
                &&& after.writes[key].state is Pending
                &&& forall|other: DocumentKey| other != key && before.writes.dom().contains(other)
                    ==> #[trigger] after.writes[other] == before.writes[other]
                &&& after.unsettled.dom() == before.unsettled.dom().insert(key)
                &&& after.unsettled[key].status == UnresolvedWriteStatus::Pending
                &&& forall|other: DocumentKey| other != key && before.unsettled.dom().contains(other)
                    ==> #[trigger] after.unsettled[other] == before.unsettled[other]
                &&& after == (StoreView {
                    writes: after.writes,
                    unsettled: after.unsettled,
                    ..before
                })
            }
        }),
{
    assert(r == Ok::<bool, StoreError>(true) ==> after.writes.dom() =~= before.writes.dom().insert(
        write_key(workspace, call),
    ));
    assert(r == Ok::<bool, StoreError>(true) ==> after.unsettled.dom()
        =~= before.unsettled.dom().insert(write_key(workspace, call)));
}

/// A pending write that returns keeps what it returned, and stays in the ledger with everything
/// else of it. One that is not in the ledger, or has returned, cannot return.
pub proof fn law_returned_write_keeps_its_outcome(
    before: StoreView,
    workspace: WorkspaceId,
    call: CallRef,
    outcome: ToolOutcome,
    after: StoreView,
    r: Result<(), StoreError>,
)
    requires
        finishes_write(before, workspace, call, outcome, after, r),
    ensures
        ({
            let key = write_key(workspace, call);
            let open = before.writes.dom().contains(key) && before.writes[key].state is Pending;
            &&& (r is Ok) == open
            &&& !open ==> after == before
            &&& open ==> {
                &&& after.writes == before.writes.insert(
                    key,
                    WriteAttempt { state: WriteState::Finished(outcome), ..before.writes[key] },
                )
                &&& before.writes[key].call == call ==> {
                    &&& after.unsettled.dom().contains(key)
                    &&& after.unsettled[key].outcome == Some(outcome)
                    &&& after.unsettled[key].status == UnresolvedWriteStatus::Finished
                    &&& forall|other: DocumentKey| other != key && before.unsettled.dom().contains(
                        other,
                    ) ==> #[trigger] after.unsettled[other] == before.unsettled[other]
                }
                &&& after == (StoreView {
                    writes: after.writes,
                    unsettled: after.unsettled,
                    ..before
                })
            }
        }),
{
}

/// A write that waits or came back without a known effect is settled by any known finding: it
/// leaves the ledger and the attention items, the finding is kept and is the new end of the
/// history. A finding that is not taken changes nothing.
pub proof fn law_findings_settle_open_writes(
    before: StoreView,
    workspace: WorkspaceId,
    session: SessionId,
    call: CallRef,
    resolution: WriteResolution,
    now: i64,
    after: StoreView,
    r: ResolveWriteResult,
)
    requires
        settles_write(before, workspace, session, call, resolution, now, after, r),
    ensures
        ({
            let key = write_key(workspace, call);
            let write = before.writes[key];
            let open = before.writes.dom().contains(key) && write.session == session && (
            write.state is Pending || write.state->Finished_0.external_effect
                == ExternalEffect::Unknown);
            &&& open && resolution.external_effect != ExternalEffect::Unknown
                ==> r == ResolveWriteResult::Applied
            &&& r != ResolveWriteResult::Applied ==> after == before
            &&& r == ResolveWriteResult::Applied ==> {
                &&& before.writes.dom().contains(key)
                &&& write.session == session
                &&& after.writes == before.writes.remove(key)
                &&& after.unsettled == before.unsettled.remove(key)
                &&& after.write_resolutions == before.write_resolutions.insert(
                    key,
                    StoredWriteResolution {
                        session,
                        external_effect: resolution.external_effect,
                    },
                )
                &&& after.history(session) == before.history(session).push(
                    StoredEntryView {
                        occurred_at: now,
                        event: StoredEventView::App(
                            SessionEventView::WriteResolved {
                                call,
                                external_effect: resolution.external_effect,
                                evidence: resolution.evidence,
                            },
                        ),
                    },
                )
                &&& after == (StoreView {
                    writes: after.writes,
                    unsettled: after.unsettled,
                    write_resolutions: after.write_resolutions,
                    journals: after.journals,
                    ..before
                })
            }
        }),
{
}

/// What the user found for a write of a session is given back for it, and nothing for any other
/// write or to any other session.
pub proof fn law_findings_are_given_back(
    store: StoreView,
    workspace: WorkspaceId,
    session: SessionId,
    call: CallRef,
    r: Option<ExternalEffect>,
)
    requires
        knows_effect(store, workspace, session, call, r),
    ensures
        ({
            let key = write_key(workspace, call);
            &&& r is Some <==> store.write_resolutions.dom().contains(key)
                && store.write_resolutions[key].session == session
            &&& r matches Some(effect) ==> effect == store.write_resolutions[key].external_effect
        }),
{
}

/// The outcome of a write is final exactly where it returned with a known effect; then it is what
/// the write returned.
pub proof fn law_known_outcomes_are_given(store: StoreView, workspace: WorkspaceId, call: CallRef)
    ensures
        ({
            let key = write_key(workspace, call);
            let known = store.finished_outcome(workspace, call);
            &&& known is Some <==> store.writes.dom().contains(key)
                && store.writes[key].state is Finished
                && store.writes[key].state->Finished_0.external_effect != ExternalEffect::Unknown
            &&& known matches Some(outcome) ==> store.writes[key].state == WriteState::Finished(
                outcome,
            )
        }),
{
}

/// A write of the ledger that is given a job has that job and is otherwise as it was; nothing
/// happens to a write that is not in the ledger.
pub proof fn law_writes_keep_their_job(
    store: StoreView,
    workspace: WorkspaceId,
    call: CallRef,
    job: JobRef,
)
    ensures
        ({
            let key = write_key(workspace, call);
            let after = store.with_job(workspace, call, job);
            &&& after.writes.dom() == store.writes.dom()
            &&& store.writes.dom().contains(key) ==> after.writes[key] == (WriteAttempt {
                job: Some(job),
                ..store.writes[key]
            })
            &&& forall|other: DocumentKey| other != key && store.writes.dom().contains(other)
                ==> #[trigger] after.writes[other] == store.writes[other]
            &&& !store.writes.dom().contains(key) ==> after == store
            &&& after == (StoreView { writes: after.writes, unsettled: after.unsettled, ..store })
        }),
{
    let after = store.with_job(workspace, call, job);
    assert(after.writes.dom() =~= store.writes.dom());
}

/// A write is shown with everything that is known of it, and as pending exactly while it has not
/// returned.
pub proof fn law_writes_are_shown_as_they_are(workspace: WorkspaceId, write: WriteAttempt)
    ensures
        ({
            let shown = shown_write(workspace, write);
            &&& shown.workspace == workspace
            &&& shown.session == write.session
            &&& shown.call == write.call
            &&& shown.job == write.job
            &&& shown.tool == write.tool
            &&& shown.arguments == write.arguments
            &&& (shown.status == UnresolvedWriteStatus::Pending) == (write.state is Pending)
            &&& (shown.status == UnresolvedWriteStatus::Finished) == (write.state is Finished)
            &&& shown.outcome is None == (write.state is Pending)
            &&& write.state matches WriteState::Finished(outcome) ==> shown.outcome == Some(outcome)
        }),
{
}

/// The open writes of a workspace, of one session or of all, are listed completely and alone.
pub proof fn law_open_writes_are_listed(
    store: StoreView,
    workspace: WorkspaceId,
    session: Option<SessionId>,
    call: CallRef,
)
    requires
        store.writes.dom().finite(),
        store.writes_under_their_calls(),
    ensures
        ({
            let items = store.unresolved(workspace, session);
            let key = write_key(workspace, call);
            &&& store.writes.dom().contains(key) && (session is None || session
                == Some(store.writes[key].session)) ==> exists|i: int|
                0 <= i < items.len() && (#[trigger] items[i]).call == call && items[i].session
                    == store.writes[key].session && items[i].tool == store.writes[key].tool
                    && items[i].arguments == store.writes[key].arguments && items[i].job
                    == store.writes[key].job && (items[i].outcome is Some) == (
                store.writes[key].state is Finished)
            &&& forall|i: int|
                0 <= i < items.len() ==> {
                    let own = write_key(workspace, (#[trigger] items[i]).call);
                    &&& store.writes.dom().contains(own)
                    &&& items[i].workspace == workspace
                    &&& items[i].session == store.writes[own].session
                    &&& session matches Some(only) ==> items[i].session == only
                }
        }),
{
    let range = KeyRange::of(workspace.0);
    let keys = listing(store.writes.dom(), range);
    law_listings_are_complete(store.writes.dom(), range);
    let keep = |key: DocumentKey| session is None || store.writes[key].session == session->0;
    let kept = listed_writes(keys, store.writes, session);
    assert(kept == keys.filter(keep));
    let show = |key: DocumentKey| shown_write(workspace, store.writes[key]);
    let shown = kept.map_values(show);
    let items = store.unresolved(workspace, session);
    assert(items == crate::seqs::sorted_by(shown, call_of()));
    lemma_sorted_by(shown, call_of());
    let key = write_key(workspace, call);
    if store.writes.dom().contains(key) && (session is None || session
        == Some(store.writes[key].session)) {
        assert(keys.contains(key));
        let k = choose|k: int| 0 <= k < keys.len() && keys[k] == key;
        keys.lemma_filter_contains(keep, k);
        let n = choose|n: int| 0 <= n < kept.len() && kept[n] == key;
        lemma_sorting_keeps(shown, call_of(), n);
        let i = choose|i: int| 0 <= i < items.len() && items[i] == shown[n];
        assert(items[i] == shown_write(workspace, store.writes[key]));
        assert(key == write_key(WorkspaceId(key.owner), store.writes[key].call));
        assert(items[i].call == call);
    }
    assert forall|i: int| 0 <= i < items.len() implies {
        let own = write_key(workspace, (#[trigger] items[i]).call);
        &&& store.writes.dom().contains(own)
        &&& items[i].workspace == workspace
        &&& items[i].session == store.writes[own].session
        &&& session matches Some(only) ==> items[i].session == only
    } by {
        lemma_sorted_was_there(shown, call_of(), i);
        let n = choose|n: int| 0 <= n < shown.len() && shown[n] == items[i];
        lemma_filter_keeps(keys, keep, n);
        assert(keys.contains(kept[n]));
        assert(store.writes.dom().contains(kept[n]));
        assert(kept[n] == write_key(WorkspaceId(kept[n].owner), store.writes[kept[n]].call));
    }
}

/// Open writes are listed in the order of their runtimes, and those of a runtime in the order of
/// their calls.
pub proof fn law_open_writes_are_in_order(
    store: StoreView,
    workspace: WorkspaceId,
    session: Option<SessionId>,
    i: int,
    j: int,
)
    requires
        0 <= i < j < store.unresolved(workspace, session).len(),
    ensures
        ({
            let items = store.unresolved(workspace, session);
            &&& items[i].call.runtime.0 <= items[j].call.runtime.0
            &&& items[i].call.runtime == items[j].call.runtime ==> items[i].call.id
                <= items[j].call.id
        }),
{
    let keys = listing(store.writes.dom(), KeyRange::of(workspace.0));
    let shown = listed_writes(keys, store.writes, session).map_values(
        |key: DocumentKey| shown_write(workspace, store.writes[key]),
    );
    lemma_sorted_by(shown, call_of());
    let items = store.unresolved(workspace, session);
    assert(items == crate::seqs::sorted_by(shown, call_of()));
    assert(call_of()(items[i]) <= call_of()(items[j]));
}

} // verus!

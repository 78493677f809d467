//! What the durable data promises across its operations.

use vstd::prelude::*;

use super::acceptance::{acceptances_before, position_of};
use super::evidence::{body_pieces, lemma_bodies_frame};
use super::history::{entry_views, shown_entries};
use super::inputs::{all_to, input_number, lemma_changes};
use super::keys::{
    acceptance_key, input_key, session_key, write_key,
};
use super::projection::{shown, source_of};
use super::recovery::{
    lemma_reconcile_keeps_inputs, lemma_reconcile_keeps_session, origin_at, origin_of, reconcile,
};
use super::writes::ResolveWriteResult;
use super::{StoreView, StoredCoreStateView, StoredEntryView, StoredEventView, WriteState};
use crate::api::{
    AcceptanceSubmission, CallRef, EvidenceRef, HistoryPage, InputId, InputState, InputView, JobRef,
    RecentHistoryPage, SessionEventView, SessionSeq, WriteResolution,
};
use crate::document::{last_of, law_listings_are_complete, listing, DocumentKey, KeyRange};
use crate::ids::{AcceptanceId, RuntimeId, SessionId, WorkspaceId};
use crate::record::{ExternalEffect, RecordBodyView, RecordView};
use crate::seqs::{lemma_filter_keeps, lemma_sorted_by, lemma_sorted_by_fixes, lemma_sorted_was_there, sorted_by};
use crate::session::changes::changes_of;

verus! {

/// Changing some inputs to one state changes those inputs in their state alone, and no other input.
pub proof fn lemma_changed_pointwise(
    store: StoreView,
    session: SessionId,
    inputs: Seq<InputId>,
    state: InputState,
)
    requires
        store.has_all(session, all_to(inputs, state)),
    ensures
        ({
            let after = store.with_changes(session, all_to(inputs, state));
            &&& after.inputs.dom() == store.inputs.dom()
            &&& forall|id: InputId| #[trigger]
                inputs.contains(id) ==> after.inputs[input_key(session, id)] == (InputView {
                    state,
                    ..store.inputs[input_key(session, id)]
                })
            &&& forall|key: DocumentKey|
                (forall|i: int| 0 <= i < inputs.len() ==> input_key(session, #[trigger] inputs[i]) != key)
                    ==> #[trigger] after.inputs[key] == store.inputs[key]
        }),
    decreases inputs.len(),
{
    let changes = all_to(inputs, state);
    lemma_changes(store, session, changes);
    if inputs.len() > 0 {
        let head = inputs.drop_last();
        assert(changes.drop_last() =~= all_to(head, state));
        assert forall|i: int| 0 <= i < head.len() implies store.has_input(
            session,
            (#[trigger] all_to(head, state)[i]).0,
        ) by {
            assert(all_to(head, state)[i] == changes[i]);
        }
        lemma_changed_pointwise(store, session, head, state);
        let mid = store.with_changes(session, all_to(head, state));
        let after = store.with_changes(session, changes);
        let last = inputs.last();
        assert forall|id: InputId| #[trigger] inputs.contains(id) implies after.inputs[input_key(
            session,
            id,
        )] == (InputView { state, ..store.inputs[input_key(session, id)] }) by {
            if id != last {
                let n = choose|n: int| 0 <= n < inputs.len() && inputs[n] == id;
                assert(head[n] == id);
                assert(head.contains(id));
            } else if head.contains(last) {
            } else {
                assert forall|i: int| 0 <= i < head.len() implies input_key(
                    session,
                    #[trigger] head[i],
                ) != input_key(session, last) by {
                    if head[i] == last {
                        assert(head.contains(last));
                    }
                }
                assert(mid.inputs[input_key(session, last)] == store.inputs[input_key(
                    session,
                    last,
                )]);
            }
        }
        assert forall|key: DocumentKey|
            (forall|i: int| 0 <= i < inputs.len() ==> input_key(session, #[trigger] inputs[i]) != key)
            implies #[trigger] after.inputs[key] == store.inputs[key] by {
            assert forall|i: int| 0 <= i < head.len() implies input_key(session, #[trigger] head[i])
                != key by {
                assert(head[i] == inputs[i]);
            }
            assert(input_key(session, inputs[inputs.len() - 1]) != key);
            assert(mid.inputs[key] == store.inputs[key]);
        }
    }
}

/// The inputs that had entered a runtime are exactly those in a state of it.
proof fn lemma_entered(store: StoreView, session: SessionId, runtime: RuntimeId, id: InputId)
    requires
        store.inputs.dom().finite(),
        store.inputs_under_their_numbers(),
    ensures
        store.entered_inputs(session, runtime).contains(id) <==> store.inputs.dom().contains(
            input_key(session, id),
        ) && store.inputs[input_key(session, id)].state.entered() == Some(runtime),
{
    let keys = listing(store.inputs.dom(), KeyRange::of(session.0));
    law_listings_are_complete(store.inputs.dom(), KeyRange::of(session.0));
    let stored = store.stored_inputs(session);
    let listed = store.listed_inputs(session);
    let keep = |input: InputView| input.state.entered() == Some(runtime);
    let kept = listed.filter(keep);
    let entered = store.entered_inputs(session, runtime);
    lemma_sorted_by(stored, input_number());
    if entered.contains(id) {
        let n = choose|n: int| 0 <= n < entered.len() && entered[n] == id;
        assert(kept[n].id == id);
        lemma_filter_keeps(listed, keep, n);
        let m = choose|m: int| 0 <= m < listed.len() && listed[m] == kept[n];
        lemma_sorted_was_there(stored, input_number(), m);
        let k = choose|k: int| 0 <= k < stored.len() && stored[k] == listed[m];
        assert(keys.contains(keys[k]));
        assert(store.inputs.dom().contains(keys[k]));
    }
    let key = input_key(session, id);
    if store.inputs.dom().contains(key) && store.inputs[key].state.entered() == Some(runtime) {
        assert(keys.contains(key));
        let k = choose|k: int| 0 <= k < keys.len() && keys[k] == key;
        let input = store.inputs[key];
        assert(stored[k] == input);
        assert(input.id == id);
        lemma_sorting_keeps(stored, input_number(), k);
        let m = choose|m: int| 0 <= m < listed.len() && listed[m] == input;
        listed.lemma_filter_contains(keep, m);
        let n = choose|n: int| 0 <= n < kept.len() && kept[n] == input;
        assert(entered[n] == id);
    }
}

/// Whatever was there is there when sorted.
pub proof fn lemma_sorting_keeps<T>(items: Seq<T>, key: spec_fn(T) -> int, i: int)
    requires
        0 <= i < items.len(),
    ensures
        sorted_by(items, key).contains(items[i]),
{
    broadcast use vstd::seq_lib::group_to_multiset_ensures;

    lemma_sorted_by(items, key);
    assert(items.contains(items[i]));
    assert(items.to_multiset().count(items[i]) > 0);
    assert(sorted_by(items, key).to_multiset().count(items[i]) > 0);
}

/// Recovery loses no work and shows none that is gone. Once a session with a noted runtime was
/// recovered, it has none, and no input of it is posted to, accepted by, asked back by or failed in
/// that runtime. Each that was so when the missing records had been taken over is interrupted, with
/// everything else of it kept; every other input is as it was. The history says so: it ends with
/// the interrupted inputs, exactly them, where there are any, and with the end of the runtime.
pub proof fn law_recovery_interrupts_what_was_under_way(
    store: StoreView,
    session: SessionId,
    now: i64,
    id: InputId,
)
    requires
        store.inputs.dom().finite(),
        store.inputs_under_their_numbers(),
        store.sessions.dom().contains(session_key(session)),
        store.sessions[session_key(session)].runtime is Some,
        store.recovery(session, now).1 is None,
    ensures
        ({
            let lost = store.sessions[session_key(session)].runtime->0.id;
            let current = store.reconciled(session, now).0;
            let after = store.recovery(session, now).0;
            let key = input_key(session, id);
            let under_way = {
                ||| current.inputs[key].state == (InputState::Posting { runtime: lost })
                ||| current.inputs[key].state == (InputState::Accepted { runtime: lost })
                ||| current.inputs[key].state matches InputState::WaitingForUser { runtime, .. }
                    && runtime == lost
                ||| current.inputs[key].state matches InputState::RoutingFailed { runtime, .. }
                    && runtime == lost
            };
            let history = after.history(session);
            let told = history[history.len() - 2].event;
            &&& after.sessions[session_key(session)].runtime is None
            &&& after.inputs.dom() == store.inputs.dom()
            &&& after.inputs.dom().contains(key) ==> {
                &&& !(after.inputs[key].state is Posting
                    && after.inputs[key].state->Posting_runtime == lost)
                &&& !(after.inputs[key].state is Accepted
                    && after.inputs[key].state->Accepted_runtime == lost)
                &&& !(after.inputs[key].state is WaitingForUser
                    && after.inputs[key].state->WaitingForUser_runtime == lost)
                &&& !(after.inputs[key].state is RoutingFailed
                    && after.inputs[key].state->RoutingFailed_runtime == lost)
                &&& under_way ==> after.inputs[key] == (InputView {
                    state: InputState::Interrupted { runtime: lost },
                    ..current.inputs[key]
                })
                &&& !under_way ==> after.inputs[key] == current.inputs[key]
            }
            &&& history.len() > 0
            &&& history.last() == (StoredEntryView {
                occurred_at: now,
                event: StoredEventView::App(SessionEventView::RuntimeClosed { runtime: lost }),
            })
            &&& after.inputs.dom().contains(key) && under_way ==> {
                &&& history.len() == current.history(session).len() + 2
                &&& told matches StoredEventView::App(
                    SessionEventView::Interrupted { runtime, inputs },
                ) && runtime == lost && inputs.contains(id)
            }
            &&& history.len() == current.history(session).len() + 2 ==> (
            told matches StoredEventView::App(SessionEventView::Interrupted { runtime, inputs })
                && runtime == lost && (inputs.contains(id) ==> after.inputs.dom().contains(key)
                && under_way))
            &&& history.len() <= current.history(session).len() + 2
            &&& history.take(current.history(session).len() as int) == current.history(session)
        }),
{
    let lost = store.sessions[session_key(session)].runtime->0.id;
    let current = store.reconciled(session, now).0;
    let after = store.recovery(session, now).0;
    let key = input_key(session, id);
    if store.cores.dom().contains(session_key(session)) {
        let saved = store.session(session);
        lemma_reconcile_keeps_inputs(
            store,
            saved.info.workspace,
            session,
            store.core_of(session),
            saved.core_through,
            store.listed_inputs(session),
            store.core_of(session).records.len() as int,
            now,
        );
        lemma_reconcile_keeps_session(
            store,
            saved.info.workspace,
            session,
            store.core_of(session),
            saved.core_through,
            store.listed_inputs(session),
            store.core_of(session).records.len() as int,
            now,
        );
    }
    let interrupted = current.entered_inputs(session, lost);
    lemma_entered(current, session, lost, id);
    lemma_changed_pointwise(
        current,
        session,
        interrupted,
        InputState::Interrupted { runtime: lost },
    );
    lemma_changes(
        current,
        session,
        all_to(interrupted, InputState::Interrupted { runtime: lost }),
    );
    if !interrupted.contains(id) {
        assert forall|i: int| 0 <= i < interrupted.len() implies input_key(
            session,
            #[trigger] interrupted[i],
        ) != key by {
            if interrupted[i] == id {
                assert(interrupted.contains(id));
            }
        }
    }
    assert(after.history(session).take(current.history(session).len() as int)
        =~= current.history(session));
}

/// Where the agent core has kept nothing, recovery takes nothing over.
pub proof fn law_recovery_without_a_core_takes_nothing_over(
    store: StoreView,
    session: SessionId,
    now: i64,
)
    requires
        !store.cores.dom().contains(session_key(session)),
    ensures
        store.reconciled(session, now) == (store, None::<crate::error::StoreError>),
        store.sessions.dom().contains(session_key(session))
            && store.sessions[session_key(session)].runtime is None ==> store.recovery(
            session,
            now,
        ) == (store, None::<crate::error::StoreError>),
{
}

/// What one record adds to the history of its session.
proof fn lemma_record_logged(
    store: StoreView,
    session: SessionId,
    runtime: RuntimeId,
    record: RecordView,
    changes: Seq<(InputId, InputState)>,
    now: i64,
)
    requires
        store.record_problem(session, runtime, record, changes) is None,
        record.seq > store.session(session).core_through,
    ensures
        store.with_record(session, runtime, record, changes, now).history(session)
            == store.history(session).push(
            StoredEntryView { occurred_at: now, event: StoredEventView::Agent { runtime, record } },
        ),
{
    lemma_changes(store, session, changes);
    let settled = store.with_changes(session, changes).with_settled(
        store.session(session).info.workspace,
        session,
        record,
    );
    assert(settled.journals == store.journals);
    lemma_bodies_frame(
        settled,
        EvidenceRef { session, record: record.seq },
        body_pieces(source_of(record)),
    );
    let entry = StoredEntryView {
        occurred_at: now,
        event: StoredEventView::Agent { runtime, record },
    };
    assert(store.history(session) + seq![entry] =~= store.history(session).push(entry));
}

proof fn lemma_reconcile_logs(
    store: StoreView,
    workspace: WorkspaceId,
    session: SessionId,
    core: StoredCoreStateView,
    through: u64,
    inputs: Seq<InputView>,
    count: int,
    now: i64,
)
    requires
        0 <= count <= core.records.len() <= u64::MAX,
        store.has_session(session),
        through == store.session(session).core_through,
        forall|i: int|
            0 <= i < core.records.len() ==> (#[trigger] core.records[i]).seq == i + 1,
        reconcile(store, workspace, session, core, through, inputs, count, now).failed is None,
    ensures
        ({
            let done = reconcile(store, workspace, session, core, through, inputs, count, now).store;
            let base = store.history(session).len() as int;
            let added = if count > through { count - through } else { 0 };
            &&& done.has_session(session)
            &&& done.session(session).core_through == (if count > through { count } else { through as int })
            &&& done.history(session).len() == base + added
            &&& done.history(session).take(base) == store.history(session)
            &&& forall|k: int| through <= k < count ==> {
                let entry = #[trigger] done.history(session)[base + k - through];
                &&& entry.occurred_at == now
                &&& entry.event matches StoredEventView::Agent { runtime, record }
                &&& record == core.records[k]
                &&& origin_of(core.record_origins, (k + 1) as u64) == Some(runtime)
            }
        }),
    decreases count,
{
    let base = store.history(session).len() as int;
    if count == 0 {
        assert(store.history(session).take(base) =~= store.history(session));
    } else {
        let before = reconcile(store, workspace, session, core, through, inputs, count - 1, now);
        assert(before.failed is None);
        lemma_reconcile_logs(store, workspace, session, core, through, inputs, count - 1, now);
        let record = core.records[count - 1];
        let done = reconcile(store, workspace, session, core, through, inputs, count, now).store;
        if record.seq > through {
            let runtime = origin_of(core.record_origins, record.seq)->0;
            let changes = changes_of(runtime, record, before.inputs);
            lemma_record_logged(before.store, session, runtime, record, changes, now);
            let saved = before.store.with_record(session, runtime, record, changes, now);
            assert(done.journals == saved.journals && done.sessions == saved.sessions);
            assert(done.history(session) == before.store.history(session).push(
                StoredEntryView {
                    occurred_at: now,
                    event: StoredEventView::Agent { runtime, record },
                },
            ));
            assert(done.history(session).take(base) =~= before.store.history(session).take(base));
            assert forall|k: int| through <= k < count implies {
                let entry = #[trigger] done.history(session)[base + k - through];
                &&& entry.occurred_at == now
                &&& entry.event matches StoredEventView::Agent { runtime, record }
                &&& record == core.records[k]
                &&& origin_of(core.record_origins, (k + 1) as u64) == Some(runtime)
            } by {
                if k < count - 1 {
                    assert(done.history(session)[base + k - through] == before.store.history(
                        session,
                    )[base + k - through]);
                }
            }
        }
    }
}

/// Recovery brings the history up to date with the agent core: every record that the history
/// misses is appended to it, once, in order, with the runtime that the core has noted for it, and
/// what the history held stays.
pub proof fn law_recovery_takes_over_missing_records(store: StoreView, session: SessionId, now: i64)
    requires
        store.sessions.dom().contains(session_key(session)),
        store.cores.dom().contains(session_key(session)),
        store.cores[session_key(session)].records.len() <= u64::MAX,
        forall|i: int|
            0 <= i < store.cores[session_key(session)].records.len() ==> (
            #[trigger] store.cores[session_key(session)].records[i]).seq == i + 1,
        store.sessions[session_key(session)].core_through
            <= store.cores[session_key(session)].records.len(),
        store.recovery(session, now).1 is None,
    ensures
        ({
            let core = store.cores[session_key(session)];
            let through = store.sessions[session_key(session)].core_through;
            let after = store.recovery(session, now).0;
            let base = store.history(session).len() as int;
            &&& after.sessions[session_key(session)].core_through == core.records.len()
            &&& after.history(session).len() >= base + core.records.len() - through
            &&& after.history(session).take(base) == store.history(session)
            &&& forall|k: int| through <= k < core.records.len() ==> {
                let entry = #[trigger] after.history(session)[base + k - through];
                &&& entry.occurred_at == now
                &&& entry.event matches StoredEventView::Agent { runtime, record }
                &&& record == core.records[k]
                &&& exists|i: int|
                    0 <= i < core.record_origins.len() && (
                    #[trigger] core.record_origins[i]).number == k + 1
                        && core.record_origins[i].runtime == runtime
            }
        }),
{
    let core = store.cores[session_key(session)];
    let saved = store.session(session);
    let through = saved.core_through;
    let base = store.history(session).len() as int;
    let count = core.records.len() as int;
    let inputs = store.listed_inputs(session);
    let all = reconcile(
        store,
        saved.info.workspace,
        session,
        core,
        through,
        inputs,
        count,
        now,
    );
    lemma_reconcile_logs(store, saved.info.workspace, session, core, through, inputs, count, now);
    let current = all.store;
    let after = store.recovery(session, now).0;
    if saved.runtime is Some {
        let lost = saved.runtime->0.id;
        let interrupted = current.entered_inputs(session, lost);
        lemma_changes(
            current,
            session,
            all_to(interrupted, InputState::Interrupted { runtime: lost }),
        );
        assert(after.history(session).take(current.history(session).len() as int)
            =~= current.history(session));
    }
    assert(after.history(session).take(base) =~= store.history(session)) by {
        assert forall|k: int| 0 <= k < base implies after.history(session)[k] == store.history(
            session,
        )[k] by {
            assert(after.history(session)[k] == current.history(session)[k]);
            assert(current.history(session).take(base)[k] == current.history(session)[k]);
        }
    }
    assert forall|k: int| through <= k < core.records.len() implies {
        let entry = #[trigger] after.history(session)[base + k - through];
        &&& entry.occurred_at == now
        &&& entry.event matches StoredEventView::Agent { runtime, record }
        &&& record == core.records[k]
        &&& exists|i: int|
            0 <= i < core.record_origins.len() && (#[trigger] core.record_origins[i]).number == k
                + 1 && core.record_origins[i].runtime == runtime
    } by {
        let entry = current.history(session)[base + k - through];
        assert(after.history(session)[base + k - through] == entry);
        let i = choose|i: int| #[trigger] origin_at(core.record_origins, (k + 1) as u64, i);
        assert(core.record_origins[i].number == k + 1);
    }
}

/// A write of a session that waits for its outcome, or came back without a known effect, can always
/// be settled by the user, with any known effect. Then it has left the ledger and the attention
/// items, what the user found is kept under its call, and the history ends with the finding. No
/// other write is touched.
pub proof fn law_open_writes_can_be_settled(
    store: StoreView,
    workspace: WorkspaceId,
    session: SessionId,
    call: CallRef,
    resolution: WriteResolution,
    now: i64,
    other: DocumentKey,
)
    requires
        store.writes.dom().contains(write_key(workspace, call)),
        store.writes[write_key(workspace, call)].session == session,
        store.writes[write_key(workspace, call)].state is Pending || (store.writes[write_key(
            workspace,
            call,
        )].state matches WriteState::Finished(outcome) && outcome.external_effect
            == ExternalEffect::Unknown),
        resolution.external_effect != ExternalEffect::Unknown,
    ensures
        store.resolving(workspace, session, call, resolution.external_effect)
            == ResolveWriteResult::Applied,
        ({
            let key = write_key(workspace, call);
            let after = store.with_resolution(workspace, session, call, resolution, now);
            &&& !after.writes.dom().contains(key)
            &&& !after.unsettled.dom().contains(key)
            &&& after.write_resolutions.dom().contains(key)
            &&& after.write_resolutions[key].session == session
            &&& after.write_resolutions[key].external_effect == resolution.external_effect
            &&& after.history(session).len() == store.history(session).len() + 1
            &&& after.history(session).last().occurred_at == now
            &&& after.history(session).last().event == StoredEventView::App(
                SessionEventView::WriteResolved {
                    call,
                    external_effect: resolution.external_effect,
                    evidence: resolution.evidence,
                },
            )
            &&& other != key ==> {
                &&& after.writes.dom().contains(other) == store.writes.dom().contains(other)
                &&& store.writes.dom().contains(other) ==> after.writes[other]
                    == store.writes[other]
                &&& after.write_resolutions.dom().contains(other)
                    == store.write_resolutions.dom().contains(other)
            }
            &&& after.inputs == store.inputs
            &&& after.sessions == store.sessions
        }),
{
}

/// A finding never contradicts what is known. A write that came back with a known effect is settled
/// only with that effect, and any other one is refused with what is known; so is a finding against
/// an earlier one. A write of another session, and one that was never begun, is left alone.
pub proof fn law_findings_agree_with_what_is_known(
    store: StoreView,
    workspace: WorkspaceId,
    session: SessionId,
    call: CallRef,
    effect: ExternalEffect,
)
    ensures
        ({
            let key = write_key(workspace, call);
            let answer = store.resolving(workspace, session, call, effect);
            &&& store.writes.dom().contains(key) ==> {
                &&& store.writes[key].session != session ==> answer == ResolveWriteResult::Unchanged
                &&& store.writes[key].session == session ==> (
                store.writes[key].state matches WriteState::Finished(outcome) ==> {
                    &&& outcome.external_effect == effect ==> answer == ResolveWriteResult::Applied
                    &&& outcome.external_effect != effect && outcome.external_effect
                        != ExternalEffect::Unknown ==> answer == ResolveWriteResult::Conflicts(
                        outcome.external_effect,
                    )
                })
            }
            &&& !store.writes.dom().contains(key) ==> {
                let settled = store.write_resolutions.dom().contains(key)
                    && store.write_resolutions[key].session == session;
                &&& !settled ==> answer == ResolveWriteResult::Unchanged
                &&& settled && store.write_resolutions[key].external_effect == effect ==> answer
                    == ResolveWriteResult::AlreadyResolved(effect)
                &&& settled && store.write_resolutions[key].external_effect != effect ==> answer
                    == ResolveWriteResult::Conflicts(store.write_resolutions[key].external_effect)
            }
        }),
{
}

/// Every archived record of the agent is shown for what it is: replies, questions to the user,
/// failed routings, results, finished inputs and tool results, each with the content of its record
/// and under its runtime. Nothing else of the agent is shown, nor a question that no input waits
/// for. What the application has noted itself is shown as it is.
pub proof fn law_records_are_shown_for_what_they_are(
    runtime: RuntimeId,
    record: RecordView,
    event: SessionEventView,
)
    ensures
        shown(StoredEventView::App(event)) == Some(event),
        ({
            let seen = shown(StoredEventView::Agent { runtime, record });
            match record.body {
                RecordBodyView::Reply { job, inputs, text } => {
                    &&& seen matches Some(
                        SessionEventView::Reply { job: shown_job, inputs: all, text: words },
                    )
                    &&& shown_job.runtime == runtime
                    &&& shown_job.id == job
                    &&& all == inputs
                    &&& words == text
                },
                RecordBodyView::Clarification { inputs, question } => if inputs.len() == 0 {
                    seen is None
                } else {
                    &&& seen matches Some(
                        SessionEventView::QuestionAsked { question: id, inputs: all, text },
                    )
                    &&& id.runtime == runtime
                    &&& id.record == record.seq
                    &&& id.reply_to == inputs[0]
                    &&& all == inputs
                    &&& text == question
                },
                RecordBodyView::InputRoutingFailed { inputs, message } => {
                    &&& seen matches Some(
                        SessionEventView::RoutingFailed {
                            runtime: by,
                            inputs: all,
                            message: words,
                        },
                    )
                    &&& by == runtime
                    &&& all == inputs
                    &&& words == message
                },
                RecordBodyView::Outcome { job, kind, summary, remaining, .. } => {
                    &&& seen matches Some(
                        SessionEventView::JobFinished {
                            job: shown_job,
                            outcome,
                            summary: words,
                            remaining: left,
                        },
                    )
                    &&& shown_job.runtime == runtime
                    &&& shown_job.id == job
                    &&& outcome == kind
                    &&& words == summary
                    &&& left == remaining
                },
                RecordBodyView::InputFinished { input, outcome } => {
                    &&& seen matches Some(
                        SessionEventView::InputFinished {
                            runtime: by,
                            input: id,
                            outcome: ended,
                        },
                    )
                    &&& by == runtime
                    &&& id == input
                    &&& ended == outcome
                },
                RecordBodyView::ToolFinished { job, call, tool, outcome } => {
                    &&& seen matches Some(
                        SessionEventView::ToolFinished {
                            call: shown_call,
                            job: shown_job,
                            tool: name,
                            outcome: returned,
                        },
                    )
                    &&& shown_call.runtime == runtime
                    &&& shown_call.id == call
                    &&& shown_job.runtime == runtime
                    &&& shown_job.id == job
                    &&& name == tool
                    &&& returned == outcome
                },
                _ => seen is None,
            }
        }),
{
}

/// Every entry of a range that is shown is there, with its position and time; nothing else is, and
/// positions ascend.
proof fn lemma_shown_entries(history: Seq<StoredEntryView>, from: int, to: int)
    requires
        0 <= from,
        to <= u64::MAX,
    ensures
        ({
            let items = shown_entries(history, from, to);
            &&& forall|k: int|
                from <= k < to && shown((#[trigger] history[k]).event) is Some ==> exists|i: int|
                    {
                        &&& 0 <= i < items.len()
                        &&& (#[trigger] items[i]).sequence.0 == k + 1
                        &&& items[i].occurred_at == history[k].occurred_at
                        &&& Some(items[i].event) == shown(history[k].event)
                    }
            &&& forall|i: int|
                0 <= i < items.len() ==> {
                    &&& from < (#[trigger] items[i]).sequence.0 <= to
                    &&& Some(items[i].event) == shown(history[items[i].sequence.0 - 1].event)
                    &&& items[i].occurred_at == history[items[i].sequence.0 - 1].occurred_at
                }
            &&& forall|i: int, j: int|
                0 <= i < j < items.len() ==> (#[trigger] items[i]).sequence.0 < (
                #[trigger] items[j]).sequence.0
        }),
    decreases to - from,
{
    if from < to {
        lemma_shown_entries(history, from, to - 1);
        let head = shown_entries(history, from, to - 1);
        let items = shown_entries(history, from, to);
        assert forall|k: int|
            from <= k < to && shown((#[trigger] history[k]).event) is Some implies exists|i: int|
            {
                &&& 0 <= i < items.len()
                &&& (#[trigger] items[i]).sequence.0 == k + 1
                &&& items[i].occurred_at == history[k].occurred_at
                &&& Some(items[i].event) == shown(history[k].event)
            } by {
            if k < to - 1 {
                let i = choose|i: int|
                    {
                        &&& 0 <= i < head.len()
                        &&& (#[trigger] head[i]).sequence.0 == k + 1
                        &&& head[i].occurred_at == history[k].occurred_at
                        &&& Some(head[i].event) == shown(history[k].event)
                    };
                assert(items[i] == head[i]);
            } else {
                assert(items[items.len() - 1].sequence.0 == k + 1);
            }
        }
        assert forall|i: int| 0 <= i < items.len() implies {
            &&& from < (#[trigger] items[i]).sequence.0 <= to
            &&& Some(items[i].event) == shown(history[items[i].sequence.0 - 1].event)
            &&& items[i].occurred_at == history[items[i].sequence.0 - 1].occurred_at
        } by {
            if i < head.len() {
                assert(items[i] == head[i]);
            }
        }
        assert forall|i: int, j: int| 0 <= i < j < items.len() implies (
        #[trigger] items[i]).sequence.0 < (#[trigger] items[j]).sequence.0 by {
            assert(items[i] == head[i]);
            if j < head.len() {
                assert(items[j] == head[j]);
            }
        }
    }
}

/// Reading the history forwards loses nothing: a page moves on as long as there is more, by at most
/// the entries that it was asked for, and says whether there is more. It holds every reply of the
/// agent in the part that it covers, with its text, and all that it holds is from there, in order.
pub proof fn law_history_pages_lose_nothing(
    store: StoreView,
    session: SessionId,
    after: SessionSeq,
    limit: usize,
    page: HistoryPage,
    k: int,
)
    requires
        store.history(session).len() <= i64::MAX,
        after.0 <= i64::MAX,
        store.shows_history(session, after, limit, page),
        after.0 <= k < page.next_cursor.0,
        k < store.history(session).len(),
    ensures
        ({
            let history = store.history(session);
            let items = page.items@;
            &&& page.has_more <==> page.next_cursor.0 < history.len()
            &&& page.next_cursor.0 <= history.len()
            &&& limit >= 1 ==> page.next_cursor.0 <= after.0 + limit
            &&& limit >= 1 && page.has_more ==> page.next_cursor.0 == after.0 + limit
            &&& history[k].event matches StoredEventView::Agent { runtime, record } ==> (
            record.body matches RecordBodyView::Reply { job, inputs, text } ==> exists|i: int|
                {
                    &&& 0 <= i < items.len()
                    &&& (#[trigger] items[i])@.sequence.0 == k + 1
                    &&& items[i]@.occurred_at == history[k].occurred_at
                    &&& items[i]@.event == (SessionEventView::Reply {
                        job: JobRef { runtime, id: job },
                        inputs,
                        text,
                    })
                })
            &&& shown(history[k].event) is Some ==> exists|i: int|
                {
                    &&& 0 <= i < items.len()
                    &&& (#[trigger] items[i])@.sequence.0 == k + 1
                    &&& items[i]@.occurred_at == history[k].occurred_at
                    &&& Some(items[i]@.event) == shown(history[k].event)
                }
            &&& forall|i: int|
                0 <= i < items.len() ==> {
                    &&& after.0 < (#[trigger] items[i])@.sequence.0 <= page.next_cursor.0
                    &&& Some(items[i]@.event) == shown(history[items[i]@.sequence.0 - 1].event)
                }
            &&& forall|i: int, j: int|
                0 <= i < j < items.len() ==> (#[trigger] items[i])@.sequence.0 < (
                #[trigger] items[j])@.sequence.0
        }),
{
    let history = store.history(session);
    let items = page.items@;
    let views = entry_views(items);
    lemma_shown_entries(history, after.0 as int, page.next_cursor.0 as int);
    assert(views.len() == items.len());
    assert forall|i: int| 0 <= i < items.len() implies #[trigger] items[i]@ == views[i] by {}
    if shown(history[k].event) is Some {
        let i = choose|i: int|
            {
                &&& 0 <= i < views.len()
                &&& (#[trigger] views[i]).sequence.0 == k + 1
                &&& views[i].occurred_at == history[k].occurred_at
                &&& Some(views[i].event) == shown(history[k].event)
            };
        assert(items[i]@ == views[i]);
    }
    assert forall|i: int, j: int| 0 <= i < j < items.len() implies (
    #[trigger] items[i])@.sequence.0 < (#[trigger] items[j])@.sequence.0 by {
        assert(items[i]@ == views[i]);
        assert(items[j]@ == views[j]);
        assert(views[i].sequence.0 < views[j].sequence.0);
    }
    assert forall|i: int| 0 <= i < items.len() implies {
        &&& after.0 < (#[trigger] items[i])@.sequence.0 <= page.next_cursor.0
        &&& Some(items[i]@.event) == shown(history[items[i]@.sequence.0 - 1].event)
    } by {
        assert(items[i]@ == views[i]);
    }
}

/// Reading the history from the recent end loses nothing: the first page covers the last entries, as
/// many as it was asked for, an older one those before its cursor. What a page covers and is shown
/// stands in it, with its position; where older entries are left, the cursor goes on exactly there.
pub proof fn law_recent_history_loses_nothing(
    store: StoreView,
    session: SessionId,
    cursor: Option<crate::api::HistoryCursor>,
    limit: usize,
    page: RecentHistoryPage,
    k: int,
)
    requires
        store.history(session).len() < u64::MAX,
        store.shows_recent_history(session, cursor, limit, page),
        limit >= 1,
        cursor matches Some(cursor) ==> cursor.through.0 <= store.history(session).len()
            && 1 <= cursor.before.0 <= cursor.through.0 + 1,
        0 <= k,
        k < (match cursor {
            Some(cursor) => cursor.before.0 - 1,
            None => store.history(session).len() as int,
        }),
        k + limit >= (match cursor {
            Some(cursor) => cursor.before.0 - 1,
            None => store.history(session).len() as int,
        }),
    ensures
        ({
            let history = store.history(session);
            let end = match cursor {
                Some(cursor) => cursor.before.0 - 1,
                None => history.len() as int,
            };
            let items = page.items@;
            &&& shown(history[k].event) is Some ==> exists|i: int|
                {
                    &&& 0 <= i < items.len()
                    &&& (#[trigger] items[i])@.sequence.0 == k + 1
                    &&& items[i]@.occurred_at == history[k].occurred_at
                    &&& Some(items[i]@.event) == shown(history[k].event)
                }
            &&& page.older_cursor is Some <==> end > limit
            &&& page.older_cursor matches Some(older) ==> {
                &&& older.session == session
                &&& older.before.0 == end - limit + 1
                &&& older.through.0 == (match cursor {
                    Some(cursor) => cursor.through.0 as int,
                    None => history.len() as int,
                })
            }
        }),
{
    let history = store.history(session);
    let items = page.items@;
    let views = entry_views(items);
    let end = match cursor {
        Some(cursor) => cursor.before.0 - 1,
        None => history.len() as int,
    };
    let start = if end > limit { end - limit } else { 0 };
    lemma_shown_entries(history, start, end);
    assert(views == shown_entries(history, start, end));
    assert(views.len() == items.len());
    if shown(history[k].event) is Some {
        let i = choose|i: int|
            {
                &&& 0 <= i < views.len()
                &&& (#[trigger] views[i]).sequence.0 == k + 1
                &&& views[i].occurred_at == history[k].occurred_at
                &&& Some(views[i].event) == shown(history[k].event)
            };
        assert(items[i]@ == views[i]);
    }
}

/// Once a decision was recorded, it is the newest one of its result, in the words of the
/// submission: with its decision, its reason, its request and its result, at the position that the
/// receipt gives. The history has it at that position, and the decisions before it stay.
pub proof fn law_recorded_decision_is_the_newest(
    store: StoreView,
    id: AcceptanceId,
    submission: AcceptanceSubmission,
    now: i64,
    limit: usize,
)
    requires
        store.acceptances.dom().finite(),
        store.history(submission.result.session).len() + 2 <= u64::MAX,
        !store.acceptance_requests.dom().contains(
            super::keys::acceptance_request_key(submission.result.session, submission.request_id),
        ),
        store.acceptance_outcome(id, submission, now).1 is Ok,
        forall|key: DocumentKey| #[trigger]
            store.acceptances.dom().contains(key) && key.owner == submission.result.session.0
                && key.item == submission.result.version.0 ==> {
                &&& store.acceptances[key].result == submission.result
                &&& key == acceptance_key(submission.result, store.acceptances[key].saved_at)
                &&& store.acceptances[key].saved_at.0 <= store.history(
                    submission.result.session,
                ).len()
            },
    ensures
        ({
            let (after, answer) = store.acceptance_outcome(id, submission, now);
            let receipt = answer->Ok_0.0;
            let history = after.history(submission.result.session);
            &&& after.acceptance_page(submission.result, None, limit) matches Ok((items, older))
            &&& items.len() > 0
            &&& items.last().id == id
            &&& items.last().decision == submission.decision
            &&& items.last().reason == submission.reason
            &&& items.last().request_id == submission.request_id
            &&& items.last().result == submission.result
            &&& items.last().saved_at == receipt.saved_at
            &&& items.last().rework == receipt.rework
            &&& receipt.id == id
            &&& receipt.saved_at.0 == store.history(submission.result.session).len() + 1
            &&& history[receipt.saved_at.0 - 1].occurred_at == now
            &&& history[receipt.saved_at.0 - 1].event == StoredEventView::App(
                SessionEventView::AcceptanceRecorded {
                    acceptance: id,
                    result: submission.result,
                    decision: submission.decision,
                    reason: submission.reason,
                },
            )
            &&& forall|key: DocumentKey| #[trigger]
                store.acceptances.dom().contains(key) ==> after.acceptances.dom().contains(key)
                    && after.acceptances[key] == store.acceptances[key]
        }),
{
    let (after, answer) = store.acceptance_outcome(id, submission, now);
    let receipt = answer->Ok_0.0;
    let session = submission.result.session;
    let result = submission.result;
    let position = receipt.saved_at;
    let key = acceptance_key(result, position);
    let range = acceptances_before(result, None);
    assert(!store.acceptances.dom().contains(key));
    assert(after.acceptances.dom() =~= store.acceptances.dom().insert(key));
    law_listings_are_complete(after.acceptances.dom(), range);
    let all = listing(after.acceptances.dom(), range);
    let bound = super::history::at_least_one(limit) as nat;
    let last = last_of(all, bound);
    let values = last.map_values(|key: DocumentKey| after.acceptances[key]);
    assert(all.contains(key));
    let at = choose|at: int| 0 <= at < all.len() && all[at] == key;
    assert forall|i: int| 0 <= i < all.len() implies {
        &&& #[trigger] after.acceptances.dom().contains(all[i])
        &&& range.admits(all[i])
        &&& all[i] == acceptance_key(result, after.acceptances[all[i]].saved_at)
        &&& after.acceptances[all[i]].result == result
        &&& (all[i] != key ==> after.acceptances[all[i]].saved_at.0 < position.0)
    } by {
        assert(all.contains(all[i]));
        if all[i] != key {
            assert(store.acceptances.dom().contains(all[i]));
        }
    }
    if at < all.len() - 1 {
        assert(all[at].precedes(all[all.len() - 1]));
        assert(after.acceptances.dom().contains(all[all.len() - 1]));
    }
    assert(all[all.len() - 1] == key);
    assert(last.last() == key);
    assert(values.last() == after.acceptances[key]);
    assert forall|i: int, j: int| 0 <= i <= j < values.len() implies position_of()(
        #[trigger] values[i],
    ) <= position_of()(#[trigger] values[j]) by {
        let skip = all.len() - last.len();
        assert(last[i] == all[skip + i]);
        assert(last[j] == all[skip + j]);
        assert(after.acceptances.dom().contains(all[skip + i]));
        assert(after.acceptances.dom().contains(all[skip + j]));
        if i < j {
            assert(all[skip + i].precedes(all[skip + j]));
        }
    }
    lemma_sorted_by_fixes(values, position_of());
    assert forall|i: int| #![trigger values[i]] 0 <= i < values.len() implies values[i].result
        == result by {
        let skip = all.len() - last.len();
        assert(last[i] == all[skip + i]);
        assert(after.acceptances.dom().contains(all[skip + i]));
    }
    let logged = store.history(session);
    assert(after.history(session)[position.0 - 1] == (StoredEntryView {
        occurred_at: now,
        event: super::acceptance::acceptance_event(id, submission),
    }));
}

/// The rework that comes with a decision is an input of its own, with the words and the request of
/// the rework, and waits for its delivery.
pub proof fn law_rework_becomes_an_input(
    store: StoreView,
    id: AcceptanceId,
    submission: AcceptanceSubmission,
    now: i64,
)
    requires
        store.history(submission.result.session).len() + 2 <= u64::MAX,
        !store.acceptance_requests.dom().contains(
            super::keys::acceptance_request_key(submission.result.session, submission.request_id),
        ),
        store.acceptance_outcome(id, submission, now).1 is Ok,
    ensures
        ({
            let (after, answer) = store.acceptance_outcome(id, submission, now);
            let (receipt, input) = answer->Ok_0;
            let session = submission.result.session;
            match submission.rework {
                None => receipt.rework is None && input is None && after.inputs == store.inputs,
                Some(rework) => {
                    &&& receipt.rework matches Some(saved)
                    &&& input matches Some(input)
                    &&& saved.saved_at.0 == receipt.saved_at.0 + 1
                    &&& saved.input == input.id
                    &&& input.text == rework.text
                    &&& input.request_id == rework.request_id
                    &&& input.reply_to == rework.reply_to
                    &&& input.state == (InputState::Queued { problem: None })
                    &&& after.inputs.dom().contains(input_key(session, input.id))
                    &&& after.inputs[input_key(session, input.id)] == input
                    &&& after.history(session)[saved.saved_at.0 - 1].event == StoredEventView::App(
                        SessionEventView::InputSubmitted {
                            input: input.id,
                            request_id: rework.request_id,
                            text: rework.text,
                            reply_to: rework.reply_to,
                        },
                    )
                },
            }
        }),
{
}

} // verus!

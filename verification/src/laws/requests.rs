//! What a session takes from its callers and from its agent.

use vstd::prelude::*;

use crate::api::{
    AcceptanceDecision, AcceptanceReceipt, AcceptanceSubmission, CallRef, HistoryCursor,
    SubmitInput, WriteResolution,
};
use crate::error::Error;
use crate::document::DocumentKey;
use crate::ids::{AcceptanceId, RuntimeId, SessionId};
use crate::laws::records::law_saved_record_is_kept;
use crate::persistence::keys::{
    acceptance_request_key, core_key, input_key, request_key, session_key, write_key,
};

use crate::persistence::{StoreView, StoredEntryView, StoredEventView};
use crate::record::{ExternalEffect, RecordView, ToolOutcome};
use crate::seqs::lemma_filter_keeps;
use crate::session::actor::{listed_in, submits_acceptance, SessionActor};
use crate::session::agent::{AgentView, CallStatus};
use crate::session::archive::{archives_record, archives_snapshot};
use crate::session::changes::changes_of;
use crate::session::commands::{confirms_runtime, is_unsettled, knows_outcome, names_unsettled};
use crate::session::requests::{
    admits_acceptance, admits_cursor, admits_draft, admits_input, admits_resolution, bounds_page,
};
use crate::text::{byte_count, is_blank};

verus! {

/// A page holds at least one entry and at most as many as a page may. Between these it holds what
/// is asked for.
pub proof fn law_pages_hold_what_is_asked_for(limit: usize, most: usize, r: usize)
    requires
        most >= 1,
        bounds_page(limit, most, r),
    ensures
        1 <= r <= most,
        1 <= limit <= most ==> r == limit,
        limit > most ==> r == most,
        limit == 0 ==> r == 1,
{
}

/// Inputs, drafts and findings of up to one mebibyte are taken, and longer ones are refused.
pub proof fn law_long_texts_are_refused(
    input: SubmitInput,
    submitted: Result<(), Error>,
    draft: Seq<char>,
    drafted: Result<(), Error>,
    resolution: WriteResolution,
    resolved: Result<(), Error>,
)
    requires
        admits_input(input, submitted),
        admits_draft(draft, drafted),
        admits_resolution(resolution, resolved),
    ensures
        submitted is Ok <==> byte_count(input.text@) <= 1_048_576,
        submitted matches Err(error) ==> error.is_invalid("input exceeds 1 MiB"@),
        drafted is Ok <==> byte_count(draft) <= 1_048_576,
        drafted matches Err(error) ==> error.is_invalid("draft exceeds 1 MiB"@),
        resolved is Ok <==> byte_count(resolution.evidence@) <= 1_048_576,
        resolved matches Err(error) ==> error.is_invalid("write resolution evidence exceeds 1 MiB"@),
{
}

/// A history is read from its beginning or from a place of its own.
pub proof fn law_histories_are_read_from_their_own_places(
    session: SessionId,
    cursor: Option<HistoryCursor>,
    r: Result<(), Error>,
)
    requires
        admits_cursor(session, cursor, r),
    ensures
        r is Ok <==> (cursor is None || cursor->0.session == session),
        r matches Err(error) ==> error.is_invalid("history cursor belongs to another session"@),
{
}

/// A decision is taken for a result of its own session, with a reason of up to one mebibyte. Only an
/// acceptance needs no reason. A rejection brings the input that asks for rework, which answers no
/// question and has up to one mebibyte; no other decision brings one.
pub proof fn law_decisions_are_complete(
    session: SessionId,
    submission: AcceptanceSubmission,
    r: Result<(), Error>,
)
    requires
        admits_acceptance(session, submission, r),
    ensures
        r is Ok <==> {
            &&& submission.result.session == session
            &&& byte_count(submission.reason@) <= 1_048_576
            &&& submission.decision == AcceptanceDecision::Accepted || !is_blank(submission.reason@)
            &&& submission.decision == AcceptanceDecision::Rejected <==> submission.rework is Some
            &&& submission.rework matches Some(input) ==> byte_count(input.text@) <= 1_048_576
                && input.reply_to is None
        },
{
}

/// Only the runtime that runs is confirmed; any other is reported as stale.
pub proof fn law_only_the_current_runtime_is_confirmed(
    actor: SessionActor,
    runtime: RuntimeId,
    r: Result<(), Error>,
)
    requires
        confirms_runtime(actor, runtime, r),
    ensures
        r is Ok <==> actor.runtime is Some && actor.runtime->0.id == runtime,
        r matches Err(error) ==> error == Error::StaleRuntime(runtime),
{
}

/// The calls that await a finding are those that ended without anybody knowing what they changed,
/// under the runtime that started them. Each of them is named, and no other.
pub proof fn law_uncertain_calls_are_named(
    actor: SessionActor,
    store: StoreView,
    view: AgentView,
    r: Seq<CallRef>,
    at: int,
)
    requires
        names_unsettled(actor, store, view, r),
    ensures
        0 <= at < view.calls@.len() && view.calls@[at].status == (CallStatus::Finished {
            external_effect: ExternalEffect::Unknown,
        }) && store.core_calls.dom().contains(core_key(actor.info.id, view.calls@[at].id))
            ==> r.contains(
            CallRef {
                runtime: store.core_calls[core_key(actor.info.id, view.calls@[at].id)],
                id: view.calls@[at].id,
            },
        ),
        0 <= at < r.len() ==> {
            &&& store.core_calls.dom().contains(core_key(actor.info.id, r[at].id))
            &&& r[at].runtime == store.core_calls[core_key(actor.info.id, r[at].id)]
            &&& exists|i: int|
                0 <= i < view.calls@.len() && (#[trigger] view.calls@[i]).id == r[at].id
                    && view.calls@[i].status == (CallStatus::Finished {
                    external_effect: ExternalEffect::Unknown,
                })
        },
{
    broadcast use vstd::seq_lib::group_filter_ensures;

    let calls = view.calls@;
    let keep = is_unsettled(store, actor.info.id);
    if 0 <= at < calls.len() && keep(calls[at]) {
        let kept = calls.filter(keep);
        assert(kept.contains(calls[at]));
        let i = choose|i: int| 0 <= i < kept.len() && kept[i] == calls[at];
        assert(r[i].id == calls[at].id);
    }
    if 0 <= at < r.len() {
        lemma_filter_keeps(calls, keep, at);
        let i = choose|i: int| 0 <= i < calls.len() && calls[i] == calls.filter(keep)[at];
        assert(calls[i].id == r[at].id);
    }
}

/// A record of the agent is archived once: the next one after what the store has is appended to the
/// history under the runtime that it came from, and the session and its runtime have come as far as
/// it; one that the store has already only moves the runtime on. A record without a known runtime
/// is refused, and a refused record changes nothing.
pub proof fn law_records_are_archived_once(
    actor: SessionActor,
    stored: StoreView,
    record: RecordView,
    now: i64,
    next: SessionActor,
    kept: StoreView,
    r: Result<(), Error>,
)
    requires
        actor.runtime is Some,
        stored.sessions.dom().contains(session_key(actor.info.id)),
        archives_record(actor, stored, record, now, next, kept, r),
    ensures
        ({
            let session = actor.info.id;
            let known = stored.core_records.dom().contains(core_key(session, record.seq));
            let runtime = stored.core_records[core_key(session, record.seq)];
            let through = stored.sessions[session_key(session)].core_through;
            &&& r is Err ==> kept == stored && next.inputs@ == actor.inputs@
                && next.runtime->0.agent_through == actor.runtime->0.agent_through
            &&& !known ==> (r matches Err(error) && error.is_agent(
                "Core record has no runtime provenance"@,
            ))
            &&& r is Ok ==> next.runtime->0.agent_through == record.seq && next.runtime->0.id
                == actor.runtime->0.id && next.info == actor.info
            &&& r is Ok && record.seq <= through ==> kept.journals == stored.journals
                && kept.sessions == stored.sessions
            &&& r is Ok && record.seq > through ==> {
                &&& record.seq == through + 1
                &&& kept.history(session) == stored.history(session).push(
                    StoredEntryView {
                        occurred_at: now,
                        event: StoredEventView::Agent { runtime, record },
                    },
                )
                &&& kept.sessions[session_key(session)].core_through == record.seq
                &&& kept.sessions[session_key(session)].agent_through == record.seq
            }
        }),
{
    let session = actor.info.id;
    let runtime = stored.core_records[core_key(session, record.seq)];
    let changes = changes_of(runtime, record, listed_in(session, actor.inputs@));
    if r is Ok && record.seq > stored.sessions[session_key(session)].core_through {
        let saved = stored.with_record(session, runtime, record, changes, now);
        law_saved_record_is_kept(
            stored,
            session,
            runtime,
            record,
            changes,
            now,
            saved,
            Ok(Some(stored.next_seq(session))),
        );
    }
}

/// Of a snapshot only the records that the runtime has not archived yet are taken: with none of
/// them nothing changes, and records that were archived before make no difference.
pub proof fn law_snapshots_are_archived_from_where_they_were_left(
    actor: SessionActor,
    stored: StoreView,
    records: Seq<RecordView>,
    now: i64,
    next: SessionActor,
    kept: StoreView,
    r: Result<(), Error>,
)
    requires
        archives_snapshot(actor, stored, records, now, next, kept, r),
    ensures
        actor.runtime is None ==> r is Ok && kept == stored && next == actor,
        actor.runtime is Some && (forall|i: int|
            0 <= i < records.len() ==> (#[trigger] records[i]).seq
                <= actor.runtime->0.agent_through) ==> r is Ok && kept == stored && next.inputs@
            == actor.inputs@ && next.runtime->0.agent_through == actor.runtime->0.agent_through,
        actor.runtime is Some && records.len() > 0 && r is Ok && records.last().seq
            > actor.runtime->0.agent_through ==> next.runtime->0.agent_through
            == records.last().seq,
        next.info == actor.info,
{
    if actor.runtime is Some {
        let keep = crate::session::archive::comes_after(actor.runtime->0.agent_through);
        let fresh = records.filter(keep);
        if forall|i: int|
            0 <= i < records.len() ==> (#[trigger] records[i]).seq
                <= actor.runtime->0.agent_through {
            if fresh.len() > 0 {
                lemma_filter_keeps(records, keep, 0);
                let i = choose|i: int| 0 <= i < records.len() && records[i] == fresh[0];
                assert(records[i].seq > actor.runtime->0.agent_through);
            }
        }
        if records.len() > 0 && records.last().seq > actor.runtime->0.agent_through {
            reveal(Seq::filter);
            assert(fresh.len() > 0 && fresh.last() == records.last());
        }
    }
}

/// A rework that comes with a decision is held as long as it is not ended, and is found in the
/// store; nothing else that is held changes. A refused decision changes neither.
pub proof fn law_rework_is_held(
    before: SessionActor,
    stored: StoreView,
    id: AcceptanceId,
    submission: AcceptanceSubmission,
    now: i64,
    after: SessionActor,
    saved: StoreView,
    r: Result<AcceptanceReceipt, Error>,
    other: DocumentKey,
)
    requires
        submits_acceptance(before, stored, id, submission, now, after, saved, r),
        submission.result.session == before.info.id,
    ensures
        ({
            let session = before.info.id;
            let fresh = !stored.acceptance_requests.dom().contains(
                acceptance_request_key(session, submission.request_id),
            );
            &&& r is Err ==> after == before && saved == stored
            &&& !fresh ==> saved == stored
            &&& after == (SessionActor { inputs: after.inputs, ..before })
            &&& r is Ok && fresh ==> (submission.rework matches Some(input) ==> {
                let receipt = r->Ok_0.rework;
                let held = after.inputs@[input_key(session, receipt->0.input)];
                &&& receipt is Some
                &&& after.inputs@.dom().contains(input_key(session, receipt->0.input))
                &&& held.text == input.text
                &&& held.request_id == input.request_id
                &&& held.state is Queued
                &&& held.id == receipt->0.input
                &&& other != input_key(session, receipt->0.input) ==> after.inputs@.dom().contains(
                    other,
                ) == before.inputs@.dom().contains(other) && after.inputs@[other]
                    == before.inputs@[other]
            })
            &&& r is Ok && fresh && submission.rework is None ==> after.inputs@ == before.inputs@
                && r->Ok_0.rework is None
            &&& r is Ok && !fresh ==> r->Ok_0 == stored.acceptance_requests[acceptance_request_key(
                session,
                submission.request_id,
            )].receipt
        }),
{
}

/// What is known of a call of the running agent is told: the outcome of a write that has returned
/// with a known effect, else the finding about it, with its effect. Nothing is told of a call that
/// the session did not start, or without a runtime.
pub proof fn law_known_outcomes_are_told(
    actor: SessionActor,
    store: StoreView,
    call: CallRef,
    outcome: Option<ToolOutcome>,
)
    requires
        knows_outcome(actor, store, call, outcome),
    ensures
        ({
            let session = actor.info.id;
            let key = write_key(actor.info.workspace, call);
            let own = actor.runtime is Some && store.core_calls.dom().contains(
                core_key(session, call.id),
            ) && store.core_calls[core_key(session, call.id)] == call.runtime;
            let returned = store.writes.dom().contains(key) && store.writes[key].state is Finished
                && store.writes[key].state->Finished_0.external_effect != ExternalEffect::Unknown;
            let found = store.write_resolutions.dom().contains(key)
                && store.write_resolutions[key].session == session;
            &&& !own ==> outcome is None
            &&& own && returned ==> outcome == Some(store.writes[key].state->Finished_0)
            &&& own && !returned && found ==> outcome is Some && outcome->0.external_effect
                == store.write_resolutions[key].external_effect && outcome->0.result is Err
            &&& own && !returned && !found ==> outcome is None
        }),
{
}

/// A decision whose rework was submitted already, under whatever request, is refused and recorded
/// nowhere.
pub proof fn law_used_rework_is_refused(
    before: SessionActor,
    stored: StoreView,
    id: AcceptanceId,
    submission: AcceptanceSubmission,
    now: i64,
    after: SessionActor,
    saved: StoreView,
    r: Result<AcceptanceReceipt, Error>,
)
    requires
        submits_acceptance(before, stored, id, submission, now, after, saved, r),
        submission.rework is Some,
        !stored.acceptance_requests.dom().contains(
            acceptance_request_key(submission.result.session, submission.request_id),
        ),
        stored.requests.dom().contains(
            request_key(submission.result.session, submission.rework->0.request_id),
        ),
    ensures
        r is Err,
        saved == stored,
        after == before,
{
}

} // verus!

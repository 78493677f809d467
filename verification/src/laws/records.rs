//! What becomes of the agent's commits and records in the durable data.

use vstd::prelude::*;

use crate::api::{EvidenceRef, InputId, InputState, InputView, JobRef, QuestionId, SessionSeq};
use crate::document::DocumentKey;
use crate::error::StoreError;
use crate::ids::{RuntimeId, SessionId};
use crate::persistence::core_state::{
    answers_failed_commit, commits_core, restores_core, DurableCommit, DurableError,
    DurableRestore,
};
use crate::persistence::evidence::{body_pieces, lemma_bodies_frame};
use crate::persistence::inputs::lemma_changes;
use crate::persistence::keys::{core_key, evidence_key, input_key, result_key, session_key, write_key};
use crate::persistence::projection::source_of;
use crate::persistence::records::saves_record;
use crate::persistence::{
    texts, DurableReceipt, SavedSessionView, StoreView, StoredCoreStateView, StoredEntryView,
    StoredEventView,
};
use crate::record::{record_views, ExternalEffect, RecordBodyView, RecordView};
use crate::seqs::lemma_filter_keeps;
use crate::session::changes::{awaits, changed, changes_of, input_at};

verus! {

/// Where a record changes inputs, the last change of an input decides its state. Everything else of
/// it stays, and so does every input that no change names.
pub proof fn law_last_change_decides(
    store: StoreView,
    session: SessionId,
    changes: Seq<(InputId, InputState)>,
    id: InputId,
    at: int,
)
    requires
        forall|i: int|
            0 <= i < changes.len() ==> store.inputs.dom().contains(
                input_key(session, (#[trigger] changes[i]).0),
            ),
    ensures
        ({
            let after = store.with_changes(session, changes);
            let key = input_key(session, id);
            &&& after.inputs.dom() == store.inputs.dom()
            &&& 0 <= at < changes.len() && changes[at].0 == id && (forall|i: int|
                at < i < changes.len() ==> (#[trigger] changes[i]).0 != id) ==> after.inputs[key]
                == (InputView { state: changes[at].1, ..store.inputs[key] })
            &&& (forall|i: int| 0 <= i < changes.len() ==> (#[trigger] changes[i]).0 != id)
                ==> after.inputs[key] == store.inputs[key]
            &&& forall|other: DocumentKey|
                other.owner != session.0 ==> #[trigger] after.inputs[other] == store.inputs[other]
            &&& after == (StoreView { inputs: after.inputs, waiting: after.waiting, ..store })
        }),
    decreases changes.len(),
{
    let key = input_key(session, id);
    assert forall|i: int| 0 <= i < changes.len() implies store.has_input(
        session,
        (#[trigger] changes[i]).0,
    ) by {
        assert(store.inputs.dom().contains(input_key(session, changes[i].0)));
    }
    lemma_changes(store, session, changes);
    if changes.len() > 0 {
        let head = changes.drop_last();
        assert forall|i: int| 0 <= i < head.len() implies store.inputs.dom().contains(
            input_key(session, (#[trigger] head[i]).0),
        ) by {
            assert(head[i] == changes[i]);
        }
        law_last_change_decides(store, session, head, id, at);
        let last = changes.last();
        assert(changes[changes.len() - 1] == last);
        if last.0 == id {
            lemma_state_alone(store, session, head, id);
        } else {
            if 0 <= at < changes.len() && changes[at].0 == id {
                assert(at < head.len());
                assert(head[at] == changes[at]);
                assert forall|i: int|
                    (forall|j: int| at < j < changes.len() ==> (#[trigger] changes[j]).0 != id)
                        && at < i < head.len() implies (#[trigger] head[i]).0 != id by {
                    assert(head[i] == changes[i]);
                }
            }
            assert forall|i: int|
                (forall|j: int| 0 <= j < changes.len() ==> (#[trigger] changes[j]).0 != id) && 0
                    <= i < head.len() implies (#[trigger] head[i]).0 != id by {
                assert(head[i] == changes[i]);
            }
        }
    }
}

/// Changes of inputs touch nothing but their states.
proof fn lemma_state_alone(
    store: StoreView,
    session: SessionId,
    changes: Seq<(InputId, InputState)>,
    id: InputId,
)
    requires
        forall|i: int|
            0 <= i < changes.len() ==> store.inputs.dom().contains(
                input_key(session, (#[trigger] changes[i]).0),
            ),
    ensures
        ({
            let after = store.with_changes(session, changes).inputs[input_key(session, id)];
            after == (InputView {
                state: after.state,
                ..store.inputs[input_key(session, id)]
            })
        }),
    decreases changes.len(),
{
    if changes.len() > 0 {
        let head = changes.drop_last();
        assert forall|i: int| 0 <= i < head.len() implies store.inputs.dom().contains(
            input_key(session, (#[trigger] head[i]).0),
        ) by {
            assert(head[i] == changes[i]);
        }
        lemma_state_alone(store, session, head, id);
    }
}

/// What a record of the agent does to inputs. Routing accepts the inputs that it names, a question
/// makes them wait for the user with that question, a failed routing and an end are noted on them,
/// all for the runtime of the record and in the order of the record. An answer to the open question
/// of an input sets every input free that waits for the same question, and no other. Any other
/// record changes no input.
pub proof fn law_records_change_the_inputs_they_name(
    runtime: RuntimeId,
    record: RecordView,
    inputs: Seq<InputView>,
)
    ensures
        ({
            let changes = changes_of(runtime, record, inputs);
            &&& record.body matches RecordBodyView::RoutingStarted { inputs: named } ==> {
                &&& changes.len() == named.len()
                &&& forall|i: int|
                    0 <= i < named.len() ==> #[trigger] changes[i] == (
                        named[i],
                        InputState::Accepted { runtime },
                    )
            }
            &&& record.body matches RecordBodyView::Clarification { inputs: named, question } ==> {
                &&& changes.len() == named.len()
                &&& forall|i: int|
                    0 <= i < named.len() ==> #[trigger] changes[i] == (
                        named[i],
                        InputState::WaitingForUser {
                            runtime,
                            question: QuestionId { runtime, record: record.seq, reply_to: named[i] },
                            text: question,
                        },
                    )
            }
            &&& record.body matches RecordBodyView::InputRoutingFailed { inputs: named, message }
                ==> {
                &&& changes.len() == named.len()
                &&& forall|i: int|
                    0 <= i < named.len() ==> #[trigger] changes[i] == (
                        named[i],
                        InputState::RoutingFailed { runtime, message },
                    )
            }
            &&& record.body matches RecordBodyView::InputFinished { input, outcome } ==> changes
                == seq![(input, InputState::Finished { runtime, outcome })]
            &&& !(record.body is Input) && !(record.body is RoutingStarted)
                && !(record.body is Clarification) && !(record.body is InputRoutingFailed)
                && !(record.body is InputFinished) ==> changes.len() == 0
        }),
{
}

/// An answer to the open question of an input accepts every input that waits for that question of
/// that runtime, and changes no other.
pub proof fn law_answers_free_all_who_wait(
    runtime: RuntimeId,
    record: RecordView,
    inputs: Seq<InputView>,
    answered: int,
    other: int,
)
    requires
        record.body is Input,
        record.body->Input_reply_to is Some,
        record.body->Input_expected_question is Some,
        forall|i: int, j: int|
            0 <= i < j < inputs.len() ==> (#[trigger] inputs[i]).id != (#[trigger] inputs[j]).id,
        0 <= answered < inputs.len(),
        inputs[answered].id == record.body->Input_reply_to->0,
        inputs[answered].state matches InputState::WaitingForUser { runtime: owner, question, .. }
            && owner == runtime && question.record == record.body->Input_expected_question->0,
        0 <= other < inputs.len(),
    ensures
        ({
            let changes = changes_of(runtime, record, inputs);
            let waits = inputs[other].state matches InputState::WaitingForUser {
                runtime: owner,
                question,
                ..
            } && owner == runtime && question.record == record.body->Input_expected_question->0;
            &&& waits ==> changes.contains((inputs[other].id, InputState::Accepted { runtime }))
            &&& forall|i: int| 0 <= i < changes.len() ==> (#[trigger] changes[i]).1
                == (InputState::Accepted { runtime })
            &&& !waits ==> forall|i: int|
                0 <= i < changes.len() ==> (#[trigger] changes[i]).0 != inputs[other].id
        }),
{
    let asked_record = record.body->Input_expected_question->0;
    assert(input_at(inputs, record.body->Input_reply_to->0, answered));
    assert(awaits(inputs[answered], runtime, asked_record));
    let keep = |input: InputView| awaits(input, runtime, asked_record);
    let kept = inputs.filter(keep);
    let changes = changes_of(runtime, record, inputs);
    assert(changes.len() == kept.len());
    if awaits(inputs[other], runtime, asked_record) {
        inputs.lemma_filter_contains(keep, other);
        let n = choose|n: int| 0 <= n < kept.len() && kept[n] == inputs[other];
        assert(changes[n] == (inputs[other].id, InputState::Accepted { runtime }));
    } else {
        assert forall|i: int| 0 <= i < changes.len() implies (#[trigger] changes[i]).0
            != inputs[other].id by {
            lemma_filter_keeps(inputs, keep, i);
            let m = choose|m: int| 0 <= m < inputs.len() && inputs[m] == kept[i];
            assert(changes[i].0 == kept[i].id);
            if m < other {
                assert(inputs[m].id != inputs[other].id);
            } else if other < m {
                assert(inputs[other].id != inputs[m].id);
            }
        }
    }
}

/// The next record of the agent becomes the new end of the history, under its runtime and with the
/// time of its saving, and the session has come as far as the record. A result is collected under
/// its place in the history with its job, its kind, its summary and what remains; nothing else is.
/// A finished tool with a known effect takes its write out of the ledger once that write has
/// returned; no other write is touched.
pub proof fn law_saved_record_is_kept(
    before: StoreView,
    session: SessionId,
    runtime: RuntimeId,
    record: RecordView,
    changes: Seq<(InputId, InputState)>,
    now: i64,
    after: StoreView,
    r: Result<Option<SessionSeq>, StoreError>,
)
    requires
        saves_record(before, session, runtime, record, changes, now, after, r),
        before.sessions.dom().contains(session_key(session)),
        record.seq > before.sessions[session_key(session)].core_through,
        r is Ok,
    ensures
        ({
            let saved = before.sessions[session_key(session)];
            let workspace = saved.info.workspace;
            let place = before.history(session).len() + 1;
            let collected = result_key(session, SessionSeq(place as u64));
            let source = evidence_key(EvidenceRef { session, record: record.seq });
            &&& record.seq == saved.core_through + 1
            &&& r == Ok::<Option<SessionSeq>, StoreError>(Some(SessionSeq(place as u64)))
            &&& after.history(session) == before.history(session).push(
                StoredEntryView {
                    occurred_at: now,
                    event: StoredEventView::Agent { runtime, record },
                },
            )
            &&& after.sessions == before.sessions.insert(
                session_key(session),
                SavedSessionView {
                    agent_through: record.seq,
                    core_through: record.seq,
                    ..saved
                },
            )
            &&& record.body matches RecordBodyView::Outcome {
                job,
                kind,
                summary,
                remaining,
                evidence,
            } ==> {
                &&& after.results.dom() == before.results.dom().insert(collected)
                &&& after.results[collected].result.session == session
                &&& after.results[collected].result.version.0 == place
                &&& after.results[collected].result.job == (JobRef { runtime, id: job })
                &&& after.results[collected].outcome == kind
                &&& after.results[collected].summary == summary@
                &&& after.results[collected].remaining == texts(remaining)
                &&& after.results[collected].evidence.len() == evidence.len()
                &&& forall|i: int| #![trigger evidence[i]]
                    0 <= i < evidence.len() ==> after.results[collected].evidence[i] == (EvidenceRef {
                        session,
                        record: evidence[i],
                    })
                &&& forall|other: DocumentKey| other != collected && before.results.dom().contains(
                    other,
                ) ==> #[trigger] after.results[other] == before.results[other]
            }
            &&& !(record.body is Outcome) ==> after.results == before.results
            &&& after.evidence_metadata.dom().contains(source)
            &&& after.inputs == before.with_changes(session, changes).inputs
            &&& after.waiting == before.with_changes(session, changes).waiting
            &&& {
                let tool = record.body->ToolFinished_outcome;
                let call = record.body->ToolFinished_call;
                let origin = before.core_calls[core_key(session, call)];
                let write = write_key(workspace, crate::api::CallRef { runtime: origin, id: call });
                let settled = record.body is ToolFinished && tool.external_effect
                    != ExternalEffect::Unknown && before.core_calls.dom().contains(
                    core_key(session, call),
                ) && before.writes.dom().contains(write) && before.writes[write].state is Finished;
                &&& settled ==> after.writes == before.writes.remove(write) && after.unsettled
                    == before.unsettled.remove(write)
                &&& !settled ==> after.writes == before.writes && after.unsettled
                    == before.unsettled
            }
            &&& after == (StoreView {
                journals: after.journals,
                sessions: after.sessions,
                results: after.results,
                inputs: after.inputs,
                waiting: after.waiting,
                writes: after.writes,
                unsettled: after.unsettled,
                evidence_metadata: after.evidence_metadata,
                evidence_bodies: after.evidence_bodies,
                ..before
            })
        }),
{
    lemma_changes(before, session, changes);
    let mid = before.with_changes(session, changes).with_settled(
        before.sessions[session_key(session)].info.workspace,
        session,
        record,
    );
    lemma_bodies_frame(
        mid,
        EvidenceRef { session, record: record.seq },
        body_pieces(source_of(record)),
    );
    assert(after.history(session) =~= before.history(session).push(
        StoredEntryView {
            occurred_at: now,
            event: StoredEventView::Agent { runtime, record },
        },
    ));
    if record.body is Outcome {
        assert(after.results.dom() =~= before.results.dom().insert(
            result_key(session, SessionSeq((before.history(session).len() + 1) as u64)),
        ));
    }
}

/// A record that the history holds already changes nothing and gets no new place; one that leaves a
/// gap, or whose runtime is not the one that committed it, is refused; and whatever is refused
/// changes nothing.
pub proof fn law_records_are_saved_once_and_in_order(
    before: StoreView,
    session: SessionId,
    runtime: RuntimeId,
    record: RecordView,
    changes: Seq<(InputId, InputState)>,
    now: i64,
    after: StoreView,
    r: Result<Option<SessionSeq>, StoreError>,
)
    requires
        saves_record(before, session, runtime, record, changes, now, after, r),
    ensures
        ({
            let key = core_key(session, record.seq);
            let saved = before.sessions[session_key(session)];
            let there = before.sessions.dom().contains(session_key(session));
            let own = before.core_records.dom().contains(key) && before.core_records[key] == runtime;
            let started = record.body is ToolFinished ==> before.core_calls.dom().contains(
                core_key(session, record.body->ToolFinished_call),
            );
            &&& r is Err ==> after == before
            &&& !own || !started || !there ==> r is Err
            &&& own && started && there && record.seq <= saved.core_through ==> r == Ok::<
                Option<SessionSeq>,
                StoreError,
            >(None) && after == before
            &&& there && record.seq > saved.core_through + 1 ==> r is Err
            &&& own && started && there && record.seq == saved.core_through + 1 && (forall|i: int|
                0 <= i < changes.len() ==> before.inputs.dom().contains(
                    input_key(session, (#[trigger] changes[i]).0),
                )) && !before.evidence_metadata.dom().contains(
                evidence_key(EvidenceRef { session, record: record.seq }),
            ) && before.history(session).len() < u64::MAX && !before.results.dom().contains(
                result_key(session, SessionSeq((before.history(session).len() + 1) as u64)),
            ) ==> r is Ok
        }),
{
    if forall|i: int|
        0 <= i < changes.len() ==> before.inputs.dom().contains(
            input_key(session, (#[trigger] changes[i]).0),
        ) {
        assert forall|i: int| 0 <= i < changes.len() implies before.has_input(
            session,
            (#[trigger] changes[i]).0,
        ) by {
            assert(before.inputs.dom().contains(input_key(session, changes[i].0)));
        }
    }
}

/// A commit that follows on the last one is stored: its records come behind the earlier ones, its
/// snapshot and the next revision are the core's, and every record and every call that it starts
/// is known to come from the runtime that committed it. The receipt says which commit it is, at
/// which revision and how far it goes. Another revision than the core's is refused as a conflict.
pub proof fn law_commits_are_stored_whole(
    before: StoreView,
    session: SessionId,
    runtime: RuntimeId,
    commit: DurableCommit,
    digest: Seq<char>,
    after: StoreView,
    r: Result<DurableReceipt, DurableError>,
    core: StoredCoreStateView,
)
    requires
        commits_core(before, session, runtime, commit, digest, after, r),
        before.cores.dom().contains(session_key(session)),
        core == before.cores[session_key(session)],
        forall|i: int|
            0 <= i < core.receipts.len() ==> (#[trigger] core.receipts[i]).receipt.commit_id
                != commit.commit_id@,
    ensures
        ({
            let key = session_key(session);
            let added = record_views(commit.records@);
            &&& r is Err ==> after == before
            &&& core.revision != commit.expected_revision ==> r is Err
            &&& commit.commit_id@.len() == 0 ==> r is Err
            &&& commit.commit_id@.len() > 0 && core.revision != commit.expected_revision ==> r
                == Err::<DurableReceipt, DurableError>(DurableError::Conflict)
            &&& r is Ok ==> {
                &&& r->Ok_0.commit_id@ == commit.commit_id@
                &&& r->Ok_0.revision == core.revision + 1
                &&& r->Ok_0.through == commit.snapshot.through
                &&& after.cores == before.cores.insert(key, after.cores[key])
                &&& after.cores[key].revision == core.revision + 1
                &&& after.cores[key].snapshot == commit.snapshot
                &&& after.cores[key].records == core.records + added
                &&& forall|i: int|
                    0 <= i < added.len() ==> after.core_records.dom().contains(
                        core_key(session, (#[trigger] added[i]).seq),
                    ) && after.core_records[core_key(session, added[i].seq)] == runtime
                &&& forall|i: int| 0 <= i < added.len() ==> (
                (#[trigger] added[i]).body matches RecordBodyView::CallStarted { call } ==> (
                after.core_calls.dom().contains(core_key(session, call))
                    && after.core_calls[core_key(session, call)] == runtime))
                &&& after == (StoreView {
                    cores: after.cores,
                    core_records: after.core_records,
                    core_calls: after.core_calls,
                    ..before
                })
            }
        }),
{
    let added = record_views(commit.records@);
    assert(!crate::persistence::core_state::has_receipt(core.receipts, commit.commit_id@));
    lemma_origins_noted(before, session, runtime, added);
}

/// The provenance of every record, and of every call that is started, is noted.
proof fn lemma_origins_noted(
    store: StoreView,
    session: SessionId,
    runtime: RuntimeId,
    records: Seq<RecordView>,
)
    ensures
        ({
            let after = store.with_origins(session, runtime, records);
            &&& forall|i: int|
                0 <= i < records.len() ==> after.core_records.dom().contains(
                    core_key(session, (#[trigger] records[i]).seq),
                ) && after.core_records[core_key(session, records[i].seq)] == runtime
            &&& forall|i: int| 0 <= i < records.len() ==> (
            (#[trigger] records[i]).body matches RecordBodyView::CallStarted { call } ==> (
            after.core_calls.dom().contains(core_key(session, call))
                && after.core_calls[core_key(session, call)] == runtime))
            &&& after == (StoreView {
                core_records: after.core_records,
                core_calls: after.core_calls,
                ..store
            })
        }),
    decreases records.len(),
{
    if records.len() > 0 {
        let head = records.drop_last();
        lemma_origins_noted(store, session, runtime, head);
        assert forall|i: int| 0 <= i < head.len() implies head[i] == #[trigger] records[i] by {
        }
    }
}

/// A commit that could not be written is never answered as a success of its own: only where it was
/// stored before, under the same digest, is its receipt given.
pub proof fn law_unwritten_commits_are_not_confirmed(
    store: StoreView,
    session: SessionId,
    commit: DurableCommit,
    digest: Seq<char>,
    failure: String,
    r: Result<DurableReceipt, DurableError>,
)
    requires
        answers_failed_commit(store, session, commit, digest, failure, r),
    ensures
        r is Ok ==> store.cores.dom().contains(session_key(session)) && exists|i: int|
            0 <= i < store.cores[session_key(session)].receipts.len() && ({
                let kept = #[trigger] store.cores[session_key(session)].receipts[i];
                kept.receipt.commit_id == commit.commit_id@ && kept.digest == digest && r->Ok_0@
                    == kept.receipt
            }),
{
    if r is Ok {
        let receipts = store.core_of(session).receipts;
        let i = choose|i: int| #[trigger]
            crate::persistence::core_state::receipt_at(receipts, commit.commit_id@, i);
        assert(receipts[i].digest == digest);
    }
}

/// A core that has committed is restored from its last commit, with all its records; one that has
/// committed nothing is not restored.
pub proof fn law_cores_are_restored_whole(
    store: StoreView,
    session: SessionId,
    r: Option<DurableRestore>,
)
    requires
        restores_core(store, session, r),
    ensures
        ({
            let key = session_key(session);
            &&& (r is Some) == store.cores.dom().contains(key)
            &&& r matches Some(restore) ==> {
                &&& restore.revision == store.cores[key].revision
                &&& restore.snapshot == store.cores[key].snapshot
                &&& record_views(restore.records@) == store.cores[key].records
            }
        }),
{
}

/// Changes of listed inputs are made one after the other. Each puts the first input with its number
/// in the new state; everything else of that input and all other inputs stay as they are.
pub proof fn law_listed_inputs_follow_each_change(
    inputs: Seq<InputView>,
    changes: Seq<(InputId, InputState)>,
    id: InputId,
    state: InputState,
    at: int,
)
    requires
        0 <= at < inputs.len(),
    ensures
        ({
            let before = changed(inputs, changes);
            let after = changed(inputs, changes.push((id, state)));
            let first = before[at].id == id && forall|i: int|
                0 <= i < at ==> (#[trigger] before[i]).id != id;
            &&& changed(inputs, Seq::empty()) == inputs
            &&& after.len() == inputs.len()
            &&& first ==> after[at] == (InputView { state, ..before[at] })
            &&& !first ==> after[at] == before[at]
        }),
    decreases changes.len(),
{
    lemma_changed_length(inputs, changes);
    assert(changes.push((id, state)).drop_last() =~= changes);
    let before = changed(inputs, changes);
    assert(changed(inputs, changes.push((id, state))) == crate::session::changes::changed_one(
        before,
        (id, state),
    ));
    assert(input_at(before, id, at) <==> before[at].id == id && forall|i: int|
        0 <= i < at ==> (#[trigger] before[i]).id != id);
}

proof fn lemma_changed_length(inputs: Seq<InputView>, changes: Seq<(InputId, InputState)>)
    ensures
        changed(inputs, changes).len() == inputs.len(),
    decreases changes.len(),
{
    if changes.len() > 0 {
        lemma_changed_length(inputs, changes.drop_last());
    }
}

} // verus!

//! What becomes of inputs in the durable data.

use vstd::prelude::*;

use crate::api::{InputId, InputState, InputView, SessionEvent, SessionEventView, SessionSeq, SubmitInput};
use crate::document::{law_listings_are_complete, listing, DocumentKey, KeyRange};
use crate::error::StoreError;
use crate::ids::{RuntimeId, SessionId};
use crate::persistence::inputs::{
    accepts_inputs, all_to, cancels_inputs, input_number, lemma_changes, updates_input,
    AcceptError,
};
use crate::persistence::keys::{input_key, request_key, session_key, waiting_key};
use crate::persistence::laws::{lemma_changed_pointwise, lemma_sorting_keeps};
use crate::persistence::{
    SavedSessionView, StoreView, StoredEntryView, StoredEventView, WaitingRecord,
};
use crate::seqs::{lemma_sorted_by, lemma_sorted_was_there};

verus! {

/// A new request of an existing session becomes an input: queued without a problem, with the text,
/// the request and the answered question as they were submitted, under the next number of the
/// session. The receipt names that number and the place in the history, and the entry there says
/// what was submitted. Nothing else changes.
pub proof fn law_submission_is_kept_as_submitted(
    store: StoreView,
    session: SessionId,
    input: SubmitInput,
    now: i64,
)
    requires
        store.sessions.dom().contains(session_key(session)),
        store.sessions[session_key(session)].next_input < u64::MAX,
        store.history(session).len() < u64::MAX,
        !store.requests.dom().contains(request_key(session, input.request_id)),
    ensures
        ({
            let (after, answer) = store.submission_outcome(session, input, now);
            let number = store.sessions[session_key(session)].next_input;
            let key = input_key(session, InputId(number));
            let request = request_key(session, input.request_id);
            &&& answer matches Ok((receipt, shown))
            &&& receipt.input.0 == number
            &&& receipt.saved_at.0 == store.history(session).len() + 1
            &&& shown == after.inputs[key]
            &&& after.inputs.dom() == store.inputs.dom().insert(key)
            &&& after.inputs[key].id.0 == number
            &&& after.inputs[key].text == input.text
            &&& after.inputs[key].request_id == input.request_id
            &&& after.inputs[key].reply_to == input.reply_to
            &&& after.inputs[key].state == (InputState::Queued { problem: None })
            &&& forall|other: DocumentKey| other != key && store.inputs.dom().contains(other)
                ==> #[trigger] after.inputs[other] == store.inputs[other]
            &&& after.requests.dom().contains(request)
            &&& after.requests[request].input.0 == number
            &&& after.requests[request].text == input.text
            &&& after.requests[request].reply_to == input.reply_to
            &&& after.requests[request].saved_at == receipt.saved_at
            &&& forall|other: DocumentKey| other != request && store.requests.dom().contains(other)
                ==> after.requests.dom().contains(other) && #[trigger] after.requests[other]
                == store.requests[other]
            &&& after.sessions == store.sessions.insert(
                session_key(session),
                SavedSessionView {
                    next_input: (number + 1) as u64,
                    ..store.sessions[session_key(session)]
                },
            )
            &&& after.history(session).len() == store.history(session).len() + 1
            &&& after.history(session).drop_last() == store.history(session)
            &&& after.history(session).last().occurred_at == now
            &&& after.history(session).last().event == StoredEventView::App(
                SessionEventView::InputSubmitted {
                    input: InputId(number),
                    request_id: input.request_id,
                    text: input.text,
                    reply_to: input.reply_to,
                },
            )
            &&& after == (StoreView {
                inputs: after.inputs,
                requests: after.requests,
                sessions: after.sessions,
                journals: after.journals,
                ..store
            })
        }),
{
    let (after, answer) = store.submission_outcome(session, input, now);
    assert(after.history(session).drop_last() =~= store.history(session));
    assert(after.inputs.dom() =~= store.inputs.dom().insert(
        input_key(session, InputId(store.sessions[session_key(session)].next_input)),
    ));
}

/// A submission that is refused changes nothing. A session that does not exist takes no new
/// request, and one whose numbers have run out takes none either.
pub proof fn law_refused_submission_changes_nothing(
    store: StoreView,
    session: SessionId,
    input: SubmitInput,
    now: i64,
)
    ensures
        ({
            let (after, answer) = store.submission_outcome(session, input, now);
            let fresh = !store.requests.dom().contains(request_key(session, input.request_id));
            &&& answer is Err ==> after == store
            &&& !fresh ==> after == store
            &&& fresh && !store.sessions.dom().contains(session_key(session)) ==> (
            answer matches Err(error) && error == AcceptError::NotFound)
            &&& fresh && store.sessions.dom().contains(session_key(session))
                && store.sessions[session_key(session)].next_input == u64::MAX
                ==> (answer matches Err(error) && error == AcceptError::Store(
                StoreError::RevisionExhausted,
            ))
        }),
{
}

/// Changing an input changes its state and nothing else of it. It is among the user's attention
/// items exactly while it waits for the user, with the question that was asked. Where an event is
/// given, it is the new end of the history, at the position that is returned; else the history
/// stays.
pub proof fn law_input_changes_are_local(
    before: StoreView,
    session: SessionId,
    id: InputId,
    state: InputState,
    event: Option<SessionEvent>,
    now: i64,
    after: StoreView,
    r: Result<(InputView, Option<SessionSeq>), StoreError>,
)
    requires
        updates_input(before, session, id, state, event, now, after, r),
        before.sessions.dom().contains(session_key(session)),
        before.inputs.dom().contains(input_key(session, id)),
        before.inputs[input_key(session, id)].id == id,
    ensures
        ({
            let key = input_key(session, id);
            let workspace = before.sessions[session_key(session)].info.workspace;
            let item = waiting_key(workspace, session, id);
            &&& r matches Ok((shown, at))
            &&& shown == after.inputs[key]
            &&& after.inputs == before.inputs.insert(
                key,
                InputView { state, ..before.inputs[key] },
            )
            &&& after.waiting.dom().contains(item) == (state is WaitingForUser)
            &&& state matches InputState::WaitingForUser { runtime, question, text }
                ==> after.waiting[item] == (WaitingRecord {
                workspace,
                session,
                input: id,
                runtime,
                question,
                text,
            })
            &&& forall|other: DocumentKey| other != item ==> (#[trigger] after.waiting.dom().contains(
                other,
            ) == before.waiting.dom().contains(other)) && (before.waiting.dom().contains(other)
                ==> after.waiting[other] == before.waiting[other])
            &&& event matches Some(told) ==> {
                &&& at matches Some(position)
                &&& position.0 == before.history(session).len() + 1
                &&& after.history(session) == before.history(session).push(
                    StoredEntryView { occurred_at: now, event: StoredEventView::App(told@) },
                )
            }
            &&& event is None ==> at is None && after.journals == before.journals
            &&& after == (StoreView {
                inputs: after.inputs,
                waiting: after.waiting,
                journals: after.journals,
                ..before
            })
        }),
{
    if event is Some {
        assert(after.history(session) =~= before.history(session).push(
            StoredEntryView { occurred_at: now, event: StoredEventView::App(event->0@) },
        ));
    }
}

/// An input that is not there cannot be changed, nor one of a session that is not there.
pub proof fn law_missing_inputs_cannot_be_changed(
    before: StoreView,
    session: SessionId,
    id: InputId,
    state: InputState,
    event: Option<SessionEvent>,
    now: i64,
    after: StoreView,
    r: Result<(InputView, Option<SessionSeq>), StoreError>,
)
    requires
        updates_input(before, session, id, state, event, now, after, r),
        !before.sessions.dom().contains(session_key(session)) || !before.inputs.dom().contains(
            input_key(session, id),
        ),
    ensures
        r is Err,
        after == before,
{
}

/// Every input that a runtime takes up is accepted by that runtime, and only those; each is
/// returned as it is now, in the order in which they were named.
pub proof fn law_taken_up_inputs_are_accepted(
    before: StoreView,
    session: SessionId,
    inputs: Seq<InputId>,
    runtime: RuntimeId,
    after: StoreView,
    r: Result<Vec<InputView>, StoreError>,
    id: InputId,
)
    requires
        accepts_inputs(before, session, inputs, runtime, after, r),
        before.sessions.dom().contains(session_key(session)),
        forall|i: int|
            0 <= i < inputs.len() ==> before.inputs.dom().contains(
                input_key(session, #[trigger] inputs[i]),
            ),
    ensures
        ({
            let key = input_key(session, id);
            &&& r matches Ok(shown)
            &&& shown@.len() == inputs.len()
            &&& forall|i: int|
                0 <= i < inputs.len() ==> #[trigger] shown@[i] == (InputView {
                    state: InputState::Accepted { runtime },
                    ..before.inputs[input_key(session, inputs[i])]
                })
            &&& after.inputs.dom() == before.inputs.dom()
            &&& inputs.contains(id) ==> after.inputs[key] == (InputView {
                state: InputState::Accepted { runtime },
                ..before.inputs[key]
            })
            &&& !inputs.contains(id) ==> after.inputs[key] == before.inputs[key]
            &&& after == (StoreView { inputs: after.inputs, waiting: after.waiting, ..before })
        }),
{
    let state = InputState::Accepted { runtime };
    let changes = all_to(inputs, state);
    assert forall|i: int| 0 <= i < changes.len() implies before.has_input(
        session,
        (#[trigger] changes[i]).0,
    ) by {
        assert(before.inputs.dom().contains(input_key(session, inputs[i])));
    }
    lemma_changed_pointwise(before, session, inputs, state);
    lemma_changes(before, session, changes);
    lemma_not_among(session, inputs, id);
    assert forall|i: int| 0 <= i < inputs.len() implies #[trigger] r->Ok_0@[i] == (InputView {
        state,
        ..before.inputs[input_key(session, inputs[i])]
    }) by {
        let head = inputs.take(i);
        assert(changes.take(i) =~= all_to(head, state));
        assert forall|j: int| 0 <= j < head.len() implies before.has_input(
            session,
            (#[trigger] all_to(head, state)[j]).0,
        ) by {
            assert(before.inputs.dom().contains(input_key(session, inputs[j])));
        }
        lemma_changed_pointwise(before, session, head, state);
        lemma_not_among(session, head, inputs[i]);
        let shown = r->Ok_0@[i];
        assert(head.contains(inputs[i]) || !head.contains(inputs[i]));
    }
}

/// The key of an input that is not named is none of the keys of those that are.
proof fn lemma_not_among(session: SessionId, inputs: Seq<InputId>, id: InputId)
    ensures
        !inputs.contains(id) ==> forall|i: int|
            0 <= i < inputs.len() ==> input_key(session, #[trigger] inputs[i]) != input_key(
                session,
                id,
            ),
{
    assert forall|i: int| !inputs.contains(id) && 0 <= i < inputs.len() implies input_key(
        session,
        #[trigger] inputs[i],
    ) != input_key(session, id) by {
        if inputs[i] == id {
            assert(inputs.contains(id));
        }
    }
}

/// Every input that is cancelled is cancelled, and only those; the history gets one entry for each,
/// in the order in which they were named.
pub proof fn law_cancelled_inputs_are_cancelled(
    before: StoreView,
    session: SessionId,
    inputs: Seq<InputId>,
    now: i64,
    after: StoreView,
    r: Result<(), StoreError>,
    id: InputId,
)
    requires
        cancels_inputs(before, session, inputs, now, after, r),
        before.sessions.dom().contains(session_key(session)),
        forall|i: int|
            0 <= i < inputs.len() ==> before.inputs.dom().contains(
                input_key(session, #[trigger] inputs[i]),
            ),
    ensures
        ({
            let key = input_key(session, id);
            let old_len = before.history(session).len() as int;
            &&& r is Ok
            &&& after.inputs.dom() == before.inputs.dom()
            &&& inputs.contains(id) ==> after.inputs[key] == (InputView {
                state: InputState::Cancelled,
                ..before.inputs[key]
            })
            &&& !inputs.contains(id) ==> after.inputs[key] == before.inputs[key]
            &&& after.history(session).len() == old_len + inputs.len()
            &&& after.history(session).take(old_len) == before.history(session)
            &&& forall|i: int| #![trigger inputs[i]]
                0 <= i < inputs.len() ==> after.history(session)[old_len + i] == (StoredEntryView {
                    occurred_at: now,
                    event: StoredEventView::App(
                        SessionEventView::InputCancelled { input: inputs[i] },
                    ),
                })
            &&& after == (StoreView {
                inputs: after.inputs,
                waiting: after.waiting,
                journals: after.journals,
                ..before
            })
        }),
{
    let state = InputState::Cancelled;
    let changes = all_to(inputs, state);
    assert forall|i: int| 0 <= i < changes.len() implies before.has_input(
        session,
        (#[trigger] changes[i]).0,
    ) by {
        assert(before.inputs.dom().contains(input_key(session, inputs[i])));
    }
    lemma_changed_pointwise(before, session, inputs, state);
    lemma_changes(before, session, changes);
    lemma_not_among(session, inputs, id);
    assert(after.history(session).take(before.history(session).len() as int)
        =~= before.history(session));
}

/// Every input of a session is listed, each in its place by its number, and nothing else is.
pub proof fn law_every_input_is_listed(store: StoreView, session: SessionId, id: InputId)
    requires
        store.inputs.dom().finite(),
        store.inputs_under_their_numbers(),
    ensures
        ({
            let items = store.listed_inputs(session);
            let key = input_key(session, id);
            &&& store.inputs.dom().contains(key) ==> items.contains(store.inputs[key])
            &&& forall|i: int|
                0 <= i < items.len() ==> store.inputs.dom().contains(
                    input_key(session, (#[trigger] items[i]).id),
                ) && items[i] == store.inputs[input_key(session, items[i].id)]
            &&& forall|i: int, j: int|
                0 <= i <= j < items.len() ==> (#[trigger] items[i]).id.0 <= (
                #[trigger] items[j]).id.0
        }),
{
    let range = KeyRange::of(session.0);
    let keys = listing(store.inputs.dom(), range);
    law_listings_are_complete(store.inputs.dom(), range);
    let stored = store.stored_inputs(session);
    let items = store.listed_inputs(session);
    lemma_sorted_by(stored, input_number());
    let key = input_key(session, id);
    if store.inputs.dom().contains(key) {
        assert(keys.contains(key));
        let k = choose|k: int| 0 <= k < keys.len() && keys[k] == key;
        lemma_sorting_keeps(stored, input_number(), k);
        assert(stored[k] == store.inputs[key]);
    }
    assert forall|i: int| 0 <= i < items.len() implies store.inputs.dom().contains(
        input_key(session, (#[trigger] items[i]).id),
    ) && items[i] == store.inputs[input_key(session, items[i].id)] by {
        lemma_sorted_was_there(stored, input_number(), i);
        let k = choose|k: int| 0 <= k < stored.len() && stored[k] == items[i];
        assert(keys.contains(keys[k]));
    }
    assert forall|i: int, j: int| 0 <= i <= j < items.len() implies (#[trigger] items[i]).id.0 <= (
    #[trigger] items[j]).id.0 by {
        assert(input_number()(items[i]) <= input_number()(items[j]));
    }
}

} // verus!

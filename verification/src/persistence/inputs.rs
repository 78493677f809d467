//! Inputs: their acceptance under an idempotency key, and the changes of their state.

use vstd::prelude::*;

use super::keys::{
    input_key, make_input_key, make_request_key, make_session_key, make_waiting_key, request_key,
    session_key, waiting_key,
};
use super::{
    DataStore, RequestRecord, SavedSessionView, StoreView, StoredEntryView, StoredEvent,
    StoredEventView, WaitingRecord,
};
use crate::api::{
    same_question, InputId, InputState, InputView, SessionEvent, SessionEventView, SessionSeq,
    SubmissionReceipt, SubmitInput,
};
use crate::document::{listing, DocumentKey, KeyRange};
use crate::error::StoreError;
use crate::ids::{RuntimeId, SessionId, WorkspaceId};
use crate::seqs::{lemma_slot, lemma_slot_bounds, slot, sorted_by};
use crate::text::same_text;

verus! {

/// Why an input was not accepted.
#[derive(Debug, PartialEq, Eq)]
pub enum AcceptError {
    /// The session does not exist.
    NotFound,
    /// The request was reused with different content.
    Conflict,
    Store(StoreError),
}

/// A fresh input.
pub open spec fn fresh_input(id: InputId, input: SubmitInput) -> InputView {
    InputView {
        id,
        request_id: input.request_id,
        text: input.text,
        reply_to: input.reply_to,
        state: InputState::Queued { problem: None },
    }
}

/// The event of a submission.
pub open spec fn submission_event(id: InputId, input: SubmitInput) -> StoredEventView {
    StoredEventView::App(
        SessionEventView::InputSubmitted {
            input: id,
            request_id: input.request_id,
            text: input.text,
            reply_to: input.reply_to,
        },
    )
}

impl StoreView {
    /// Whether a session exists.
    pub open spec fn has_session(self, session: SessionId) -> bool {
        self.sessions.dom().contains(session_key(session))
    }

    /// A session.
    pub open spec fn session(self, session: SessionId) -> SavedSessionView {
        self.sessions[session_key(session)]
    }

    /// Whether an input exists.
    pub open spec fn has_input(self, session: SessionId, input: InputId) -> bool {
        self.inputs.dom().contains(input_key(session, input))
    }

    /// An input.
    pub open spec fn input(self, session: SessionId, input: InputId) -> InputView {
        self.inputs[input_key(session, input)]
    }

    /// The inputs that are stored for a session.
    pub open spec fn stored_inputs(self, session: SessionId) -> Seq<InputView> {
        listing(self.inputs.dom(), KeyRange::of(session.0)).map_values(
            |key: DocumentKey| self.inputs[key],
        )
    }

    /// The inputs of a session by their numbers.
    pub open spec fn listed_inputs(self, session: SessionId) -> Seq<InputView> {
        sorted_by(self.stored_inputs(session), input_number())
    }

    /// The store with the attention item of an input: there while the input waits for the user,
    /// else gone.
    pub open spec fn with_attention(
        self,
        workspace: WorkspaceId,
        session: SessionId,
        input: InputView,
    ) -> StoreView {
        let key = waiting_key(workspace, session, input.id);
        StoreView {
            waiting: match input.state {
                InputState::WaitingForUser { runtime, question, text } => self.waiting.insert(
                    key,
                    WaitingRecord { workspace, session, input: input.id, runtime, question, text },
                ),
                _ => self.waiting.remove(key),
            },
            ..self
        }
    }

    /// The store with an input in a new state.
    pub open spec fn with_state(self, session: SessionId, id: InputId, state: InputState) -> StoreView {
        let input = InputView { state, ..self.input(session, id) };
        StoreView {
            inputs: self.inputs.insert(input_key(session, id), input),
            ..self.with_attention(self.session(session).info.workspace, session, input)
        }
    }

    /// Why the state of an input cannot be changed.
    pub open spec fn update_problem(self, session: SessionId, id: InputId) -> Option<StoreError> {
        if !self.has_session(session) {
            Some(StoreError::Corrupt { message: "input belongs to a missing session" })
        } else if !self.has_input(session, id) {
            Some(StoreError::Corrupt { message: "input does not exist" })
        } else {
            None
        }
    }

    /// The store with an input in a new state and, where one is given, an event of it.
    pub open spec fn with_update(
        self,
        session: SessionId,
        id: InputId,
        state: InputState,
        event: Option<SessionEvent>,
        now: i64,
    ) -> StoreView {
        match event {
            Some(event) => self.with_entries(
                session,
                seq![
                    StoredEntryView { occurred_at: now, event: StoredEventView::App(event@) },
                ],
            ).with_state(session, id, state),
            None => self.with_state(session, id, state),
        }
    }

    /// The store with inputs in new states, one change after the other.
    pub open spec fn with_changes(self, session: SessionId, changes: Seq<(InputId, InputState)>) -> StoreView
        decreases changes.len(),
    {
        if changes.len() == 0 {
            self
        } else {
            self.with_changes(session, changes.drop_last()).with_state(
                session,
                changes.last().0,
                changes.last().1,
            )
        }
    }

    /// Whether every changed input exists.
    pub open spec fn has_all(self, session: SessionId, changes: Seq<(InputId, InputState)>) -> bool {
        forall|i: int|
            0 <= i < changes.len() ==> self.has_input(session, (#[trigger] changes[i]).0)
    }

    /// The store with a fresh input, its request and its event.
    pub open spec fn with_submission(self, session: SessionId, input: SubmitInput, now: i64) -> StoreView {
        let saved = self.session(session);
        let id = InputId(saved.next_input);
        StoreView {
            inputs: self.inputs.insert(input_key(session, id), fresh_input(id, input)),
            requests: self.requests.insert(
                request_key(session, input.request_id),
                RequestRecord {
                    input: id,
                    text: input.text,
                    reply_to: input.reply_to,
                    saved_at: SessionSeq((self.history(session).len() + 1) as u64),
                },
            ),
            sessions: self.sessions.insert(
                session_key(session),
                SavedSessionView { next_input: (saved.next_input + 1) as u64, ..saved },
            ),
            ..self.with_entries(
                session,
                seq![StoredEntryView { occurred_at: now, event: submission_event(id, input) }],
            )
        }
    }
}

impl StoreView {
    /// What submitting an input comes to: the store after it, and the answer. A request that was
    /// used before gets the first receipt again, or is refused where its content differs.
    pub open spec fn submission_outcome(self, session: SessionId, input: SubmitInput, now: i64) -> (
        StoreView,
        Result<(SubmissionReceipt, InputView), AcceptError>,
    ) {
        let request = request_key(session, input.request_id);
        if self.requests.dom().contains(request) {
            let existing = self.requests[request];
            if existing.text@ != input.text@ || existing.reply_to != input.reply_to {
                (self, Err(AcceptError::Conflict))
            } else if !self.has_input(session, existing.input) {
                (
                    self,
                    Err(
                        AcceptError::Store(
                            StoreError::Corrupt {
                                message: "request index points to a missing input",
                            },
                        ),
                    ),
                )
            } else {
                (
                    self,
                    Ok(
                        (
                            SubmissionReceipt {
                                input: existing.input,
                                saved_at: existing.saved_at,
                            },
                            self.input(session, existing.input),
                        ),
                    ),
                )
            }
        } else if !self.has_session(session) {
            (self, Err(AcceptError::NotFound))
        } else if self.session(session).next_input == u64::MAX {
            (self, Err(AcceptError::Store(StoreError::RevisionExhausted)))
        } else {
            let id = InputId(self.session(session).next_input);
            (
                self.with_submission(session, input, now),
                Ok(
                    (
                        SubmissionReceipt {
                            input: id,
                            saved_at: SessionSeq((self.history(session).len() + 1) as u64),
                        },
                        fresh_input(id, input),
                    ),
                ),
            )
        }
    }

    /// Whether every input of a session has a number below the next one that it gives out.
    pub open spec fn numbers_below_next(self, session: SessionId) -> bool {
        forall|id: InputId| #[trigger]
            self.has_input(session, id) ==> id.0 < self.session(session).next_input
    }

    /// Whether every input is stored under its own number.
    pub open spec fn inputs_under_their_numbers(self) -> bool {
        forall|key: DocumentKey| #[trigger]
            self.inputs.dom().contains(key) ==> key == input_key(
                SessionId(key.owner),
                self.inputs[key].id,
            )
    }
}

/// The order of inputs: by their numbers.
pub open spec fn input_number() -> spec_fn(InputView) -> int {
    |input: InputView| input.id.0 as int
}

/// Puts an input in its place by its number.
fn insert_by_id(items: &mut Vec<InputView>, item: InputView)
    ensures
        final(items)@ == old(items)@.insert(
            slot(old(items)@.map_values(input_number()), item.id.0 as int),
            item,
        ),
{
    let ghost numbers = items@.map_values(input_number());
    let number: u64 = item.id.0;
    let mut at: usize = items.len();
    while at > 0 && items[at - 1].id.0 > number
        invariant
            at <= items@.len(),
            numbers == items@.map_values(input_number()),
            forall|i: int| at <= i < numbers.len() ==> numbers[i] > number,
        decreases at,
    {
        at = at - 1;
        proof {
            assert(numbers[at as int] == items@[at as int].id.0);
        }
    }
    proof {
        if at > 0 {
            assert(numbers[at - 1] == items@[at - 1].id.0);
        }
        lemma_slot(numbers, number as int, at as int);
    }
    let ghost before = items@;
    items.insert(at, item);
    proof {
        assert(items@ =~= before.insert(at as int, item));
    }
}

/// Submitting an input twice under one request is submitting it once: the second time nothing
/// changes and the receipt is the first one.
pub proof fn law_submission_is_idempotent(
    store: StoreView,
    session: SessionId,
    input: SubmitInput,
    again: SubmitInput,
    now: i64,
    later: i64,
)
    requires
        store.submission_outcome(session, input, now).1 is Ok,
        again.agrees(input),
    ensures
        ({
            let (after, first) = store.submission_outcome(session, input, now);
            let (last, second) = after.submission_outcome(session, again, later);
            last == after && second is Ok && second->Ok_0.0 == first->Ok_0.0
        }),
{
}

/// A request that was used for one input is refused for another, and nothing changes.
pub proof fn law_reused_request_is_refused(
    store: StoreView,
    session: SessionId,
    input: SubmitInput,
    other: SubmitInput,
    now: i64,
    later: i64,
)
    requires
        store.submission_outcome(session, input, now).1 is Ok,
        other.request_id == input.request_id,
        other.text@ != input.text@ || other.reply_to != input.reply_to,
    ensures
        ({
            let after = store.submission_outcome(session, input, now).0;
            after.submission_outcome(session, other, later) == (
                after,
                Err::<(SubmissionReceipt, InputView), AcceptError>(AcceptError::Conflict),
            )
        }),
{
}

/// A submission never takes the number of an input that is there, and leaves every other input as
/// it was.
pub proof fn law_submission_takes_a_fresh_number(
    store: StoreView,
    session: SessionId,
    input: SubmitInput,
    now: i64,
)
    requires
        store.numbers_below_next(session),
        store.submission_outcome(session, input, now).0 != store,
    ensures
        ({
            let (after, answer) = store.submission_outcome(session, input, now);
            &&& answer is Ok
            &&& !store.has_input(session, answer->Ok_0.0.input)
            &&& after.has_input(session, answer->Ok_0.0.input)
            &&& after.input(session, answer->Ok_0.0.input) == answer->Ok_0.1
            &&& after.numbers_below_next(session)
            &&& forall|key: DocumentKey| #[trigger]
                store.inputs.dom().contains(key) ==> after.inputs.dom().contains(key)
                    && after.inputs[key] == store.inputs[key]
        }),
{
    let (after, answer) = store.submission_outcome(session, input, now);
    let id = InputId(store.session(session).next_input);
    assert(!store.has_input(session, id));
    assert forall|other: InputId| #[trigger] after.has_input(session, other) implies other.0
        < after.session(session).next_input by {
        if input_key(session, other) != input_key(session, id) {
            assert(store.has_input(session, other));
        }
    }
}

/// The changes of some inputs to one state.
pub open spec fn all_to(inputs: Seq<InputId>, state: InputState) -> Seq<(InputId, InputState)> {
    inputs.map_values(|id: InputId| (id, state))
}

/// Changes of existing inputs add and remove no input and leave everything but inputs and
/// attention items as it was.
pub proof fn lemma_changes(store: StoreView, session: SessionId, changes: Seq<(InputId, InputState)>)
    requires
        store.has_all(session, changes),
    ensures
        store.with_changes(session, changes).inputs.dom() == store.inputs.dom(),
        store.with_changes(session, changes) == (StoreView {
            inputs: store.with_changes(session, changes).inputs,
            waiting: store.with_changes(session, changes).waiting,
            ..store
        }),
    decreases changes.len(),
{
    if changes.len() > 0 {
        let head = changes.drop_last();
        assert forall|i: int| 0 <= i < head.len() implies store.has_input(
            session,
            (#[trigger] head[i]).0,
        ) by {
            assert(head[i] == changes[i]);
        }
        lemma_changes(store, session, head);
        assert(store.has_input(session, changes[changes.len() - 1].0));
        assert(store.with_changes(session, changes).inputs.dom() =~= store.inputs.dom());
    }
}

/// Whether a change of one input gives this store and this answer.
pub open spec fn updates_input(
    before: StoreView,
    session: SessionId,
    id: InputId,
    state: InputState,
    event: Option<SessionEvent>,
    now: i64,
    after: StoreView,
    r: Result<(InputView, Option<SessionSeq>), StoreError>,
) -> bool {
    match before.update_problem(session, id) {
        Some(error) => r == Err::<(InputView, Option<SessionSeq>), StoreError>(error)
            && after == before,
        None => {
            &&& r matches Ok((input, sequence))
            &&& input == (InputView { state, ..before.input(session, id) })
            &&& match event {
                Some(_) => sequence matches Some(at) && at.0 == before.history(
                    session,
                ).len() + 1,
                None => sequence is None,
            }
            &&& after == before.with_update(session, id, state, event, now)
        },
    }
}

/// Whether a runtime taking inputs up gives this store and this answer.
pub open spec fn accepts_inputs(
    before: StoreView,
    session: SessionId,
    inputs: Seq<InputId>,
    runtime: RuntimeId,
    after: StoreView,
    r: Result<Vec<InputView>, StoreError>,
) -> bool {
    let changes = all_to(inputs, InputState::Accepted { runtime });
    if !before.has_session(session) {
        r == Err::<Vec<InputView>, StoreError>(
            StoreError::Corrupt { message: "input belongs to a missing session" },
        ) && after == before
    } else if !before.has_all(session, changes) {
        r == Err::<Vec<InputView>, StoreError>(
            StoreError::Corrupt { message: "input does not exist" },
        ) && after == before
    } else {
        &&& r matches Ok(updated)
        &&& updated@.len() == inputs.len()
        &&& forall|i: int| #![trigger updated@[i]]
            0 <= i < updated@.len() ==> updated@[i] == (InputView {
                state: InputState::Accepted { runtime },
                ..before.with_changes(session, changes.take(i)).input(
                    session,
                    inputs[i],
                )
            })
        &&& after == before.with_changes(session, changes)
    }
}

/// Whether cancelling inputs gives this store and this answer.
pub open spec fn cancels_inputs(
    before: StoreView,
    session: SessionId,
    inputs: Seq<InputId>,
    now: i64,
    after: StoreView,
    r: Result<(), StoreError>,
) -> bool {
    let changes = all_to(inputs, InputState::Cancelled);
    if !before.has_session(session) {
        r == Err::<(), StoreError>(
            StoreError::Corrupt { message: "input belongs to a missing session" },
        ) && after == before
    } else if !before.has_all(session, changes) {
        r == Err::<(), StoreError>(
            StoreError::Corrupt { message: "input does not exist" },
        ) && after == before
    } else {
        &&& r is Ok
        &&& after == (if inputs.len() == 0 {
            before
        } else {
            before.with_changes(session, changes).with_entries(
                session,
                cancellations(inputs, now),
            )
        })
    }
}

impl DataStore {
    /// Keeps the attention item of an input in step with its state.
    pub(crate) fn sync_input_attention(
        &mut self,
        workspace: WorkspaceId,
        session: SessionId,
        input: &InputView,
    )
        ensures
            final(self)@ == old(self)@.with_attention(workspace, session, *input),
    {
        let key = make_waiting_key(workspace, session, input.id);
        match &input.state {
            InputState::WaitingForUser { runtime, question, text } => {
                let record = WaitingRecord {
                    workspace,
                    session,
                    input: input.id,
                    runtime: *runtime,
                    question: *question,
                    text: text.clone(),
                };
                self.waiting.put(key, record);
            },
            _ => {
                let _ = self.waiting.take(&key);
            },
        }
        proof {
            assert(self@ =~= old(self)@.with_attention(workspace, session, *input));
        }
    }

    /// Changes the state of an existing input of an existing session.
    pub(crate) fn set_state(
        &mut self,
        workspace: WorkspaceId,
        session: SessionId,
        id: InputId,
        state: InputState,
    ) -> (r: Option<InputView>)
        requires
            old(self)@.has_session(session),
            workspace == old(self)@.session(session).info.workspace,
        ensures
            match r {
                Some(input) => {
                    &&& old(self)@.has_input(session, id)
                    &&& input == (InputView { state, ..old(self)@.input(session, id) })
                    &&& final(self)@ == old(self)@.with_state(session, id, state)
                },
                None => !old(self)@.has_input(session, id) && final(self)@ == old(self)@,
            },
    {
        let key = make_input_key(session, id);
        let input = match self.inputs.get(&key) {
            Some(saved) => InputView {
                id: saved.id,
                request_id: saved.request_id,
                text: saved.text.clone(),
                reply_to: saved.reply_to,
                state,
            },
            None => {
                return None;
            },
        };
        self.inputs.put(key, input.clone());
        self.sync_input_attention(workspace, session, &input);
        proof {
            assert(self@ =~= old(self)@.with_state(session, id, state));
        }
        Some(input)
    }

    /// Whether every changed input exists.
    pub(crate) fn can_change(
        &self,
        session: SessionId,
        changes: &Vec<(InputId, InputState)>,
    ) -> (r: bool)
        ensures
            r == self@.has_all(session, changes@),
    {
        let mut i: usize = 0;
        while i < changes.len()
            invariant
                i <= changes@.len(),
                forall|j: int|
                    0 <= j < i ==> self@.has_input(session, (#[trigger] changes@[j]).0),
            decreases changes@.len() - i,
        {
            if !self.inputs.has(&make_input_key(session, changes[i].0)) {
                proof {
                    assert(!self@.has_input(session, changes@[i as int].0));
                }
                return false;
            }
            i = i + 1;
        }
        true
    }

    /// Changes the states of existing inputs of an existing session, and returns the inputs as
    /// each change left them.
    pub(crate) fn apply_changes(
        &mut self,
        workspace: WorkspaceId,
        session: SessionId,
        changes: &Vec<(InputId, InputState)>,
    ) -> (r: Vec<InputView>)
        requires
            old(self)@.has_session(session),
            workspace == old(self)@.session(session).info.workspace,
            old(self)@.has_all(session, changes@),
        ensures
            final(self)@ == old(self)@.with_changes(session, changes@),
            r@.len() == changes@.len(),
            forall|i: int| #![trigger r@[i]]
                0 <= i < r@.len() ==> r@[i] == (InputView {
                    state: changes@[i].1,
                    ..old(self)@.with_changes(session, changes@.take(i)).input(
                        session,
                        changes@[i].0,
                    )
                }),
    {
        let ghost start = self@;
        let mut r: Vec<InputView> = Vec::new();
        let mut i: usize = 0;
        while i < changes.len()
            invariant
                i <= changes@.len(),
                start.has_session(session),
                workspace == start.session(session).info.workspace,
                start.has_all(session, changes@),
                self@ == start.with_changes(session, changes@.take(i as int)),
                r@.len() == i,
                forall|j: int| #![trigger r@[j]]
                    0 <= j < r@.len() ==> r@[j] == (InputView {
                        state: changes@[j].1,
                        ..start.with_changes(session, changes@.take(j)).input(
                            session,
                            changes@[j].0,
                        )
                    }),
            decreases changes@.len() - i,
        {
            let ghost head = changes@.take(i as int);
            proof {
                assert forall|j: int| 0 <= j < head.len() implies start.has_input(
                    session,
                    (#[trigger] head[j]).0,
                ) by {
                    assert(head[j] == changes@[j]);
                }
                lemma_changes(start, session, head);
                assert(start.has_input(session, changes@[i as int].0));
                assert(changes@.take(i + 1).drop_last() =~= head);
            }
            match self.set_state(workspace, session, changes[i].0, changes[i].1.clone()) {
                Some(input) => {
                    r.push(input);
                },
                None => {},
            }
            i = i + 1;
        }
        proof {
            assert(changes@.take(i as int) =~= changes@);
        }
        r
    }

    /// The inputs of a session by their numbers.
    pub fn inputs(&self, session: SessionId) -> (r: Vec<InputView>)
        ensures
            r@ == self@.listed_inputs(session),
    {
        let keys = self.inputs.select(&KeyRange::owned_by(session.0));
        let ghost stored = self@.stored_inputs(session);
        let mut r: Vec<InputView> = Vec::new();
        let mut i: usize = 0;
        proof {
            assert(r@ =~= sorted_by(stored.take(0), input_number()));
        }
        while i < keys.len()
            invariant
                i <= keys@.len(),
                forall|j: int| #![trigger keys@[j]]
                    0 <= j < keys@.len() ==> self.inputs@.dom().contains(keys@[j]),
                stored == self@.stored_inputs(session),
                stored == keys@.map_values(|key: DocumentKey| self@.inputs[key]),
                r@ == sorted_by(stored.take(i as int), input_number()),
            decreases keys@.len() - i,
        {
            proof {
                assert(self.inputs@.dom().contains(keys@[i as int]));
                assert(stored.take(i + 1).drop_last() =~= stored.take(i as int));
                assert(stored.take(i + 1).last() == self@.inputs[keys@[i as int]]);
                lemma_slot_bounds(
                    sorted_by(stored.take(i as int), input_number()).map_values(input_number()),
                    stored[i as int].id.0 as int,
                );
            }
            match self.inputs.get(&keys[i]) {
                Some(input) => {
                    insert_by_id(&mut r, input.clone());
                },
                None => {},
            }
            i = i + 1;
        }
        proof {
            assert(stored.take(i as int) =~= stored);
        }
        r
    }

    /// An input of a session.
    pub fn input(&self, session: SessionId, input: InputId) -> (r: Option<InputView>)
        ensures
            r == (if self@.has_input(session, input) {
                Some(self@.input(session, input))
            } else {
                None
            }),
    {
        match self.inputs.get(&make_input_key(session, input)) {
            Some(saved) => Some(saved.clone()),
            None => None,
        }
    }

    /// Saves a fresh input of an existing session.
    pub(crate) fn submit(&mut self, session: SessionId, input: &SubmitInput, now: i64) -> (r: (
        SubmissionReceipt,
        InputView,
    ))
        requires
            old(self)@.has_session(session),
            old(self)@.session(session).next_input < u64::MAX,
        ensures
            final(self)@ == old(self)@.with_submission(session, *input, now),
            r.0.input.0 == old(self)@.session(session).next_input,
            r.0.saved_at.0 == old(self)@.history(session).len() + 1,
            r.1 == fresh_input(r.0.input, *input),
    {
        let ghost start = self@;
        let key = make_session_key(session);
        let ghost sessions = self.sessions@;
        proof {
            assert(sessions.dom().contains(key));
        }
        let mut saved = self.sessions.take(&key).unwrap();
        let id = InputId(saved.next_input);
        saved.next_input = saved.next_input + 1;
        let ghost updated = saved@;
        self.sessions.put(key, saved);
        let ghost stored = self@;
        proof {
            assert(stored.sessions =~= start.sessions.insert(key, updated));
            assert(stored =~= (StoreView { sessions: start.sessions.insert(key, updated), ..start }));
        }
        let event = SessionEvent::InputSubmitted {
            input: id,
            request_id: input.request_id,
            text: input.text.clone(),
            reply_to: input.reply_to,
        };
        let saved_at = self.append(session, StoredEvent::App(event), now);
        let view = InputView {
            id,
            request_id: input.request_id,
            text: input.text.clone(),
            reply_to: input.reply_to,
            state: InputState::Queued { problem: None },
        };
        self.inputs.put(make_input_key(session, id), view.clone());
        self.requests.put(
            make_request_key(session, input.request_id),
            RequestRecord {
                input: id,
                text: input.text.clone(),
                reply_to: input.reply_to,
                saved_at,
            },
        );
        proof {
            assert(stored.history(session) == start.history(session));
            assert(self@ =~= start.with_submission(session, *input, now));
        }
        (SubmissionReceipt { input: id, saved_at }, view)
    }

    /// Accepts an input once per request: a repeated request with the same content gets the
    /// receipt of the first, one with other content is refused.
    pub fn accept_input(&mut self, session: SessionId, input: &SubmitInput, now: i64) -> (r: Result<
        (SubmissionReceipt, InputView),
        AcceptError,
    >)
        ensures
            (final(self)@, r) == old(self)@.submission_outcome(session, *input, now),
    {
        match self.requests.get(&make_request_key(session, input.request_id)) {
            Some(existing) => {
                if !same_text(existing.text.as_str(), input.text.as_str()) || !same_question(
                    existing.reply_to,
                    input.reply_to,
                ) {
                    return Err(AcceptError::Conflict);
                }
                return match self.inputs.get(&make_input_key(session, existing.input)) {
                    Some(saved) => Ok(
                        (
                            SubmissionReceipt {
                                input: existing.input,
                                saved_at: existing.saved_at,
                            },
                            saved.clone(),
                        ),
                    ),
                    None => Err(
                        AcceptError::Store(
                            StoreError::Corrupt {
                                message: "request index points to a missing input",
                            },
                        ),
                    ),
                };
            },
            None => {},
        }
        match self.sessions.get(&make_session_key(session)) {
            Some(saved) => {
                if saved.next_input == u64::MAX {
                    return Err(AcceptError::Store(StoreError::RevisionExhausted));
                }
            },
            None => {
                return Err(AcceptError::NotFound);
            },
        }
        Ok(self.submit(session, input, now))
    }

    /// The workspace of a session.
    pub(crate) fn workspace_of(&self, session: SessionId) -> (r: Option<WorkspaceId>)
        ensures
            r == (if self@.has_session(session) {
                Some(self@.session(session).info.workspace)
            } else {
                None
            }),
    {
        match self.sessions.get(&make_session_key(session)) {
            Some(saved) => Some(saved.info.workspace),
            None => None,
        }
    }

    /// Changes the state of an input, with an event where one is given.
    pub fn update_input(
        &mut self,
        session: SessionId,
        id: InputId,
        state: InputState,
        event: Option<SessionEvent>,
        now: i64,
    ) -> (r: Result<(InputView, Option<SessionSeq>), StoreError>)
        ensures
            updates_input(old(self)@, session, id, state, event, now, final(self)@, r),
    {
        let workspace = match self.workspace_of(session) {
            Some(workspace) => workspace,
            None => {
                return Err(StoreError::Corrupt { message: "input belongs to a missing session" });
            },
        };
        if !self.inputs.has(&make_input_key(session, id)) {
            return Err(StoreError::Corrupt { message: "input does not exist" });
        }
        let sequence = match event {
            Some(event) => Some(self.append(session, StoredEvent::App(event), now)),
            None => None,
        };
        match self.set_state(workspace, session, id, state) {
            Some(input) => Ok((input, sequence)),
            None => Err(StoreError::Corrupt { message: "input does not exist" }),
        }
    }

    /// The changes of some inputs to one state.
    pub(crate) fn changes_to(inputs: &Vec<InputId>, state: &InputState) -> (r: Vec<(InputId, InputState)>)
        ensures
            r@ == all_to(inputs@, *state),
    {
        let mut r: Vec<(InputId, InputState)> = Vec::new();
        let mut i: usize = 0;
        while i < inputs.len()
            invariant
                i <= inputs@.len(),
                r@ == all_to(inputs@.take(i as int), *state),
            decreases inputs@.len() - i,
        {
            r.push((inputs[i], state.clone()));
            proof {
                assert(r@ =~= all_to(inputs@.take(i + 1), *state));
            }
            i = i + 1;
        }
        proof {
            assert(inputs@.take(i as int) =~= inputs@);
        }
        r
    }

    /// Marks inputs as accepted by a runtime, all of them or none.
    pub fn accept_inputs(
        &mut self,
        session: SessionId,
        inputs: &Vec<InputId>,
        runtime: RuntimeId,
    ) -> (r: Result<Vec<InputView>, StoreError>)
        ensures
            accepts_inputs(old(self)@, session, inputs@, runtime, final(self)@, r),
    {
        let workspace = match self.workspace_of(session) {
            Some(workspace) => workspace,
            None => {
                return Err(StoreError::Corrupt { message: "input belongs to a missing session" });
            },
        };
        let changes = DataStore::changes_to(inputs, &InputState::Accepted { runtime });
        if !self.can_change(session, &changes) {
            return Err(StoreError::Corrupt { message: "input does not exist" });
        }
        Ok(self.apply_changes(workspace, session, &changes))
    }

    /// Cancels inputs, each with its event; all of them or none.
    pub fn cancel_inputs(&mut self, session: SessionId, inputs: &Vec<InputId>, now: i64) -> (r: Result<
        (),
        StoreError,
    >)
        ensures
            cancels_inputs(old(self)@, session, inputs@, now, final(self)@, r),
    {
        let workspace = match self.workspace_of(session) {
            Some(workspace) => workspace,
            None => {
                return Err(StoreError::Corrupt { message: "input belongs to a missing session" });
            },
        };
        let changes = DataStore::changes_to(inputs, &InputState::Cancelled);
        if !self.can_change(session, &changes) {
            return Err(StoreError::Corrupt { message: "input does not exist" });
        }
        let _ = self.apply_changes(workspace, session, &changes);
        let ghost changed = self@;
        proof {
            lemma_changes(old(self)@, session, changes@);
            assert(changes@.len() == inputs@.len());
        }
        let mut i: usize = 0;
        while i < inputs.len()
            invariant
                i <= inputs@.len(),
                self@ == (if i == 0 {
                    changed
                } else {
                    changed.with_entries(session, cancellations(inputs@.take(i as int), now))
                }),
            decreases inputs@.len() - i,
        {
            let ghost head = cancellations(inputs@.take(i as int), now);
            let ghost earlier = self@;
            let _ = self.append(
                session,
                StoredEvent::App(SessionEvent::InputCancelled { input: inputs[i] }),
                now,
            );
            proof {
                let more = cancellations(inputs@.take(i + 1), now);
                assert(more =~= head + seq![cancellation(inputs@[i as int], now)]);
                if i == 0 {
                    assert(head =~= Seq::<StoredEntryView>::empty());
                    assert(more =~= seq![cancellation(inputs@[i as int], now)]);
                } else {
                    assert(earlier.history(session) == changed.history(session) + head);
                    assert(changed.history(session) + more =~= (changed.history(session) + head)
                        + seq![cancellation(inputs@[i as int], now)]);
                    assert(self@.journals =~= changed.journals.insert(
                        session_key(session),
                        changed.history(session) + more,
                    ));
                }
                assert(self@ =~= changed.with_entries(session, more));
            }
            i = i + 1;
        }
        proof {
            assert(inputs@.take(i as int) =~= inputs@);
            if inputs@.len() == 0 {
                assert(changes@ =~= Seq::<(InputId, InputState)>::empty());
            }
        }
        Ok(())
    }
}

/// The journal entry of a cancelled input.
pub open spec fn cancellation(input: InputId, now: i64) -> StoredEntryView {
    StoredEntryView {
        occurred_at: now,
        event: StoredEventView::App(SessionEventView::InputCancelled { input }),
    }
}

/// The journal entries of cancelled inputs.
pub open spec fn cancellations(inputs: Seq<InputId>, now: i64) -> Seq<StoredEntryView> {
    inputs.map_values(|input: InputId| cancellation(input, now))
}

} // verus!

//! How queued inputs reach the agent.

use vstd::prelude::*;

use super::actor::{with_live, SessionActor};
use super::agent::{agent_error, AgentError};
use crate::api::{AppProblem, InputId, InputState, InputView, QuestionId, SessionEvent};
use crate::config::ConfigProblem;
use crate::document::DocumentKey;
use crate::error::{Error, StoreError};
use crate::ids::{RuntimeId, SessionId};
use crate::persistence::keys::{input_key, make_input_key};
use crate::persistence::{DataStore, StoreView};
use crate::seqs::lemma_take_all;

verus! {

/// What is to be done about the queued inputs of a session.
#[derive(Debug, PartialEq, Eq)]
pub enum DeliveryStep {
    /// Nothing waits, or nothing can be done for it now.
    Idle,
    /// The inputs wait for the configuration; they are to show this problem.
    Note(ConfigProblem),
    /// A runtime is to be started.
    Start,
    /// The inputs are to be delivered, one after the other.
    Post(Vec<InputId>),
}

/// What is to be done about the queued inputs of a session, by its values.
pub ghost enum DeliveryPlan {
    Idle,
    Note(ConfigProblem),
    Start,
    Post(Seq<InputId>),
}

impl View for DeliveryStep {
    type V = DeliveryPlan;

    open spec fn view(&self) -> DeliveryPlan {
        match self {
            DeliveryStep::Idle => DeliveryPlan::Idle,
            DeliveryStep::Note(problem) => DeliveryPlan::Note(*problem),
            DeliveryStep::Start => DeliveryPlan::Start,
            DeliveryStep::Post(ids) => DeliveryPlan::Post(ids@),
        }
    }
}

/// What is to be done with one input.
#[derive(Debug, PartialEq, Eq)]
pub enum Delivery {
    /// It was rejected.
    Rejected,
    /// It is to be posted to the agent.
    Post { runtime: RuntimeId, text: String, reply_to: Option<QuestionId> },
}

/// The store and the inputs that a session holds.
#[verifier::ext_equal]
pub ghost struct Live {
    pub store: StoreView,
    pub inputs: Map<DocumentKey, InputView>,
}

/// Whether two optional problems are the same.
pub open spec fn same_problem(a: Option<ConfigProblem>, b: Option<ConfigProblem>) -> bool {
    match (a, b) {
        (Some(a), Some(b)) => a@ == b@,
        (None, None) => true,
        _ => false,
    }
}

fn problems_agree(a: &Option<ConfigProblem>, b: &Option<ConfigProblem>) -> (r: bool)
    ensures
        r == same_problem(*a, *b),
{
    match (a, b) {
        (Some(a), Some(b)) => a.same(b),
        (None, None) => true,
        _ => false,
    }
}

impl Live {
    /// After the state of an input was changed.
    pub open spec fn with_state(
        self,
        session: SessionId,
        id: InputId,
        state: InputState,
        event: Option<SessionEvent>,
        now: i64,
    ) -> Live {
        Live {
            store: self.store.with_update(session, id, state, event, now),
            inputs: with_live(
                self.inputs,
                session,
                InputView { state, ..self.store.input(session, id) },
            ),
        }
    }

    /// Whether every held input is in the store as it is held, under its own number, and is not
    /// done with.
    pub open spec fn agrees(self, session: SessionId) -> bool {
        forall|key: DocumentKey| #[trigger]
            self.inputs.dom().contains(key) ==> {
                &&& key == input_key(session, self.inputs[key].id)
                &&& self.store.inputs.dom().contains(key)
                &&& self.store.inputs[key] == self.inputs[key]
                &&& !self.inputs[key].state.is_terminal()
            }
    }

    /// Whether there is nothing to change about an input: it shows the problem already, as one that
    /// waits, or is no longer held.
    pub open spec fn shows(self, session: SessionId, id: InputId, problem: Option<ConfigProblem>) -> bool {
        let key = input_key(session, id);
        self.inputs.dom().contains(key) ==> (self.inputs[key].state matches InputState::Queued {
            problem: current,
        } && same_problem(current, problem))
    }

    /// After some inputs were made to show a problem, one after the other, up to the first that the
    /// store refused.
    pub open spec fn noted(
        self,
        session: SessionId,
        ids: Seq<InputId>,
        problem: Option<ConfigProblem>,
    ) -> (Live, Option<StoreError>)
        decreases ids.len(),
    {
        if ids.len() == 0 {
            (self, None)
        } else {
            let (live, failed) = self.noted(session, ids.drop_last(), problem);
            let id = ids.last();
            if failed is Some || live.shows(session, id, problem) {
                (live, failed)
            } else {
                match live.store.update_problem(session, id) {
                    Some(error) => (live, Some(error)),
                    None => (
                        live.with_state(session, id, InputState::Queued { problem }, None, 0),
                        None,
                    ),
                }
            }
        }
    }
}

/// Whether rejecting an input gives this session, this store and this answer.
pub open spec fn rejects_input(
    actor: SessionActor,
    stored: StoreView,
    id: InputId,
    message: String,
    now: i64,
    next: SessionActor,
    kept: StoreView,
    r: Result<(), Error>,
) -> bool {
    match stored.update_problem(actor.info.id, id) {
        Some(error) => {
            &&& r matches Err(shown)
            &&& error.becomes(shown)
            &&& kept == stored
            &&& next == actor
        },
        None => {
            &&& r is Ok
            &&& next.differs_in_inputs(actor)
            &&& next.live(kept) == actor.live(stored).with_state(
                actor.info.id,
                id,
                InputState::Rejected { message },
                Some(SessionEvent::InputRejected { input: id, message }),
                now,
            )
        },
    }
}

impl SessionActor {
    /// This session with its store.
    pub open spec fn live(self, store: StoreView) -> Live {
        Live { store, inputs: self.inputs@ }
    }

    /// Whether this session is as `before` but for the inputs that it holds.
    pub open spec fn differs_in_inputs(self, before: SessionActor) -> bool {
        self == (SessionActor { inputs: self.inputs, ..before })
    }

    /// Changes the state of an input, in the store and here.
    pub(crate) fn set_state(
        &mut self,
        store: &mut DataStore,
        id: InputId,
        state: InputState,
        event: Option<SessionEvent>,
        now: i64,
    ) -> (r: Result<(), Error>)
        ensures
            match old(store)@.update_problem(old(self).info.id, id) {
                Some(error) => {
                    &&& r matches Err(shown)
                    &&& error.becomes(shown)
                    &&& final(store)@ == old(store)@
                    &&& *final(self) == *old(self)
                },
                None => {
                    &&& r is Ok
                    &&& final(self).differs_in_inputs(*old(self))
                    &&& final(self).live(final(store)@) == old(self).live(old(store)@).with_state(
                        old(self).info.id,
                        id,
                        state,
                        event,
                        now,
                    )
                },
            },
    {
        match store.update_input(self.info.id, id, state, event, now) {
            Ok((input, _)) => {
                self.keep(input);
                Ok(())
            },
            Err(error) => Err(error.into_error()),
        }
    }

    /// What is to be done about the queued inputs.
    pub open spec fn delivery(self) -> DeliveryPlan {
        if self.queued().len() == 0 || self.execution_blocked {
            DeliveryPlan::Idle
        } else if self.config_blocked {
            match self.problem {
                Some(AppProblem::Configuration(problem)) => DeliveryPlan::Note(problem),
                _ => DeliveryPlan::Idle,
            }
        } else if self.runtime is None {
            if self.starting is None {
                DeliveryPlan::Start
            } else {
                DeliveryPlan::Idle
            }
        } else {
            DeliveryPlan::Post(self.queued())
        }
    }

    /// What is to be done about the queued inputs: nothing while a failure blocks the agent; where
    /// the configuration blocks it they show the problem; without a runtime one is started; else
    /// all of them are delivered.
    pub fn deliver_queued(&self) -> (r: DeliveryStep)
        ensures
            r@ == self.delivery(),
    {
        let queued = self.queued_inputs();
        if queued.len() == 0 || self.execution_blocked {
            return DeliveryStep::Idle;
        }
        if self.config_blocked {
            return match &self.problem {
                Some(AppProblem::Configuration(problem)) => DeliveryStep::Note(problem.clone()),
                _ => DeliveryStep::Idle,
            };
        }
        if self.runtime.is_none() {
            if self.starting.is_none() {
                return DeliveryStep::Start;
            }
            return DeliveryStep::Idle;
        }
        DeliveryStep::Post(queued)
    }

    /// Rejects an input.
    pub fn reject_input(
        &mut self,
        store: &mut DataStore,
        id: InputId,
        message: String,
        now: i64,
    ) -> (r: Result<(), Error>)
        ensures
            rejects_input(*old(self), old(store)@, id, message, now, *final(self), final(store)@, r),
    {
        self.set_state(
            store,
            id,
            InputState::Rejected { message: message.clone() },
            Some(SessionEvent::InputRejected { input: id, message }),
            now,
        )
    }
}

/// What the rejection of an input in words comes to.
pub open spec fn rejected(
    before: Live,
    after: Live,
    session: SessionId,
    id: InputId,
    words: Seq<char>,
    now: i64,
) -> bool {
    exists|message: String|
        message@ == words && after == #[trigger] before.with_state(
            session,
            id,
            InputState::Rejected { message },
            Some(SessionEvent::InputRejected { input: id, message }),
            now,
        )
}

/// Whether beginning to deliver an input gives this session, this store and this answer.
pub open spec fn begins_delivery(
    actor: SessionActor,
    stored: StoreView,
    id: InputId,
    now: i64,
    next: SessionActor,
    kept: StoreView,
    r: Result<Delivery, Error>,
) -> bool {
    let session = actor.info.id;
    let input = actor.input(id);
    let runtime = actor.runtime->0.id;
    let before = actor.live(stored);
    match stored.update_problem(session, id) {
        Some(error) => {
            &&& r matches Err(shown)
            &&& error.becomes(shown)
            &&& kept == stored
            &&& next == actor
        },
        None => {
            &&& next.differs_in_inputs(actor)
            &&& if input.reply_to is Some && input.reply_to->0.runtime != runtime {
                &&& r == Ok::<Delivery, Error>(Delivery::Rejected)
                &&& rejected(
                    before,
                    next.live(kept),
                    session,
                    id,
                    "the referenced question belongs to an old runtime"@,
                    now,
                )
            } else {
                &&& r == Ok::<Delivery, Error>(
                    Delivery::Post {
                        runtime,
                        text: input.text,
                        reply_to: input.reply_to,
                    },
                )
                &&& next.live(kept) == before.with_state(
                    session,
                    id,
                    InputState::Posting { runtime },
                    None,
                    now,
                )
            }
        },
    }
}

/// Whether the answer of the agent to an input gives this session, this store and this answer.
pub open spec fn ends_delivery(
    actor: SessionActor,
    stored: StoreView,
    id: InputId,
    runtime: RuntimeId,
    answer: Result<(), AgentError>,
    now: i64,
    next: SessionActor,
    kept: StoreView,
    r: Result<bool, Error>,
) -> bool {
    let session = actor.info.id;
    let before = actor.live(stored);
    match stored.update_problem(session, id) {
        Some(error) => {
            &&& r matches Err(shown)
            &&& error.becomes(shown)
            &&& kept == stored
            &&& next == actor
        },
        None => {
            let after = next.live(kept);
            &&& next.differs_in_inputs(actor)
            &&& match answer {
                Ok(()) => r == Ok::<bool, Error>(true) && after == before.with_state(
                    session,
                    id,
                    InputState::Accepted { runtime },
                    Some(SessionEvent::InputAccepted { input: id, runtime }),
                    now,
                ),
                Err(AgentError::Busy(_)) => r == Ok::<bool, Error>(false) && after
                    == before.with_state(
                    session,
                    id,
                    InputState::Queued { problem: None },
                    None,
                    now,
                ),
                Err(AgentError::Admission(words)) => r == Ok::<bool, Error>(true)
                    && rejected(before, after, session, id, words@, now),
                Err(failure) => {
                    &&& r matches Err(shown)
                    &&& shown.is_agent(failure.text())
                    &&& exists|event: SessionEvent|
                        event@ == interruption(runtime, id) && after
                            == #[trigger] before.with_state(
                            session,
                            id,
                            InputState::Interrupted { runtime },
                            Some(event),
                            now,
                        )
                },
            }
        },
    }
}

impl SessionActor {
    /// Starts the delivery of an input: an answer to a question of another runtime is rejected, any
    /// other input is marked as being posted.
    pub fn begin_delivery(&mut self, store: &mut DataStore, id: InputId, now: i64) -> (r: Result<
        Delivery,
        Error,
    >)
        requires
            old(self).holds(id),
            old(self).runtime is Some,
        ensures
            begins_delivery(*old(self), old(store)@, id, now, *final(self), final(store)@, r),
    {
        let ghost before = self.live(store@);
        let ghost session = self.info.id;
        let runtime: RuntimeId = match self.runtime {
            Some(runtime) => runtime.id,
            None => RuntimeId(0),
        };
        let (text, reply_to) = match self.inputs.get(&make_input_key(self.info.id, id)) {
            Some(input) => (input.text.clone(), input.reply_to),
            None => (String::new(), None),
        };
        let stale = match reply_to {
            Some(question) => question.runtime != runtime,
            None => false,
        };
        proof {
            assert(self.inputs@.dom().contains(input_key(session, id)));
        }
        if stale {
            let message = "the referenced question belongs to an old runtime".to_owned();
            let ghost words = message;
            match self.reject_input(store, id, message, now) {
                Ok(()) => {
                    proof {
                        assert(self.live(store@) == before.with_state(
                            session,
                            id,
                            InputState::Rejected { message: words },
                            Some(SessionEvent::InputRejected { input: id, message: words }),
                            now,
                        ));
                    }
                    Ok(Delivery::Rejected)
                },
                Err(error) => Err(error),
            }
        } else {
            match self.set_state(store, id, InputState::Posting { runtime }, None, now) {
                Ok(()) => Ok(Delivery::Post { runtime, text, reply_to }),
                Err(error) => Err(error),
            }
        }
    }

    /// Ends the delivery of an input with the agent's answer, and says whether the next one can be
    /// delivered. An input that the agent takes is accepted; one that comes too early is queued
    /// again; one that the agent refuses is rejected; one lost in a failure is interrupted.
    pub fn end_delivery(
        &mut self,
        store: &mut DataStore,
        id: InputId,
        runtime: RuntimeId,
        answer: Result<(), AgentError>,
        now: i64,
    ) -> (r: Result<bool, Error>)
        ensures
            ends_delivery(*old(self), old(store)@, id, runtime, answer, now, *final(self), final(store)@, r),
    {
        let ghost before = self.live(store@);
        let ghost session = self.info.id;
        match answer {
            Ok(()) => {
                match self.set_state(
                    store,
                    id,
                    InputState::Accepted { runtime },
                    Some(SessionEvent::InputAccepted { input: id, runtime }),
                    now,
                ) {
                    Ok(()) => Ok(true),
                    Err(error) => Err(error),
                }
            },
            Err(AgentError::Busy(_)) => {
                match self.set_state(store, id, InputState::Queued { problem: None }, None, now) {
                    Ok(()) => Ok(false),
                    Err(error) => Err(error),
                }
            },
            Err(AgentError::Admission(words)) => {
                let message = words.clone();
                match self.reject_input(store, id, message, now) {
                    Ok(()) => {
                        proof {
                            assert(self.live(store@) == before.with_state(
                                session,
                                id,
                                InputState::Rejected { message: words },
                                Some(SessionEvent::InputRejected { input: id, message: words }),
                                now,
                            ));
                        }
                        Ok(true)
                    },
                    Err(error) => Err(error),
                }
            },
            Err(failure) => {
                let mut lost: Vec<InputId> = Vec::new();
                lost.push(id);
                proof {
                    assert(lost@ =~= seq![id]);
                }
                let event = SessionEvent::Interrupted { runtime, inputs: lost };
                let ghost noted = event;
                match self.set_state(
                    store,
                    id,
                    InputState::Interrupted { runtime },
                    Some(event),
                    now,
                ) {
                    Ok(()) => {
                        proof {
                            assert(noted@ == interruption(runtime, id));
                            assert(self.live(store@) == before.with_state(
                                session,
                                id,
                                InputState::Interrupted { runtime },
                                Some(noted),
                                now,
                            ));
                        }
                        Err(agent_error(&failure))
                    },
                    Err(error) => Err(error),
                }
            },
        }
    }
}

/// Whether noting a problem on the queued inputs gives this session, this store and this answer.
pub open spec fn notes_problem(
    actor: SessionActor,
    stored: StoreView,
    problem: Option<ConfigProblem>,
    next: SessionActor,
    kept: StoreView,
    r: Result<(), Error>,
) -> bool {
    &&& next.differs_in_inputs(actor)
    &&& {
        let (after, failed) = actor.live(stored).noted(
            actor.info.id,
            actor.queued(),
            problem,
        );
        &&& next.live(kept) == after
        &&& match failed {
            Some(error) => r matches Err(shown) && error.becomes(shown),
            None => r is Ok,
        }
    }
}

impl SessionActor {
    /// Makes the queued inputs show a configuration problem, or none.
    pub fn set_queued_problem(&mut self, store: &mut DataStore, problem: &Option<ConfigProblem>) -> (r:
        Result<(), Error>)
        ensures
            notes_problem(*old(self), old(store)@, *problem, *final(self), final(store)@, r),
    {
        let queued = self.queued_inputs();
        let ghost start = *self;
        let ghost before = self.live(store@);
        let ghost session = self.info.id;
        let mut i: usize = 0;
        while i < queued.len()
            invariant
                i <= queued@.len(),
                start == *old(self),
                before == old(self).live(old(store)@),
                session == start.info.id,
                queued@ == start.queued(),
                self.differs_in_inputs(start),
                (self.live(store@), None::<StoreError>) == before.noted(
                    session,
                    queued@.take(i as int),
                    *problem,
                ),
            decreases queued@.len() - i,
        {
            let id = queued[i];
            proof {
                assert(queued@.take(i + 1).drop_last() =~= queued@.take(i as int));
                assert(queued@.take(i + 1).last() == id);
            }
            let shown = match self.inputs.get(&make_input_key(self.info.id, id)) {
                Some(input) => match &input.state {
                    InputState::Queued { problem: current } => problems_agree(current, problem),
                    _ => false,
                },
                None => true,
            };
            if !shown {
                match self.set_state(
                    store,
                    id,
                    InputState::Queued { problem: problem.clone() },
                    None,
                    0,
                ) {
                    Ok(()) => {},
                    Err(error) => {
                        proof {
                            lemma_noted_fails(before, session, queued@, *problem, i + 1);
                        }
                        return Err(error);
                    },
                }
            }
            i = i + 1;
        }
        proof {
            lemma_take_all(queued@);
        }
        Ok(())
    }
}

/// A failure ends the noting of a problem.
proof fn lemma_noted_fails(
    live: Live,
    session: SessionId,
    ids: Seq<InputId>,
    problem: Option<ConfigProblem>,
    count: int,
)
    requires
        0 <= count <= ids.len(),
        live.noted(session, ids.take(count), problem).1 is Some,
    ensures
        live.noted(session, ids, problem) == live.noted(session, ids.take(count), problem),
    decreases ids.len() - count,
{
    if count == ids.len() {
        assert(ids.take(count) =~= ids);
    } else {
        assert(ids.take(count + 1).drop_last() =~= ids.take(count));
        lemma_noted_fails(live, session, ids, problem, count + 1);
    }
}

/// A held input that is saved in a new state stays in agreement with the store, and so does every
/// other one.
pub proof fn law_state_changes_keep_agreement(
    live: Live,
    session: SessionId,
    id: InputId,
    state: InputState,
    event: Option<SessionEvent>,
    now: i64,
)
    requires
        live.agrees(session),
        live.store.has_input(session, id),
        live.store.input(session, id).id == id,
    ensures
        live.with_state(session, id, state, event, now).agrees(session),
        live.with_state(session, id, state, event, now).inputs.dom() == (if state.is_terminal() {
            live.inputs.dom().remove(input_key(session, id))
        } else {
            live.inputs.dom().insert(input_key(session, id))
        }),
{
    let after = live.with_state(session, id, state, event, now);
    assert forall|key: DocumentKey| #[trigger] after.inputs.dom().contains(key) implies {
        &&& key == input_key(session, after.inputs[key].id)
        &&& after.store.inputs.dom().contains(key)
        &&& after.store.inputs[key] == after.inputs[key]
        &&& !after.inputs[key].state.is_terminal()
    } by {
        if key != input_key(session, id) {
            assert(live.inputs.dom().contains(key));
        }
    }
}

/// The event of an input that was lost with a runtime.
pub open spec fn interruption(runtime: RuntimeId, id: InputId) -> crate::api::SessionEventView {
    crate::api::SessionEventView::Interrupted { runtime, inputs: seq![id] }
}

/// Showing a problem on inputs takes none of them out of the queue: what waited before waits
/// afterwards, with the same text, and nothing else is held than before.
pub proof fn law_noting_a_problem_keeps_the_queue(
    live: Live,
    session: SessionId,
    ids: Seq<InputId>,
    problem: Option<ConfigProblem>,
    key: DocumentKey,
)
    requires
        live.agrees(session),
    ensures
        live.noted(session, ids, problem).0.agrees(session),
        live.noted(session, ids, problem).0.inputs.dom() == live.inputs.dom(),
        live.inputs.dom().contains(key) && live.inputs[key].state is Queued ==> ({
            let after = live.noted(session, ids, problem).0.inputs[key];
            &&& after.state is Queued
            &&& after == (InputView { state: after.state, ..live.inputs[key] })
        }),
    decreases ids.len(),
{
    if ids.len() > 0 {
        law_noting_a_problem_keeps_the_queue(live, session, ids.drop_last(), problem, key);
        let (before, failed) = live.noted(session, ids.drop_last(), problem);
        let id = ids.last();
        if failed is None && !before.shows(session, id, problem) && before.store.update_problem(
            session,
            id,
        ) is None {
            assert(before.inputs.dom().contains(input_key(session, id)));
            law_state_changes_keep_agreement(
                before,
                session,
                id,
                InputState::Queued { problem },
                None,
                0,
            );
            let after = before.with_state(session, id, InputState::Queued { problem }, None, 0);
            assert(after.inputs.dom() =~= before.inputs.dom());
        }
    }
}

} // verus!

//! The state of an open session, and what its commands do to it and to the store.

use vstd::prelude::*;

use super::agent::{project_runtime, shows_agent, AgentView};
use crate::api::{
    AcceptanceReceipt, AcceptanceSubmission, AppProblem, InputId, InputView, RuntimeState,
    SessionInfo, SessionSeq, SessionView, SubmissionReceipt, SubmitInput,
};

use crate::document::{listing, DocumentKey, KeyRange, Table};
use crate::error::{Error, StoreError};
use crate::ids::{AcceptanceId, RuntimeId, SessionId};
use crate::persistence::acceptance::AcceptanceError;
use crate::persistence::inputs::AcceptError;
use crate::persistence::keys::{input_key, make_input_key};
use crate::persistence::{DataStore, SavedSession, SavedSessionView, StoreView};
use crate::seqs::{lemma_filter_none, lemma_filter_step, lemma_take_all};

verus! {

/// A runtime that is installed, and how far its records are archived.
#[derive(Clone, Copy, Debug, PartialEq, Eq, Structural)]
pub struct LiveRuntime {
    pub id: RuntimeId,
    pub agent_through: u64,
}

/// The state of an open session. It holds the inputs that are not done with, under their keys in
/// the store.
pub struct SessionActor {
    pub info: SessionInfo,
    pub draft: String,
    pub inputs: Table<InputView>,
    pub runtime: Option<LiveRuntime>,
    pub starting: Option<RuntimeId>,
    pub runtime_state: RuntimeState,
    pub problem: Option<AppProblem>,
    /// Whether the configuration keeps the agent from working.
    pub config_blocked: bool,
    /// Whether a failure keeps the agent from working.
    pub execution_blocked: bool,
}

/// Inputs that are not done with, after one of them was saved in a new state.
pub open spec fn with_live(
    inputs: Map<DocumentKey, InputView>,
    session: SessionId,
    input: InputView,
) -> Map<DocumentKey, InputView> {
    if input.state.is_terminal() {
        inputs.remove(input_key(session, input.id))
    } else {
        inputs.insert(input_key(session, input.id), input)
    }
}

/// Held inputs by their numbers.
pub open spec fn listed_in(session: SessionId, inputs: Map<DocumentKey, InputView>) -> Seq<InputView> {
    listing(inputs.dom(), KeyRange::of(session.0)).map_values(|key: DocumentKey| inputs[key])
}

/// Whether an input waits for its delivery.
pub open spec fn is_queued(inputs: Map<DocumentKey, InputView>) -> spec_fn(DocumentKey) -> bool {
    |key: DocumentKey| inputs[key].state is Queued
}

/// The number of an input.
pub open spec fn number_in(inputs: Map<DocumentKey, InputView>) -> spec_fn(DocumentKey) -> InputId {
    |key: DocumentKey| inputs[key].id
}

/// The problem that the frontend is shown for an error; other errors concern their request alone.
pub open spec fn problem_of(error: Error) -> Option<AppProblem> {
    match error {
        Error::Configuration(problem) => Some(AppProblem::Configuration(problem)),
        Error::LoginRequired(profile) => Some(AppProblem::LoginRequired(profile)),
        Error::ProfileBusy(profile) => Some(AppProblem::ProfileBusy(profile)),
        Error::Provider(message) => Some(AppProblem::Provider(message)),
        Error::Storage(message) => Some(AppProblem::Storage(message)),
        Error::Tools(message) => Some(AppProblem::Tools(message)),
        Error::Agent(message) => Some(AppProblem::Agent(message)),
        _ => None,
    }
}

/// The problem that the frontend is shown for an error.
pub fn app_problem(error: &Error) -> (r: Option<AppProblem>)
    ensures
        r == problem_of(*error),
{
    match error {
        Error::Configuration(problem) => Some(AppProblem::Configuration(problem.clone())),
        Error::LoginRequired(profile) => Some(AppProblem::LoginRequired(profile.clone())),
        Error::ProfileBusy(profile) => Some(AppProblem::ProfileBusy(profile.clone())),
        Error::Provider(message) => Some(AppProblem::Provider(message.clone())),
        Error::Storage(message) => Some(AppProblem::Storage(message.clone())),
        Error::Tools(message) => Some(AppProblem::Tools(message.clone())),
        Error::Agent(message) => Some(AppProblem::Agent(message.clone())),
        _ => None,
    }
}

/// Whether a refused submission is reported as `shown`.
pub open spec fn refuses_input(error: AcceptError, shown: Error) -> bool {
    match error {
        AcceptError::NotFound => shown == Error::SessionNotFound,
        AcceptError::Conflict => shown == Error::RequestConflict,
        AcceptError::Store(error) => error.becomes(shown),
    }
}

/// A refused submission as an error of the application.
pub fn map_accept_error(error: AcceptError) -> (r: Error)
    ensures
        refuses_input(error, r),
{
    match error {
        AcceptError::NotFound => Error::SessionNotFound,
        AcceptError::Conflict => Error::RequestConflict,
        AcceptError::Store(error) => error.into_error(),
    }
}

/// Whether a refused decision is reported as `shown`.
pub open spec fn refuses_acceptance(error: AcceptanceError, shown: Error) -> bool {
    match error {
        AcceptanceError::ResultNotFound => shown.is_invalid("acceptance result not found"@),
        AcceptanceError::Conflict => shown == Error::RequestConflict,
        AcceptanceError::Store(error) => error.becomes(shown),
    }
}

/// A refused decision as an error of the application.
pub fn map_acceptance_error(error: AcceptanceError) -> (r: Error)
    ensures
        refuses_acceptance(error, r),
{
    match error {
        AcceptanceError::ResultNotFound => Error::invalid("acceptance result not found"),
        AcceptanceError::Conflict => Error::RequestConflict,
        AcceptanceError::Store(error) => error.into_error(),
    }
}

/// Why a session could not be claimed: another process has it, or the store failed.
pub fn claim_error(error: StoreError, session: SessionId) -> (r: Error)
    ensures
        if error is Busy {
            r == Error::SessionBusy(session)
        } else {
            error.becomes(r)
        },
{
    match error {
        StoreError::Busy => Error::SessionBusy(session),
        error => error.into_error(),
    }
}

/// Whether this is what submitting an input comes to.
pub open spec fn submits(
    before: SessionActor,
    stored: StoreView,
    input: SubmitInput,
    now: i64,
    after: SessionActor,
    saved: StoreView,
    r: Result<SubmissionReceipt, Error>,
) -> bool {
    let session = before.info.id;
    let (next, outcome) = stored.submission_outcome(session, input, now);
    &&& saved == next
    &&& match outcome {
        Ok((receipt, kept)) => {
            &&& r == Ok::<SubmissionReceipt, Error>(receipt)
            &&& after == (SessionActor {
                inputs: after.inputs,
                ..before
            })
            &&& after.inputs@ == (if kept.state.is_terminal() {
                before.inputs@
            } else {
                with_live(before.inputs@, session, kept)
            })
        },
        Err(error) => {
            &&& r matches Err(shown)
            &&& refuses_input(error, shown)
            &&& after == before
        },
    }
}

/// Whether this is what submitting a decision comes to.
pub open spec fn submits_acceptance(
    before: SessionActor,
    stored: StoreView,
    id: AcceptanceId,
    submission: AcceptanceSubmission,
    now: i64,
    after: SessionActor,
    saved: StoreView,
    r: Result<AcceptanceReceipt, Error>,
) -> bool {
    let (next, outcome) = stored.acceptance_outcome(id, submission, now);
    &&& saved == next
    &&& match outcome {
        Ok((receipt, rework)) => {
            &&& r == Ok::<AcceptanceReceipt, Error>(receipt)
            &&& after == (SessionActor {
                inputs: after.inputs,
                ..before
            })
            &&& after.inputs@ == (match rework {
                Some(kept) if !kept.state.is_terminal() => with_live(
                    before.inputs@,
                    before.info.id,
                    kept,
                ),
                _ => before.inputs@,
            })
        },
        Err(error) => {
            &&& r matches Err(shown)
            &&& refuses_acceptance(error, shown)
            &&& after == before
        },
    }
}

/// Whether this is what is shown of a session.
pub open spec fn publishes(
    actor: SessionActor,
    agent: Option<&AgentView>,
    history_through: SessionSeq,
    r: SessionView,
) -> bool {
    &&& r.session == actor.info
    &&& shows_state(actor.runtime_state, r.runtime)
    &&& r.draft == actor.draft
    &&& r.inputs@ == actor.listed()
    &&& match (actor.runtime, agent) {
        (Some(runtime), Some(view)) => shows_agent(
            runtime.id,
            *view,
            r.jobs@,
            r.activity@,
        ),
        _ => r.jobs@.len() == 0 && r.activity@.len() == 0,
    }
    &&& r.history_through == history_through
    &&& r.problem == actor.problem
}

/// Whether this is a session as it is opened.
pub open spec fn opens(
    saved: SavedSessionView,
    inputs: Seq<InputView>,
    r: SessionActor,
) -> bool {
    &&& r.info == saved.info
    &&& r.draft == saved.draft
    &&& r.inputs@ == live_of(saved.info.id, inputs)
    &&& r.runtime is None
    &&& r.starting is None
    &&& r.runtime_state is Detached
    &&& r.problem is None
    &&& !r.config_blocked
    &&& !r.execution_blocked
}

/// Whether reading the agent anew gives this session.
pub open spec fn forgets_errors(
    actor: SessionActor,
    next: SessionActor,
) -> bool {
    next == (SessionActor {
        execution_blocked: false,
        problem: if actor.execution_blocked && !actor.config_blocked {
            None
        } else {
            actor.problem
        },
        ..actor
    })
}

impl SessionActor {
    /// Whether every input that this session holds is in the store as it holds it, under its own
    /// number, and is not done with.
    pub open spec fn follows(self, store: StoreView) -> bool {
        self.live(store).agrees(self.info.id)
    }

    /// Whether this session holds an input.
    pub open spec fn holds(self, id: InputId) -> bool {
        self.inputs@.dom().contains(input_key(self.info.id, id))
    }

    /// An input that this session holds.
    pub open spec fn input(self, id: InputId) -> InputView {
        self.inputs@[input_key(self.info.id, id)]
    }

    /// The keys of the inputs that this session holds, by their numbers.
    pub open spec fn listed_keys(self) -> Seq<DocumentKey> {
        listing(self.inputs@.dom(), KeyRange::of(self.info.id.0))
    }

    /// The inputs that this session holds, by their numbers.
    pub open spec fn listed(self) -> Seq<InputView> {
        listed_in(self.info.id, self.inputs@)
    }

    /// The inputs that wait for their delivery, by their numbers.
    pub open spec fn queued(self) -> Seq<InputId> {
        self.listed_keys().filter(is_queued(self.inputs@)).map_values(number_in(self.inputs@))
    }

    /// A session as it is opened: with the inputs that are not done with and without a runtime.
    pub fn open(saved: &SavedSession, inputs: &Vec<InputView>) -> (r: SessionActor)
        ensures
            opens(saved@, inputs@, r),
    {
        SessionActor {
            info: saved.info.clone(),
            draft: saved.draft.clone(),
            inputs: live_table(saved.info.id, inputs),
            runtime: None,
            starting: None,
            runtime_state: RuntimeState::Detached,
            problem: None,
            config_blocked: false,
            execution_blocked: false,
        }
    }

    /// The inputs that this session holds, by their numbers.
    pub fn list_inputs(&self) -> (r: Vec<InputView>)
        ensures
            r@ == self.listed(),
    {
        let keys = self.inputs.select(&KeyRange::owned_by(self.info.id.0));
        let mut r: Vec<InputView> = Vec::new();
        let mut i: usize = 0;
        while i < keys.len()
            invariant
                i <= keys@.len(),
                keys@ == self.listed_keys(),
                forall|j: int| #![trigger keys@[j]]
                    0 <= j < keys@.len() ==> self.inputs@.dom().contains(keys@[j]),
                r@.len() == i,
                forall|j: int| #![trigger r@[j]] 0 <= j < i ==> r@[j] == self.inputs@[keys@[j]],
            decreases keys@.len() - i,
        {
            assert(self.inputs@.dom().contains(keys@[i as int]));
            match self.inputs.get(&keys[i]) {
                Some(input) => {
                    r.push(input.clone());
                },
                None => {},
            }
            i = i + 1;
        }
        proof {
            assert(r@ =~= self.listed());
        }
        r
    }

    /// The inputs that wait for their delivery, by their numbers.
    pub fn queued_inputs(&self) -> (r: Vec<InputId>)
        ensures
            r@ == self.queued(),
    {
        let keys = self.inputs.select(&KeyRange::owned_by(self.info.id.0));
        let ghost waits = is_queued(self.inputs@);
        let ghost number = number_in(self.inputs@);
        let mut r: Vec<InputId> = Vec::new();
        let mut i: usize = 0;
        proof {
            lemma_filter_none(keys@, waits);
            assert(r@ =~= keys@.take(0).filter(waits).map_values(number));
        }
        while i < keys.len()
            invariant
                i <= keys@.len(),
                keys@ == self.listed_keys(),
                waits == is_queued(self.inputs@),
                number == number_in(self.inputs@),
                forall|j: int| #![trigger keys@[j]]
                    0 <= j < keys@.len() ==> self.inputs@.dom().contains(keys@[j]),
                r@ == keys@.take(i as int).filter(waits).map_values(number),
            decreases keys@.len() - i,
        {
            proof {
                assert(self.inputs@.dom().contains(keys@[i as int]));
                lemma_filter_step(keys@, i as int, waits);
            }
            match self.inputs.get(&keys[i]) {
                Some(input) => {
                    if input.state.queued() {
                        r.push(input.id);
                    }
                },
                None => {},
            }
            proof {
                assert(r@ =~= keys@.take(i + 1).filter(waits).map_values(number));
            }
            i = i + 1;
        }
        proof {
            lemma_take_all(keys@);
        }
        r
    }

    /// Holds an input in its new state, or no longer where it is done with.
    pub(crate) fn keep(&mut self, input: InputView)
        ensures
            final(self).inputs@ == with_live(old(self).inputs@, old(self).info.id, input),
            *final(self) == (SessionActor { inputs: final(self).inputs, ..*old(self) }),
    {
        let key = make_input_key(self.info.id, input.id);
        if input.state.terminal() {
            let _ = self.inputs.take(&key);
        } else {
            self.inputs.put(key, input);
        }
    }

    /// Whether the agent is to be stopped for an error: the first failure of the store or the agent
    /// while a runtime works.
    pub open spec fn stops_for(self, error: Error) -> bool {
        !self.config_blocked && (error is Storage || error is Agent) && !self.execution_blocked
            && self.runtime is Some
    }

    /// This session after an error was noted.
    pub open spec fn after_error(self, error: Error) -> SessionActor {
        match problem_of(error) {
            None => self,
            Some(problem) => SessionActor {
                problem: Some(problem),
                execution_blocked: self.execution_blocked || self.stops_for(error),
                ..self
            },
        }
    }

    /// Notes an error for the frontend. The first failure of the store or the agent while a runtime
    /// works blocks it: then the agent is to be stopped.
    pub fn record_execution_error(&mut self, error: &Error) -> (stop: bool)
        ensures
            stop == old(self).stops_for(*error),
            *final(self) == old(self).after_error(*error),
    {
        match app_problem(error) {
            None => false,
            Some(problem) => {
                self.problem = Some(problem);
                let severe = match error {
                    Error::Storage(_) => true,
                    Error::Agent(_) => true,
                    _ => false,
                };
                let stop = !self.config_blocked && severe && !self.execution_blocked
                    && self.runtime.is_some();
                if stop {
                    self.execution_blocked = true;
                }
                stop
            },
        }
    }

    /// Notes that the agent's state was read: a failure before that no longer blocks it.
    pub fn refreshed(&mut self)
        ensures
            forgets_errors(*old(self), *final(self)),
    {
        if self.execution_blocked {
            self.execution_blocked = false;
            if !self.config_blocked {
                self.problem = None;
            }
        }
    }

    /// Saves an input that the user submits.
    pub fn submit(&mut self, store: &mut DataStore, input: &SubmitInput, now: i64) -> (r: Result<
        SubmissionReceipt,
        Error,
    >)
        ensures
            submits(*old(self), old(store)@, *input, now, *final(self), final(store)@, r),
            old(self).follows(old(store)@) && old(store)@.inputs_under_their_numbers()
                && old(store)@.numbers_below_next(old(self).info.id) ==> final(self).follows(
                final(store)@,
            ),
    {
        match store.accept_input(self.info.id, input, now) {
            Ok((receipt, saved)) => {
                if !saved.state.terminal() {
                    self.keep(saved);
                }
                Ok(receipt)
            },
            Err(error) => Err(map_accept_error(error)),
        }
    }

    /// Saves a decision that the user submits, and the new input that comes with a rejection.
    pub fn submit_acceptance(
        &mut self,
        store: &mut DataStore,
        id: AcceptanceId,
        submission: &AcceptanceSubmission,
        now: i64,
    ) -> (r: Result<AcceptanceReceipt, Error>)
        ensures
            submits_acceptance(*old(self), old(store)@, id, *submission, now, *final(self), final(store)@, r),
    {
        match store.record_acceptance_as(id, submission, now) {
            Ok((receipt, rework)) => {
                match rework {
                    Some(saved) => {
                        if !saved.state.terminal() {
                            self.keep(saved);
                        }
                    },
                    None => {},
                }
                Ok(receipt)
            },
            Err(error) => Err(map_acceptance_error(error)),
        }
    }

    /// The state of this session for a frontend, with what the agent shows.
    pub fn published(&self, agent: Option<&AgentView>, history_through: SessionSeq) -> (r: SessionView)
        ensures
            publishes(*self, agent, history_through, r),
    {
        let (jobs, activity) = match (&self.runtime, agent) {
            (Some(runtime), Some(view)) => project_runtime(runtime.id, view),
            _ => (Vec::new(), Vec::new()),
        };
        SessionView {
            session: self.info.clone(),
            runtime: copy_state(&self.runtime_state),
            draft: self.draft.clone(),
            inputs: self.list_inputs(),
            jobs,
            activity,
            history_through,
            problem: self.problem.clone(),
        }
    }
}

/// Whether a shown runtime state is the one of the session.
pub open spec fn shows_state(state: RuntimeState, shown: RuntimeState) -> bool {
    match state {
        RuntimeState::Running { id, config } => shown matches RuntimeState::Running {
            id: shown_id,
            config: shown_config,
        } && shown_id == id && shown_config@ == config@,
        _ => shown == state,
    }
}

fn copy_state(state: &RuntimeState) -> (r: RuntimeState)
    ensures
        shows_state(*state, r),
{
    match state {
        RuntimeState::Detached => RuntimeState::Detached,
        RuntimeState::Starting => RuntimeState::Starting,
        RuntimeState::Running { id, config } => RuntimeState::Running {
            id: *id,
            config: Box::new(config.copy()),
        },
        RuntimeState::Closing { id } => RuntimeState::Closing { id: *id },
    }
}

/// The inputs of a list that are not done with, under their keys. Where two have one number, the
/// later one counts.
pub open spec fn live_of(session: SessionId, inputs: Seq<InputView>) -> Map<DocumentKey, InputView>
    decreases inputs.len(),
{
    if inputs.len() == 0 {
        Map::empty()
    } else {
        let before = live_of(session, inputs.drop_last());
        if inputs.last().state.is_terminal() {
            before
        } else {
            before.insert(input_key(session, inputs.last().id), inputs.last())
        }
    }
}

/// The inputs of a list that are not done with.
pub fn live_table(session: SessionId, inputs: &Vec<InputView>) -> (r: Table<InputView>)
    ensures
        r@ == live_of(session, inputs@),
{
    let mut r: Table<InputView> = Table::new();
    let mut i: usize = 0;
    while i < inputs.len()
        invariant
            i <= inputs@.len(),
            r@ == live_of(session, inputs@.take(i as int)),
        decreases inputs@.len() - i,
    {
        proof {
            assert(inputs@.take(i + 1).drop_last() =~= inputs@.take(i as int));
            assert(inputs@.take(i + 1).last() == inputs@[i as int]);
        }
        if !inputs[i].state.terminal() {
            r.put(make_input_key(session, inputs[i].id), inputs[i].clone());
        }
        i = i + 1;
    }
    proof {
        lemma_take_all(inputs@);
    }
    r
}

} // verus!

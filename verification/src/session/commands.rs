//! What the commands of a session come to.

use vstd::prelude::*;

use super::actor::{with_live, SessionActor};
use super::agent::{
    failed_in, has_failed_in, host_resolution_outcome, is_uncertain, receipt, receipt_of,
    settled_by_host, taken_up, uncertain, AgentCall, AgentInput, AgentInputStatus, AgentView,
    ControlOutcome,
};

use crate::api::{
    CallRef, CommandReceipt, InputId, InputState, InputView, RuntimeState, SessionInfo,
    WriteResolution,
};
use crate::document::{lists, DocumentKey, KeyRange};
use crate::error::Error;
use crate::ids::{RuntimeId, SessionId};
use crate::persistence::inputs::{all_to, cancellations};
use crate::persistence::keys::{input_key, make_input_key, session_key};
use crate::persistence::writes::ResolveWriteResult;
use crate::persistence::{DataStore, SavedSessionView, StoreView};
use crate::record::{ExternalEffect, ToolOutcome};
use crate::seqs::{lemma_filter_none, lemma_filter_step, lemma_take_all};
use crate::title::{valid_title, validate_title};

verus! {

/// How an input is tried again.
#[derive(Clone, Copy, Debug, PartialEq, Eq, Structural)]
pub enum RetryStep {
    /// The queued inputs are to be delivered.
    Deliver { was_starting: bool },
    /// The agent is to try again.
    Ask { runtime: RuntimeId },
    /// There is nothing to try again.
    Unchanged,
}

/// What is left to do after a write was settled.
#[derive(Debug, PartialEq, Eq)]
pub enum ResolveStep {
    Done(CommandReceipt),
    /// The agent is to be told the outcome.
    Tell { outcome: ToolOutcome, receipt: CommandReceipt },
}

/// The name of an effect.
pub open spec fn effect_name(effect: ExternalEffect) -> Seq<char> {
    match effect {
        ExternalEffect::NotApplied => "NotApplied"@,
        ExternalEffect::Applied => "Applied"@,
        ExternalEffect::Unknown => "Unknown"@,
    }
}

fn effect_conflict(effect: ExternalEffect) -> (r: Error)
    ensures
        r.is_invalid("the saved write effect is "@ + effect_name(effect)),
{
    let mut message = "the saved write effect is ".to_owned();
    message.push_str(
        match effect {
            ExternalEffect::NotApplied => "NotApplied",
            ExternalEffect::Applied => "Applied",
            ExternalEffect::Unknown => "Unknown",
        },
    );
    Error::InvalidState(message)
}

/// Held inputs without some of them.
pub open spec fn without(
    inputs: Map<DocumentKey, InputView>,
    session: SessionId,
    ids: Seq<InputId>,
) -> Map<DocumentKey, InputView>
    decreases ids.len(),
{
    if ids.len() == 0 {
        inputs
    } else {
        without(inputs, session, ids.drop_last()).remove(input_key(session, ids.last()))
    }
}

/// Held inputs after the agent took some of them up.
pub open spec fn with_accepted(
    inputs: Map<DocumentKey, InputView>,
    store: StoreView,
    session: SessionId,
    ids: Seq<InputId>,
    runtime: RuntimeId,
) -> Map<DocumentKey, InputView>
    decreases ids.len(),
{
    if ids.len() == 0 {
        inputs
    } else {
        with_live(
            with_accepted(inputs, store, session, ids.drop_last(), runtime),
            session,
            InputView {
                state: InputState::Accepted { runtime },
                ..store.input(session, ids.last())
            },
        )
    }
}

/// What stopping a session comes to for the user.
pub fn stop_receipt(had_queued: bool, cancelled_start: bool, outcome: Option<ControlOutcome>) -> (r:
    CommandReceipt)
    ensures
        r == (if had_queued || cancelled_start {
            CommandReceipt::Applied
        } else {
            match outcome {
                Some(outcome) => receipt_of(outcome),
                None => CommandReceipt::Unchanged,
            }
        }),
{
    if had_queued || cancelled_start {
        CommandReceipt::Applied
    } else {
        match outcome {
            Some(outcome) => receipt(outcome),
            None => CommandReceipt::Unchanged,
        }
    }
}

/// Whether this is how an input is tried again: a queued one is delivered, one that could not be
/// routed is handed to the agent again, for any other there is nothing to do.
pub open spec fn retries(
    before: SessionActor,
    stored: StoreView,
    id: InputId,
    r: Result<RetryStep, Error>,
) -> bool {
    match before.state_of(stored, id) {
        None => r matches Err(error) && error.is_invalid("input does not exist"@),
        Some(InputState::Queued { .. }) => r == Ok::<RetryStep, Error>(
            RetryStep::Deliver { was_starting: before.starting is Some },
        ),
        Some(InputState::RoutingFailed { runtime, .. }) => r == (if before.is_current(
            runtime,
        ) {
            Ok::<RetryStep, Error>(RetryStep::Ask { runtime })
        } else {
            Err(Error::StaleRuntime(runtime))
        }),
        Some(_) => r == Ok::<RetryStep, Error>(RetryStep::Unchanged),
    }
}

/// Whether this is what settling a write comes to.
pub open spec fn resolves_write(
    before: SessionActor,
    stored: StoreView,
    target: CallRef,
    resolution: WriteResolution,
    gate_free: bool,
    now: i64,
    saved: StoreView,
    r: Result<ResolveStep, Error>,
) -> bool {
    let workspace = before.info.workspace;
    let session = before.info.id;
    if resolution.external_effect == ExternalEffect::Unknown {
        &&& r matches Err(error)
        &&& error.is_invalid(
            "a write resolution must decide whether the effect occurred"@,
        )
        &&& saved == stored
    } else if !gate_free {
        &&& r == Err::<ResolveStep, Error>(Error::WriteInProgress)
        &&& saved == stored
    } else {
        let told = before.runtime is Some && stored.call_origin(session, target.id)
            == Some(target);
        match stored.resolving(
            workspace,
            session,
            target,
            resolution.external_effect,
        ) {
            ResolveWriteResult::Unchanged => {
                &&& r == Ok::<ResolveStep, Error>(
                    ResolveStep::Done(CommandReceipt::Unchanged),
                )
                &&& saved == stored
            },
            ResolveWriteResult::Conflicts(actual) => {
                &&& r matches Err(error)
                &&& error.is_invalid(
                    "the saved write effect is "@ + effect_name(actual),
                )
                &&& saved == stored
            },
            ResolveWriteResult::Applied => {
                &&& saved == stored.with_resolution(
                    workspace,
                    session,
                    target,
                    resolution,
                    now,
                )
                &&& r is Ok
                &&& resolved_step(
                    r->Ok_0,
                    told,
                    resolution.external_effect,
                    CommandReceipt::Applied,
                )
            },
            ResolveWriteResult::AlreadyResolved(effect) => {
                &&& saved == stored
                &&& r is Ok
                &&& resolved_step(r->Ok_0, told, effect, CommandReceipt::Unchanged)
            },
        }
    }
}

/// Whether this is what cancelling the queued inputs comes to.
pub open spec fn cancels_queued(
    before: SessionActor,
    stored: StoreView,
    now: i64,
    after: SessionActor,
    saved: StoreView,
    r: Result<bool, Error>,
) -> bool {
    let session = before.info.id;
    let ids = before.queued();
    let changes = all_to(ids, InputState::Cancelled);
    if ids.len() == 0 {
        &&& r == Ok::<bool, Error>(false)
        &&& saved == stored
        &&& after == before
    } else if !stored.has_session(session) {
        &&& r matches Err(Error::Storage(message))
        &&& message@ == "input belongs to a missing session"@
        &&& saved == stored
        &&& after == before
    } else if !stored.has_all(session, changes) {
        &&& r matches Err(Error::Storage(message))
        &&& message@ == "input does not exist"@
        &&& saved == stored
        &&& after == before
    } else {
        &&& r == Ok::<bool, Error>(true)
        &&& saved == stored.with_changes(session, changes).with_entries(
            session,
            cancellations(ids, now),
        )
        &&& after.differs_in_inputs(before)
        &&& after.inputs@ == without(before.inputs@, session, ids)
    }
}

/// Whether this is what renaming this session comes to.
pub open spec fn renames(
    before: SessionActor,
    stored: StoreView,
    title: String,
    after: SessionActor,
    saved: StoreView,
    r: Result<(), Error>,
) -> bool {
    let session = before.info.id;
    if !valid_title(title@) {
        &&& r matches Err(error)
        &&& error.is_invalid("invalid session title"@)
        &&& saved == stored
        &&& after == before
    } else if !stored.has_session(session) {
        &&& r matches Err(Error::Storage(message))
        &&& message@ == "session does not exist"@
        &&& saved == stored
        &&& after == before
    } else {
        &&& r is Ok
        &&& saved == stored.with_final_title(session, title)
        &&& after == (SessionActor {
            info: SessionInfo { title, ..stored.session(session).info },
            ..before
        })
    }
}

/// Whether this is what replacing the first title comes to.
pub open spec fn renames_if_provisional(
    before: SessionActor,
    stored: StoreView,
    title: String,
    after: SessionActor,
    saved: StoreView,
    r: Result<bool, Error>,
) -> bool {
    let session = before.info.id;
    if !valid_title(title@) {
        &&& r matches Err(error)
        &&& error.is_invalid("invalid session title"@)
        &&& saved == stored
        &&& after == before
    } else if !stored.has_session(session) {
        &&& r matches Err(Error::Storage(message))
        &&& message@ == "session does not exist"@
        &&& saved == stored
        &&& after == before
    } else if !stored.provisional.dom().contains(session_key(session)) {
        &&& r == Ok::<bool, Error>(false)
        &&& saved == stored
        &&& after == before
    } else {
        &&& r == Ok::<bool, Error>(true)
        &&& saved == stored.with_final_title(session, title)
        &&& after == (SessionActor {
            info: SessionInfo { title, ..stored.session(session).info },
            ..before
        })
    }
}

/// Whether this is what archiving this session comes to.
pub open spec fn archives(
    before: SessionActor,
    stored: StoreView,
    archived: bool,
    after: SessionActor,
    saved: StoreView,
    r: Result<(), Error>,
) -> bool {
    let session = before.info.id;
    let info = SessionInfo { archived, ..stored.session(session).info };
    if !stored.has_session(session) {
        &&& r matches Err(Error::Storage(message))
        &&& message@ == "session does not exist"@
        &&& saved == stored
        &&& after == before
    } else {
        &&& r is Ok
        &&& saved == stored.with_session(
            session,
            SavedSessionView { info, ..stored.session(session) },
        )
        &&& after == (SessionActor { info, ..before })
    }
}

/// Whether this is what saving the draft comes to.
pub open spec fn saves_draft(
    before: SessionActor,
    stored: StoreView,
    draft: String,
    after: SessionActor,
    saved: StoreView,
    r: Result<(), Error>,
) -> bool {
    let session = before.info.id;
    if !stored.has_session(session) {
        &&& r matches Err(Error::Storage(message))
        &&& message@ == "session does not exist"@
        &&& saved == stored
        &&& after == before
    } else {
        &&& r is Ok
        &&& saved == stored.with_session(
            session,
            SavedSessionView { draft, ..stored.session(session) },
        )
        &&& after == (SessionActor { draft, ..before })
    }
}

/// Whether this is the outcome that the agent is to be told of a call that it shows without one:
/// the saved outcome of the write, else what the user found. Without a runtime, or for a call that
/// another runtime made, there is none.
pub open spec fn knows_outcome(
    actor: SessionActor,
    store: StoreView,
    call: CallRef,
    outcome: Option<ToolOutcome>,
) -> bool {
    let workspace = actor.info.workspace;
    let settled = store.has_resolution(workspace, call) && store.write_resolution(
        workspace,
        call,
    ).session == actor.info.id;
    if actor.runtime is None || store.call_origin(actor.info.id, call.id) != Some(call) {
        outcome is None
    } else {
        match store.finished_outcome(workspace, call) {
            Some(finished) => outcome == Some(finished),
            None => if settled {
                outcome is Some && settled_by_host(
                    outcome->0,
                    store.write_resolution(workspace, call).external_effect,
                )
            } else {
                outcome is None
            },
        }
    }
}

/// Whether the agent shows a call as ended without anybody knowing what it changed, and its runtime
/// is known.
pub open spec fn is_unsettled(store: StoreView, session: SessionId) -> spec_fn(AgentCall) -> bool {
    |call: AgentCall| is_uncertain(call) && store.call_origin(session, call.id) is Some
}

/// A call with the runtime that made it.
pub open spec fn origin_in(store: StoreView, session: SessionId) -> spec_fn(AgentCall) -> CallRef {
    |call: AgentCall| store.call_origin(session, call.id)->0
}

/// Whether the end of a retry gives this session, this store and this answer.
pub open spec fn ends_retry(
    actor: SessionActor,
    stored: StoreView,
    runtime: RuntimeId,
    outcome: ControlOutcome,
    agent: AgentView,
    next: SessionActor,
    kept: StoreView,
    r: Result<CommandReceipt, Error>,
) -> bool {
    let session = actor.info.id;
    let before = stored;
    let ids = actor.restored(runtime, agent.inputs@);
    let changes = all_to(ids, InputState::Accepted { runtime });
    if !actor.is_current(runtime) {
        &&& r == Err::<CommandReceipt, Error>(Error::StaleRuntime(runtime))
        &&& kept == before
        &&& next == actor
    } else if ids.len() == 0 {
        &&& r == Ok::<CommandReceipt, Error>(receipt_of(outcome))
        &&& kept == before
        &&& next == actor
    } else if !before.has_session(session) {
        &&& r matches Err(Error::Storage(message))
        &&& message@ == "input belongs to a missing session"@
        &&& kept == before
        &&& next == actor
    } else if !before.has_all(session, changes) {
        &&& r matches Err(Error::Storage(message))
        &&& message@ == "input does not exist"@
        &&& kept == before
        &&& next == actor
    } else {
        &&& r == Ok::<CommandReceipt, Error>(CommandReceipt::Applied)
        &&& kept == before.with_changes(session, changes)
        &&& next.differs_in_inputs(actor)
        &&& next.inputs@ == with_accepted(
            actor.inputs@,
            before,
            session,
            ids,
            runtime,
        )
    }
}

/// Whether this says if an input was delivered.
pub open spec fn delivers(
    actor: SessionActor,
    id: InputId,
    was_starting: bool,
    r: CommandReceipt,
) -> bool {
    r == (if (actor.holds(id) && !(actor.input(id).state is Queued)) || (!was_starting
        && actor.starting is Some) {
        CommandReceipt::Applied
    } else {
        CommandReceipt::Unchanged
    })
}

/// Whether this says if a runtime is the current one.
pub open spec fn confirms_runtime(
    actor: SessionActor,
    runtime: RuntimeId,
    r: Result<(), Error>,
) -> bool {
    r == (if actor.is_current(runtime) {
        Ok::<(), Error>(())
    } else {
        Err(Error::StaleRuntime(runtime))
    })
}

/// Whether these are the calls that wait to be settled.
pub open spec fn names_unsettled(
    actor: SessionActor,
    store: StoreView,
    view: AgentView,
    r: Seq<CallRef>,
) -> bool {
    r == view.calls@.filter(is_unsettled(store, actor.info.id)).map_values(
        origin_in(store, actor.info.id),
    )
}

impl SessionActor {
    /// Whether a runtime is the installed one.
    pub open spec fn is_current(self, runtime: RuntimeId) -> bool {
        self.runtime is Some && self.runtime->0.id == runtime
    }

    /// Checks that a runtime is the installed one.
    pub fn current_runtime(&self, runtime: RuntimeId) -> (r: Result<(), Error>)
        ensures
            confirms_runtime(*self, runtime, r),
    {
        match self.runtime {
            Some(current) => {
                if current.id == runtime {
                    Ok(())
                } else {
                    Err(Error::StaleRuntime(runtime))
                }
            },
            None => Err(Error::StaleRuntime(runtime)),
        }
    }

    /// The state of an input: as it is held, else as it is stored.
    pub open spec fn state_of(self, store: StoreView, id: InputId) -> Option<InputState> {
        if self.holds(id) {
            Some(self.input(id).state)
        } else if store.has_input(self.info.id, id) {
            Some(store.input(self.info.id, id).state)
        } else {
            None
        }
    }

    /// How an input is tried again: a queued one is delivered, one that could not be routed is
    /// handed to the agent again, for any other there is nothing to do.
    pub fn begin_retry(&self, store: &DataStore, id: InputId) -> (r: Result<RetryStep, Error>)
        ensures
            retries(*self, store@, id, r),
    {
        let key = make_input_key(self.info.id, id);
        let state = match self.inputs.get(&key) {
            Some(input) => input.state.clone(),
            None => match store.input(self.info.id, id) {
                Some(input) => input.state,
                None => {
                    return Err(Error::invalid("input does not exist"));
                },
            },
        };
        match state {
            InputState::Queued { .. } => Ok(
                RetryStep::Deliver { was_starting: self.starting.is_some() },
            ),
            InputState::RoutingFailed { runtime, .. } => match self.current_runtime(runtime) {
                Ok(()) => Ok(RetryStep::Ask { runtime }),
                Err(error) => Err(error),
            },
            _ => Ok(RetryStep::Unchanged),
        }
    }

    /// What delivering the queued inputs came to for one of them: it left the queue, or a runtime
    /// was started for it.
    pub fn delivered(&self, id: InputId, was_starting: bool) -> (r: CommandReceipt)
        ensures
            delivers(*self, id, was_starting, r),
    {
        let left = match self.inputs.get(&make_input_key(self.info.id, id)) {
            Some(input) => !input.state.queued(),
            None => false,
        };
        if left || (!was_starting && self.starting.is_some()) {
            CommandReceipt::Applied
        } else {
            CommandReceipt::Unchanged
        }
    }

    /// Whether the agent has taken an input up that it had failed to route.
    pub open spec fn restores(self, runtime: RuntimeId) -> spec_fn(AgentInput) -> bool {
        |input: AgentInput|
            self.holds(input.id) && failed_in(self.input(input.id), runtime) && taken_up(input)
    }

    /// The inputs that the agent has taken up after it had failed to route them.
    pub open spec fn restored(self, runtime: RuntimeId, agent: Seq<AgentInput>) -> Seq<InputId> {
        agent.filter(self.restores(runtime)).map_values(|input: AgentInput| input.id)
    }

    /// The inputs that the agent has taken up after it had failed to route them.
    pub fn restored_routing_inputs(&self, runtime: RuntimeId, agent: &AgentView) -> (r: Vec<InputId>)
        ensures
            r@ == self.restored(runtime, agent.inputs@),
    {
        let ghost keep = self.restores(runtime);
        let ghost number = |input: AgentInput| input.id;
        let mut r: Vec<InputId> = Vec::new();
        let mut i: usize = 0;
        proof {
            lemma_filter_none(agent.inputs@, keep);
            assert(r@ =~= agent.inputs@.take(0).filter(keep).map_values(number));
        }
        while i < agent.inputs.len()
            invariant
                i <= agent.inputs@.len(),
                keep == self.restores(runtime),
                number == (|input: AgentInput| input.id),
                r@ == agent.inputs@.take(i as int).filter(keep).map_values(number),
            decreases agent.inputs@.len() - i,
        {
            proof {
                lemma_filter_step(agent.inputs@, i as int, keep);
            }
            let input = agent.inputs[i];
            let failed = match self.inputs.get(&make_input_key(self.info.id, input.id)) {
                Some(held) => has_failed_in(held, runtime),
                None => false,
            };
            if failed && (input.status == AgentInputStatus::Routing || input.status
                == AgentInputStatus::Handled) {
                r.push(input.id);
            }
            proof {
                assert(r@ =~= agent.inputs@.take(i + 1).filter(keep).map_values(number));
            }
            i = i + 1;
        }
        proof {
            lemma_take_all(agent.inputs@);
        }
        r
    }

    /// Ends the second try of an input with the agent's answer and its state: every input that the
    /// agent has taken up is accepted again.
    pub fn end_retry(
        &mut self,
        store: &mut DataStore,
        runtime: RuntimeId,
        outcome: ControlOutcome,
        agent: &AgentView,
    ) -> (r: Result<CommandReceipt, Error>)
        ensures
            ends_retry(*old(self), old(store)@, runtime, outcome, *agent, *final(self), final(store)@, r),
    {
        match self.current_runtime(runtime) {
            Ok(()) => {},
            Err(error) => {
                return Err(error);
            },
        }
        let restored = self.restored_routing_inputs(runtime, agent);
        if restored.len() == 0 {
            return Ok(receipt(outcome));
        }
        let ghost start = *self;
        let ghost session = self.info.id;
        let ghost before = store@;
        let ghost changes = all_to(restored@, InputState::Accepted { runtime });
        match store.accept_inputs(self.info.id, &restored, runtime) {
            Ok(updated) => {
                let mut updated = updated;
                let ghost all = updated@;
                let mut i: usize = 0;
                let count: usize = updated.len();
                while i < count
                    invariant
                        i <= count,
                        count == all.len(),
                        count == restored@.len(),
                        updated@ == all,
                        session == start.info.id,
                        self.differs_in_inputs(start),
                        before.has_all(session, changes),
                        changes == all_to(restored@, InputState::Accepted { runtime }),
                        forall|j: int| #![trigger all[j]]
                            0 <= j < all.len() ==> all[j] == (InputView {
                                state: InputState::Accepted { runtime },
                                ..before.with_changes(session, changes.take(j)).input(
                                    session,
                                    restored@[j],
                                )
                            }),
                        self.inputs@ == with_accepted(
                            start.inputs@,
                            before,
                            session,
                            restored@.take(i as int),
                            runtime,
                        ),
                    decreases count - i,
                {
                    proof {
                        assert(restored@.take(i + 1).drop_last() =~= restored@.take(i as int));
                        assert(restored@.take(i + 1).last() == restored@[i as int]);
                        assert forall|j: int| 0 <= j < changes.take(i as int).len() implies before.has_input(
                            session,
                            (#[trigger] changes.take(i as int)[j]).0,
                        ) by {
                            assert(before.has_input(session, changes[j].0));
                        }
                        assert(before.has_input(session, changes[i as int].0));
                        lemma_changes_keep_content(
                            before,
                            session,
                            changes.take(i as int),
                            restored@[i as int],
                        );
                    }
                    self.keep(updated[i].clone());
                    i = i + 1;
                }
                proof {
                    lemma_take_all(restored@);
                }
                Ok(CommandReceipt::Applied)
            },
            Err(error) => Err(error.into_error()),
        }
    }

    /// Cancels the queued inputs, and says whether there were any.
    pub fn cancel_queued(&mut self, store: &mut DataStore, now: i64) -> (r: Result<bool, Error>)
        ensures
            cancels_queued(*old(self), old(store)@, now, *final(self), final(store)@, r),
    {
        let queued = self.queued_inputs();
        if queued.len() == 0 {
            return Ok(false);
        }
        match store.cancel_inputs(self.info.id, &queued, now) {
            Ok(()) => {},
            Err(error) => {
                return Err(error.into_error());
            },
        }
        let ghost start = *self;
        let ghost session = self.info.id;
        let mut i: usize = 0;
        while i < queued.len()
            invariant
                i <= queued@.len(),
                session == start.info.id,
                self.differs_in_inputs(start),
                self.inputs@ == without(start.inputs@, session, queued@.take(i as int)),
            decreases queued@.len() - i,
        {
            proof {
                assert(queued@.take(i + 1).drop_last() =~= queued@.take(i as int));
                assert(queued@.take(i + 1).last() == queued@[i as int]);
            }
            let _ = self.inputs.take(&make_input_key(self.info.id, queued[i]));
            i = i + 1;
        }
        proof {
            lemma_take_all(queued@);
        }
        Ok(true)
    }

    /// This session after a runtime that is being started was given up.
    pub open spec fn start_given_up(self) -> SessionActor {
        if self.starting is Some {
            SessionActor { starting: None, runtime_state: RuntimeState::Detached, ..self }
        } else {
            self
        }
    }

    /// Gives up a runtime that is being started, and says whether there was one.
    pub fn cancel_start(&mut self) -> (r: bool)
        ensures
            r == (old(self).starting is Some),
            *final(self) == old(self).start_given_up(),
    {
        if self.starting.is_some() {
            self.starting = None;
            self.runtime_state = RuntimeState::Detached;
            true
        } else {
            false
        }
    }

    /// Settles a write as the user found it, and says what the agent is to be told. Nothing is
    /// settled while a write is executing.
    pub fn resolve_write(
        &self,
        store: &mut DataStore,
        target: CallRef,
        resolution: &WriteResolution,
        gate_free: bool,
        now: i64,
    ) -> (r: Result<ResolveStep, Error>)
        ensures
            resolves_write(*self, old(store)@, target, *resolution, gate_free, now, final(store)@, r),
    {
        if resolution.external_effect == ExternalEffect::Unknown {
            return Err(
                Error::invalid("a write resolution must decide whether the effect occurred"),
            );
        }
        if !gate_free {
            return Err(Error::WriteInProgress);
        }
        let (effect, answer) = match store.resolve_write(
            self.info.workspace,
            self.info.id,
            target,
            resolution.clone(),
            now,
        ) {
            ResolveWriteResult::Unchanged => {
                return Ok(ResolveStep::Done(CommandReceipt::Unchanged));
            },
            ResolveWriteResult::Conflicts(actual) => {
                return Err(effect_conflict(actual));
            },
            ResolveWriteResult::Applied => (resolution.external_effect, CommandReceipt::Applied),
            ResolveWriteResult::AlreadyResolved(saved) => (saved, CommandReceipt::Unchanged),
        };
        let origin = store.core_call_origin(self.info.id, target.id);
        let told = self.runtime.is_some() && match origin {
            Some(origin) => origin == target,
            None => false,
        };
        if told {
            Ok(ResolveStep::Tell { outcome: host_resolution_outcome(effect), receipt: answer })
        } else {
            Ok(ResolveStep::Done(answer))
        }
    }

    /// The outcome that the agent is to be told of a call that it shows without one.
    pub fn known_outcome(&self, store: &DataStore, call: CallRef) -> (r: Option<ToolOutcome>)
        ensures
            knows_outcome(*self, store@, call, r),
    {
        if self.runtime.is_none() {
            return None;
        }
        match store.core_call_origin(self.info.id, call.id) {
            Some(origin) => {
                if origin != call {
                    return None;
                }
            },
            None => {
                return None;
            },
        }
        match store.finished_write(self.info.workspace, call) {
            Some(outcome) => Some(outcome),
            None => match store.resolved_write_effect(self.info.workspace, self.info.id, call) {
                Some(effect) => Some(host_resolution_outcome(effect)),
                None => None,
            },
        }
    }

    /// The calls that the agent shows as ended without anybody knowing what they changed, with the
    /// runtimes that made them. For each the agent is to be told the outcome where it is known.
    pub fn unsettled_calls(&self, store: &DataStore, view: &AgentView) -> (r: Vec<CallRef>)
        ensures
            names_unsettled(*self, store@, *view, r@),
    {
        let ghost keep = is_unsettled(store@, self.info.id);
        let ghost origin = origin_in(store@, self.info.id);
        let mut r: Vec<CallRef> = Vec::new();
        let mut i: usize = 0;
        proof {
            lemma_filter_none(view.calls@, keep);
            assert(r@ =~= view.calls@.take(0).filter(keep).map_values(origin));
        }
        while i < view.calls.len()
            invariant
                i <= view.calls@.len(),
                keep == is_unsettled(store@, self.info.id),
                origin == origin_in(store@, self.info.id),
                r@ == view.calls@.take(i as int).filter(keep).map_values(origin),
            decreases view.calls@.len() - i,
        {
            proof {
                lemma_filter_step(view.calls@, i as int, keep);
            }
            if uncertain(&view.calls[i]) {
                match store.core_call_origin(self.info.id, view.calls[i].id) {
                    Some(call) => {
                        r.push(call);
                    },
                    None => {},
                }
            }
            proof {
                assert(r@ =~= view.calls@.take(i + 1).filter(keep).map_values(origin));
            }
            i = i + 1;
        }
        proof {
            lemma_take_all(view.calls@);
        }
        r
    }

    /// Renames this session.
    pub fn rename(&mut self, store: &mut DataStore, title: String) -> (r: Result<(), Error>)
        ensures
            renames(*old(self), old(store)@, title, *final(self), final(store)@, r),
    {
        match validate_title(title.as_str()) {
            Ok(()) => {},
            Err(error) => {
                return Err(error);
            },
        }
        match store.rename_session(self.info.id, title) {
            Ok(info) => {
                self.info = info;
                Ok(())
            },
            Err(error) => Err(error.into_error()),
        }
    }

    /// Replaces the first title of this session, and says whether it could still be replaced.
    pub fn rename_if_provisional(&mut self, store: &mut DataStore, title: String) -> (r: Result<
        bool,
        Error,
    >)
        ensures
            renames_if_provisional(*old(self), old(store)@, title, *final(self), final(store)@, r),
    {
        match validate_title(title.as_str()) {
            Ok(()) => {},
            Err(error) => {
                return Err(error);
            },
        }
        match store.rename_session_if_provisional(self.info.id, title) {
            Ok(Some(info)) => {
                self.info = info;
                Ok(true)
            },
            Ok(None) => Ok(false),
            Err(error) => Err(error.into_error()),
        }
    }

    /// Archives this session, or takes it out of the archive.
    pub fn archive(&mut self, store: &mut DataStore, archived: bool) -> (r: Result<(), Error>)
        ensures
            archives(*old(self), old(store)@, archived, *final(self), final(store)@, r),
    {
        match store.archive_session(self.info.id, archived) {
            Ok(info) => {
                self.info = info;
                Ok(())
            },
            Err(error) => Err(error.into_error()),
        }
    }

    /// Saves the draft of this session.
    pub fn save_draft(&mut self, store: &mut DataStore, draft: String) -> (r: Result<(), Error>)
        ensures
            saves_draft(*old(self), old(store)@, draft, *final(self), final(store)@, r),
    {
        match store.save_draft(self.info.id, draft.clone()) {
            Ok(()) => {
                self.draft = draft;
                Ok(())
            },
            Err(error) => Err(error.into_error()),
        }
    }
}

/// Whether this is what is left to do after a write was settled.
pub open spec fn resolved_step(
    step: ResolveStep,
    told: bool,
    effect: ExternalEffect,
    answer: CommandReceipt,
) -> bool {
    if told {
        step matches ResolveStep::Tell { outcome, receipt } && settled_by_host(outcome, effect)
            && receipt == answer
    } else {
        step == ResolveStep::Done(answer)
    }
}

/// Changes of states leave everything else of an input as it was.
proof fn lemma_changes_keep_content(
    store: StoreView,
    session: SessionId,
    changes: Seq<(InputId, InputState)>,
    id: InputId,
)
    requires
        store.has_all(session, changes),
        store.has_input(session, id),
    ensures
        ({
            let after = store.with_changes(session, changes).input(session, id);
            after == (InputView { state: after.state, ..store.input(session, id) })
        }),
    decreases changes.len(),
{
    if changes.len() > 0 {
        let head = changes.drop_last();
        assert forall|i: int| 0 <= i < head.len() implies store.has_input(
            session,
            (#[trigger] head[i]).0,
        ) by {
            assert(head[i] == changes[i]);
        }
        lemma_changes_keep_content(store, session, head, id);
    }
}

proof fn lemma_without(inputs: Map<DocumentKey, InputView>, session: SessionId, ids: Seq<InputId>)
    ensures
        forall|key: DocumentKey| #[trigger]
            without(inputs, session, ids).dom().contains(key) ==> inputs.dom().contains(key)
                && without(inputs, session, ids)[key] == inputs[key] && (forall|i: int|
                0 <= i < ids.len() ==> key != input_key(session, #[trigger] ids[i])),
    decreases ids.len(),
{
    if ids.len() > 0 {
        let head = ids.drop_last();
        lemma_without(inputs, session, head);
        assert forall|key: DocumentKey| #[trigger]
            without(inputs, session, ids).dom().contains(key) implies inputs.dom().contains(key)
            && without(inputs, session, ids)[key] == inputs[key] && (forall|i: int|
            0 <= i < ids.len() ==> key != input_key(session, #[trigger] ids[i])) by {
            assert(without(inputs, session, head).dom().contains(key));
            assert forall|i: int| 0 <= i < ids.len() implies key != input_key(
                session,
                #[trigger] ids[i],
            ) by {
                if i < head.len() {
                    assert(head[i] == ids[i]);
                }
            }
        }
    }
}

/// After the queued inputs of a session were cancelled, none that it holds waits for its delivery,
/// and the others are as they were.
pub proof fn law_cancelling_empties_the_queue(actor: SessionActor, store: StoreView, key: DocumentKey)
    requires
        actor.follows(store),
        lists(actor.listed_keys(), actor.inputs@.dom(), KeyRange::of(actor.info.id.0)),
        without(actor.inputs@, actor.info.id, actor.queued()).dom().contains(key),
    ensures
        actor.inputs@.dom().contains(key),
        without(actor.inputs@, actor.info.id, actor.queued())[key] == actor.inputs@[key],
        !(actor.inputs@[key].state is Queued),
{
    let session = actor.info.id;
    lemma_without(actor.inputs@, session, actor.queued());
    assert(actor.inputs@.dom().contains(key));
    if actor.inputs@[key].state is Queued {
        let keys = actor.listed_keys();
        assert(keys.contains(key));
        let at = choose|at: int| 0 <= at < keys.len() && keys[at] == key;
        let waits = super::actor::is_queued(actor.inputs@);
        keys.lemma_filter_contains(waits, at);
        let waiting = keys.filter(waits);
        let place = choose|place: int| 0 <= place < waiting.len() && waiting[place] == key;
        assert(actor.queued()[place] == actor.inputs@[key].id);
    }
}

} // verus!

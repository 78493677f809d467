//! How inputs get from a session to its agent, and what comes back.

use vstd::prelude::*;

use crate::api::{
    AppProblem, InputId, InputState, InputView, SessionEventView, CommandReceipt,
};
use crate::config::ConfigProblem;
use crate::document::DocumentKey;
use crate::error::Error;
use crate::ids::{RuntimeId, SessionId};
use crate::persistence::inputs::{all_to, lemma_changes};
use crate::persistence::keys::{input_key, session_key};
use crate::persistence::laws::lemma_changed_pointwise;
use crate::persistence::{SavedSessionView, StoreView, StoredEntryView, StoredEventView};

use crate::seqs::lemma_filter_keeps;
use crate::session::actor::{live_of, opens, SessionActor};
use crate::session::agent::{AgentError, AgentInputStatus, AgentView, ControlOutcome};
use crate::session::archive::live_after;
use crate::session::commands::{delivers, ends_retry};
use crate::session::delivery::{
    begins_delivery, ends_delivery, notes_problem, rejects_input, Delivery, DeliveryPlan, Live,
};

verus! {

/// What a session does with its queue. While a failure blocks the agent nothing is delivered; while
/// the configuration does, its problem is noted on the inputs. Without a runtime one is started,
/// unless one is being started. Else the whole queue is posted. An empty queue asks for nothing.
pub proof fn law_the_queue_is_delivered_when_it_can_be(actor: SessionActor)
    ensures
        ({
            let plan = actor.delivery();
            let waiting = actor.queued().len() > 0 && !actor.execution_blocked;
            &&& !waiting ==> plan == DeliveryPlan::Idle
            &&& waiting && actor.config_blocked ==> {
                &&& actor.problem matches Some(AppProblem::Configuration(problem)) ==> plan
                    == DeliveryPlan::Note(problem)
                &&& !(actor.problem is Some && actor.problem->0 is Configuration) ==> plan
                    == DeliveryPlan::Idle
            }
            &&& waiting && !actor.config_blocked && actor.runtime is None ==> plan == (
            if actor.starting is None {
                DeliveryPlan::Start
            } else {
                DeliveryPlan::Idle
            })
            &&& waiting && !actor.config_blocked && actor.runtime is Some ==> plan
                == DeliveryPlan::Post(actor.queued())
        }),
{
}

/// An input is posted to the current runtime with its own text and the question that it answers, and
/// is noted as on its way there. One that answers a question of an earlier runtime is rejected with
/// that reason, and the history says so.
pub proof fn law_inputs_are_posted_as_they_are(
    actor: SessionActor,
    stored: StoreView,
    id: InputId,
    now: i64,
    next: SessionActor,
    kept: StoreView,
    r: Result<Delivery, Error>,
)
    requires
        begins_delivery(actor, stored, id, now, next, kept, r),
        actor.runtime is Some,
        actor.inputs@.dom().contains(input_key(actor.info.id, id)),
        actor.follows(stored),
        stored.sessions.dom().contains(session_key(actor.info.id)),
    ensures
        ({
            let key = input_key(actor.info.id, id);
            let input = actor.inputs@[key];
            let runtime = actor.runtime->0.id;
            let stale = input.reply_to is Some && input.reply_to->0.runtime != runtime;
            &&& r is Ok
            &&& !stale ==> {
                &&& r->Ok_0 == (Delivery::Post {
                    runtime,
                    text: input.text,
                    reply_to: input.reply_to,
                })
                &&& kept.inputs == stored.inputs.insert(
                    key,
                    InputView { state: InputState::Posting { runtime }, ..stored.inputs[key] },
                )
                &&& next.inputs@ == actor.inputs@.insert(key, kept.inputs[key])
                &&& kept.journals == stored.journals
            }
            &&& stale ==> {
                &&& r->Ok_0 == Delivery::Rejected
                &&& kept.inputs[key].state is Rejected
                &&& kept.inputs == stored.inputs.insert(key, kept.inputs[key])
                &&& !next.inputs@.dom().contains(key)
                &&& kept.history(actor.info.id).len() == stored.history(actor.info.id).len() + 1
                &&& kept.history(actor.info.id).last().event matches StoredEventView::App(
                    SessionEventView::InputRejected { input, .. },
                )
                &&& input == id
            }
            &&& next == (SessionActor { inputs: next.inputs, ..actor })
        }),
{
    let key = input_key(actor.info.id, id);
    assert(actor.live(stored).inputs.dom().contains(key));
    assert(stored.inputs.dom().contains(key));
    assert(next.live(kept).store == kept);
    assert(next.live(kept).inputs == next.inputs@);
}

/// What comes of a posted input. One that the agent took is accepted by the runtime and the history
/// says so. One that the agent was too busy for is queued again, without a problem. One that it does
/// not admit is rejected with the agent's words. After any other failure it is interrupted, the
/// history says so, and the failure is reported. Nothing else of the input changes, and the session
/// goes on with the next one exactly where the agent was not too busy.
pub proof fn law_posted_inputs_end_somewhere(
    actor: SessionActor,
    stored: StoreView,
    id: InputId,
    runtime: RuntimeId,
    answer: Result<(), AgentError>,
    now: i64,
    next: SessionActor,
    kept: StoreView,
    r: Result<bool, Error>,
)
    requires
        ends_delivery(actor, stored, id, runtime, answer, now, next, kept, r),
        stored.sessions.dom().contains(session_key(actor.info.id)),
        stored.inputs.dom().contains(input_key(actor.info.id, id)),
        stored.inputs[input_key(actor.info.id, id)].id == id,
    ensures
        ({
            let key = input_key(actor.info.id, id);
            let state = kept.inputs[key].state;
            let told = kept.history(actor.info.id).last().event;
            let grown = kept.history(actor.info.id).len() == stored.history(actor.info.id).len() + 1;
            &&& kept.inputs == stored.inputs.insert(key, InputView { state, ..stored.inputs[key] })
            &&& answer is Ok ==> {
                &&& r == Ok::<bool, Error>(true)
                &&& state == (InputState::Accepted { runtime })
                &&& next.inputs@ == actor.inputs@.insert(key, kept.inputs[key])
                &&& grown
                &&& told == StoredEventView::App(
                    SessionEventView::InputAccepted { input: id, runtime },
                )
            }
            &&& answer matches Err(AgentError::Busy(_)) ==> {
                &&& r == Ok::<bool, Error>(false)
                &&& state == (InputState::Queued { problem: None })
                &&& next.inputs@ == actor.inputs@.insert(key, kept.inputs[key])
                &&& kept.journals == stored.journals
            }
            &&& answer matches Err(AgentError::Admission(words)) ==> {
                &&& r == Ok::<bool, Error>(true)
                &&& state matches InputState::Rejected { message }
                &&& message@ == words@
                &&& next.inputs@ == actor.inputs@.remove(key)
                &&& grown
                &&& told matches StoredEventView::App(
                    SessionEventView::InputRejected { input, message: reason },
                )
                &&& input == id
                &&& reason@ == words@
            }
            &&& (answer matches Err(AgentError::InvalidConfiguration(_))) || (
            answer matches Err(AgentError::Other(_))) ==> {
                &&& r is Err
                &&& r->Err_0 is Agent
                &&& state == (InputState::Interrupted { runtime })
                &&& next.inputs@ == actor.inputs@.remove(key)
                &&& grown
                &&& told == StoredEventView::App(
                    SessionEventView::Interrupted { runtime, inputs: seq![id] },
                )
            }
            &&& next == (SessionActor { inputs: next.inputs, ..actor })
        }),
{
    assert(next.live(kept).store == kept);
    assert(next.live(kept).inputs == next.inputs@);
}

/// A rejected input is rejected with its reason, which the history gives too, and the session no
/// longer holds it.
pub proof fn law_rejected_inputs_say_why(
    actor: SessionActor,
    stored: StoreView,
    id: InputId,
    message: String,
    now: i64,
    next: SessionActor,
    kept: StoreView,
    r: Result<(), Error>,
)
    requires
        rejects_input(actor, stored, id, message, now, next, kept, r),
        stored.sessions.dom().contains(session_key(actor.info.id)),
        stored.inputs.dom().contains(input_key(actor.info.id, id)),
        stored.inputs[input_key(actor.info.id, id)].id == id,
    ensures
        ({
            let key = input_key(actor.info.id, id);
            &&& r is Ok
            &&& kept.inputs == stored.inputs.insert(
                key,
                InputView { state: InputState::Rejected { message }, ..stored.inputs[key] },
            )
            &&& next.inputs@ == actor.inputs@.remove(key)
            &&& kept.history(actor.info.id) == stored.history(actor.info.id).push(
                StoredEntryView {
                    occurred_at: now,
                    event: StoredEventView::App(
                        SessionEventView::InputRejected { input: id, message },
                    ),
                },
            )
            &&& next == (SessionActor { inputs: next.inputs, ..actor })
        }),
{
    assert(next.live(kept).store == kept);
    assert(next.live(kept).inputs == next.inputs@);
    assert(kept.history(actor.info.id) =~= stored.history(actor.info.id).push(
        StoredEntryView {
            occurred_at: now,
            event: StoredEventView::App(SessionEventView::InputRejected { input: id, message }),
        },
    ));
}

/// Once a problem was noted on the queue, every input of it that the session holds is still queued
/// and shows that problem, or none where there is none.
pub proof fn law_noted_problems_are_shown(
    live: Live,
    session: SessionId,
    ids: Seq<InputId>,
    problem: Option<ConfigProblem>,
    at: int,
)
    requires
        0 <= at < ids.len(),
        live.noted(session, ids, problem).1 is None,
        live.store.inputs_under_their_numbers(),
    ensures
        ({
            let after = live.noted(session, ids, problem).0;
            let key = input_key(session, ids[at]);
            &&& after.inputs.dom().contains(key) ==> {
                &&& after.inputs[key].state matches InputState::Queued { problem: shown }
                &&& (shown is Some) == (problem is Some)
                &&& problem is Some ==> shown->0@ == problem->0@
            }
            &&& after.store.inputs_under_their_numbers()
        }),
    decreases ids.len(),
{
    let head = ids.drop_last();
    let (mid, failed) = live.noted(session, head, problem);
    if at < head.len() {
        assert(head[at] == ids[at]);
        law_noted_problems_are_shown(live, session, head, problem, at);
    } else {
        lemma_noting_keeps_numbers(live, session, head, problem);
    }
    let last = input_key(session, ids.last());
    if mid.store.inputs.dom().contains(last) {
        assert(mid.store.inputs[last].id == ids.last());
    }
}

proof fn lemma_noting_keeps_numbers(
    live: Live,
    session: SessionId,
    ids: Seq<InputId>,
    problem: Option<ConfigProblem>,
)
    requires
        live.store.inputs_under_their_numbers(),
    ensures
        live.noted(session, ids, problem).0.store.inputs_under_their_numbers(),
    decreases ids.len(),
{
    if ids.len() > 0 {
        lemma_noting_keeps_numbers(live, session, ids.drop_last(), problem);
        let mid = live.noted(session, ids.drop_last(), problem).0;
        let last = input_key(session, ids.last());
        if mid.store.inputs.dom().contains(last) {
            assert(mid.store.inputs[last].id == ids.last());
        }
    }
}

/// Noting a problem on the queue notes it on the whole queue, and changes nothing of the session but
/// its inputs.
pub proof fn law_problems_are_noted_on_the_queue(
    actor: SessionActor,
    stored: StoreView,
    problem: Option<ConfigProblem>,
    next: SessionActor,
    kept: StoreView,
    r: Result<(), Error>,
    at: int,
)
    requires
        notes_problem(actor, stored, problem, next, kept, r),
        r is Ok,
        stored.inputs_under_their_numbers(),
        0 <= at < actor.queued().len(),
    ensures
        ({
            let key = input_key(actor.info.id, actor.queued()[at]);
            &&& next.inputs@.dom().contains(key) ==> {
                &&& next.inputs@[key].state matches InputState::Queued { problem: shown }
                &&& (shown is Some) == (problem is Some)
                &&& problem is Some ==> shown->0@ == problem->0@
            }
            &&& next == (SessionActor { inputs: next.inputs, ..actor })
        }),
{
    law_noted_problems_are_shown(
        actor.live(stored),
        actor.info.id,
        actor.queued(),
        problem,
        at,
    );
    assert(next.live(kept).inputs == next.inputs@);
}

/// An input whose routing had failed and which the agent has taken up again is accepted, in the
/// session and in the store; any other stays as it is. The answer is that something was changed
/// where an input was accepted, else it is the agent's.
pub proof fn law_retried_inputs_are_accepted(
    actor: SessionActor,
    stored: StoreView,
    runtime: RuntimeId,
    outcome: ControlOutcome,
    agent: AgentView,
    next: SessionActor,
    kept: StoreView,
    r: Result<CommandReceipt, Error>,
    id: InputId,
)
    requires
        ends_retry(actor, stored, runtime, outcome, agent, next, kept, r),
        actor.follows(stored),
        stored.sessions.dom().contains(session_key(actor.info.id)),
        actor.runtime is Some,
        actor.runtime->0.id == runtime,
    ensures
        ({
            let key = input_key(actor.info.id, id);
            let again = actor.inputs@.dom().contains(key) && (
            actor.inputs@[key].state matches InputState::RoutingFailed { runtime: owner, .. }
                && owner == runtime) && exists|n: int|
                0 <= n < agent.inputs@.len() && (#[trigger] agent.inputs@[n]).id == id && (
                agent.inputs@[n].status == AgentInputStatus::Routing || agent.inputs@[n].status
                    == AgentInputStatus::Handled);
            &&& r is Ok
            &&& again ==> {
                &&& r->Ok_0 == CommandReceipt::Applied
                &&& kept.inputs[key] == (InputView {
                    state: InputState::Accepted { runtime },
                    ..stored.inputs[key]
                })
            }
            &&& !again ==> kept.inputs[key] == stored.inputs[key]
            &&& r->Ok_0 == CommandReceipt::Unchanged ==> outcome == ControlOutcome::Unchanged
            &&& next == (SessionActor { inputs: next.inputs, ..actor })
        }),
{
    let session = actor.info.id;
    let keep = actor.restores(runtime);
    let kept_inputs = agent.inputs@.filter(keep);
    let ids = actor.restored(runtime, agent.inputs@);
    let changes = all_to(ids, InputState::Accepted { runtime });
    let key = input_key(session, id);
    assert forall|i: int| 0 <= i < ids.len() implies stored.has_input(session, #[trigger] ids[i])
        && keep(kept_inputs[i]) by {
        lemma_filter_keeps(agent.inputs@, keep, i);
        assert(actor.live(stored).inputs.dom().contains(input_key(session, ids[i])));
    }
    assert forall|i: int| 0 <= i < changes.len() implies stored.has_input(
        session,
        (#[trigger] changes[i]).0,
    ) by {
        assert(stored.has_input(session, ids[i]));
    }
    lemma_changed_pointwise(stored, session, ids, InputState::Accepted { runtime });
    lemma_changes(stored, session, changes);
    let again = actor.inputs@.dom().contains(key) && (
    actor.inputs@[key].state matches InputState::RoutingFailed { runtime: owner, .. } && owner
        == runtime) && exists|n: int|
        0 <= n < agent.inputs@.len() && (#[trigger] agent.inputs@[n]).id == id && (
        agent.inputs@[n].status == AgentInputStatus::Routing || agent.inputs@[n].status
            == AgentInputStatus::Handled);
    if again {
        let n = choose|n: int|
            0 <= n < agent.inputs@.len() && (#[trigger] agent.inputs@[n]).id == id && (
            agent.inputs@[n].status == AgentInputStatus::Routing || agent.inputs@[n].status
                == AgentInputStatus::Handled);
        assert(keep(agent.inputs@[n]));
        agent.inputs@.lemma_filter_contains(keep, n);
        let m = choose|m: int| 0 <= m < kept_inputs.len() && kept_inputs[m] == agent.inputs@[n];
        assert(ids[m] == id);
        assert(ids.contains(id));
    } else {
        assert forall|i: int| 0 <= i < ids.len() implies input_key(session, #[trigger] ids[i])
            != key by {
            if ids[i] == id {
                lemma_filter_keeps(agent.inputs@, keep, i);
                let n = choose|n: int|
                    0 <= n < agent.inputs@.len() && agent.inputs@[n] == kept_inputs[i];
                assert(agent.inputs@[n].id == id);
            }
        }
    }
}

/// A delivery counts as done where the input has left the queue, or where it was what made a start
/// begin.
pub proof fn law_deliveries_are_confirmed(
    actor: SessionActor,
    id: InputId,
    was_starting: bool,
    r: CommandReceipt,
)
    requires
        delivers(actor, id, was_starting, r),
    ensures
        ({
            let key = input_key(actor.info.id, id);
            let left = actor.inputs@.dom().contains(key) && !(actor.inputs@[key].state is Queued);
            r == CommandReceipt::Applied <==> left || (!was_starting && actor.starting is Some)
        }),
{
}

/// An opened session has what is stored of it: its title, its draft and exactly those of its inputs
/// that are not done with. It runs nothing, starts nothing, and has no problem.
pub proof fn law_opened_session_holds_what_is_open(
    saved: SavedSessionView,
    inputs: Seq<InputView>,
    r: SessionActor,
    i: int,
)
    requires
        opens(saved, inputs, r),
        0 <= i < inputs.len(),
        forall|a: int, b: int|
            0 <= a < b < inputs.len() ==> (#[trigger] inputs[a]).id != (#[trigger] inputs[b]).id,
    ensures
        ({
            let key = input_key(saved.info.id, inputs[i].id);
            let done = inputs[i].state is Finished || inputs[i].state is Rejected || inputs[i].state
                is Cancelled || inputs[i].state is Interrupted;
            &&& r.info == saved.info
            &&& r.draft == saved.draft
            &&& r.runtime is None
            &&& r.starting is None
            &&& r.runtime_state is Detached
            &&& r.problem is None
            &&& !r.config_blocked
            &&& !r.execution_blocked
            &&& r.inputs@.dom().contains(key) == !done
            &&& !done ==> r.inputs@[key] == inputs[i]
        }),
{
    lemma_live(saved.info.id, inputs, i);
}

proof fn lemma_live(session: SessionId, inputs: Seq<InputView>, i: int)
    requires
        0 <= i < inputs.len(),
        forall|a: int, b: int|
            0 <= a < b < inputs.len() ==> (#[trigger] inputs[a]).id != (#[trigger] inputs[b]).id,
    ensures
        ({
            let key = input_key(session, inputs[i].id);
            let live = live_of(session, inputs);
            &&& live.dom().contains(key) == !inputs[i].state.is_terminal()
            &&& !inputs[i].state.is_terminal() ==> live[key] == inputs[i]
        }),
    decreases inputs.len(),
{
    let head = inputs.drop_last();
    if i < head.len() {
        assert forall|a: int, b: int| 0 <= a < b < head.len() implies (#[trigger] head[a]).id != (
        #[trigger] head[b]).id by {
            assert(inputs[a].id != inputs[b].id);
        }
        lemma_live(session, head, i);
        assert(head[i] == inputs[i]);
        assert(inputs[i].id != inputs[inputs.len() - 1].id);
    } else {
        lemma_not_live(session, head, inputs[i].id);
        assert forall|a: int| 0 <= a < head.len() implies (#[trigger] head[a]).id != inputs[i].id by {
            assert(inputs[a].id != inputs[i].id);
        }
    }
}

proof fn lemma_not_live(session: SessionId, inputs: Seq<InputView>, id: InputId)
    ensures
        (forall|a: int| 0 <= a < inputs.len() ==> (#[trigger] inputs[a]).id != id) ==> !live_of(
            session,
            inputs,
        ).dom().contains(input_key(session, id)),
    decreases inputs.len(),
{
    if inputs.len() > 0 {
        let head = inputs.drop_last();
        lemma_not_live(session, head, id);
        if forall|a: int| 0 <= a < inputs.len() ==> (#[trigger] inputs[a]).id != id {
            assert forall|a: int| 0 <= a < head.len() implies (#[trigger] head[a]).id != id by {
                assert(head[a] == inputs[a]);
            }
            assert(inputs[inputs.len() - 1].id != id);
        }
    }
}

/// What the session holds follows a record: an input that a change ends is no longer held, and one
/// that is held has the state of its last change. An input that no change names stays as it is.
pub proof fn law_held_inputs_follow_the_changes(
    inputs: Map<DocumentKey, InputView>,
    session: SessionId,
    changes: Seq<(InputId, InputState)>,
    id: InputId,
    state: InputState,
)
    ensures
        ({
            let key = input_key(session, id);
            let ends = state is Finished || state is Rejected || state is Cancelled || state
                is Interrupted;
            let after = live_after(inputs, session, changes.push((id, state)));
            let without = live_after(inputs, session, changes);
            &&& ends ==> !after.dom().contains(key)
            &&& !ends ==> after.dom().contains(key) == without.dom().contains(key)
            &&& !ends && without.dom().contains(key) ==> after[key] == (InputView {
                state,
                ..without[key]
            })
            &&& forall|other: DocumentKey| other != key ==> (#[trigger] after.dom().contains(other)
                == without.dom().contains(other)) && (without.dom().contains(other)
                ==> after[other] == without[other])
            &&& live_after(inputs, session, Seq::empty()) == inputs
        }),
{
    assert(changes.push((id, state)).drop_last() =~= changes);
}

} // verus!

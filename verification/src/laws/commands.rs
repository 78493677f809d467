//! What a session promises to whoever commands it.

use vstd::prelude::*;

use crate::api::{
    AcceptanceSubmission, AppProblem, CallRef, CommandReceipt, InputId, InputState, InputView, JobControl, JobRef,
    SessionInfo, SessionReleaseStatus, SessionRetentionReason, SessionSeq, SubmitInput,
    WriteResolution,
};
use crate::document::{law_listings_are_complete, DocumentKey, KeyRange};
use crate::error::Error;
use crate::file_config::AdapterDefaults;
use crate::ids::{AcceptanceId, RuntimeId};
use crate::persistence::inputs::{all_to, lemma_changes};
use crate::persistence::keys::{core_key, input_key, request_key, session_key, write_key};
use crate::persistence::laws::lemma_changed_pointwise;
use crate::persistence::{SavedSessionView, StoreView};
use crate::record::ExternalEffect;
use crate::seqs::lemma_filter_keeps;
use crate::session::actor::{is_queued, number_in, SessionActor};
use crate::session::handling::{handles, Command, Handling, Reply, Work};
use crate::session::lifecycle::CloseStep;
use crate::title::valid_title;

verus! {

/// A new input is saved as it was submitted before it is answered, held by the session in the same
/// form, and then to be delivered. The answer is the receipt with its number and its place in the
/// history. Nothing else of the session changes.
pub proof fn law_submitted_input_is_saved_and_held(
    before: SessionActor,
    stored: StoreView,
    input: SubmitInput,
    now: i64,
    after: SessionActor,
    saved: StoreView,
    handling: Handling,
)
    requires
        handles(before, stored, Command::Submit { input }, now, after, saved, handling),
        stored.sessions.dom().contains(session_key(before.info.id)),
        stored.sessions[session_key(before.info.id)].next_input < u64::MAX,
        stored.history(before.info.id).len() < u64::MAX,
        !stored.requests.dom().contains(request_key(before.info.id, input.request_id)),
    ensures
        ({
            let number = stored.sessions[session_key(before.info.id)].next_input;
            let key = input_key(before.info.id, InputId(number));
            &&& handling.work == Work::Deliver
            &&& handling.reply matches Some(Ok(Reply::Submitted(receipt)))
            &&& receipt.input.0 == number
            &&& receipt.saved_at.0 == stored.history(before.info.id).len() + 1
            &&& saved.inputs.dom().contains(key)
            &&& saved.inputs[key].text == input.text
            &&& saved.inputs[key].request_id == input.request_id
            &&& saved.inputs[key].reply_to == input.reply_to
            &&& saved.inputs[key].state == (InputState::Queued { problem: None })
            &&& after.inputs@ == before.inputs@.insert(key, saved.inputs[key])
            &&& after == (SessionActor { inputs: after.inputs, ..before })
        }),
{
}

/// A request that was used with other content is refused, and nothing is saved or held for it. The
/// same request gets its first receipt again.
pub proof fn law_used_requests_are_answered_alike(
    before: SessionActor,
    stored: StoreView,
    input: SubmitInput,
    now: i64,
    after: SessionActor,
    saved: StoreView,
    handling: Handling,
)
    requires
        handles(before, stored, Command::Submit { input }, now, after, saved, handling),
        stored.requests.dom().contains(request_key(before.info.id, input.request_id)),
    ensures
        ({
            let first = stored.requests[request_key(before.info.id, input.request_id)];
            let same = first.text@ == input.text@ && first.reply_to == input.reply_to;
            &&& saved == stored
            &&& !same ==> handling.reply == Some(Err::<Reply, Error>(Error::RequestConflict))
                && handling.work == Work::Nothing && after == before
            &&& same && stored.inputs.dom().contains(input_key(before.info.id, first.input)) ==> {
                &&& handling.reply matches Some(Ok(Reply::Submitted(receipt)))
                &&& receipt.input == first.input
                &&& receipt.saved_at == first.saved_at
            }
        }),
{
}

/// Retrying an input changes nothing by itself. A queued input is to be delivered, one whose routing
/// failed in the current runtime is to be asked for again there, and one that failed in an earlier
/// runtime is refused as stale. After a failure of the agent its state is read first. An input that
/// is not there is refused, and any other is left alone.
pub proof fn law_retry_follows_the_input(
    before: SessionActor,
    stored: StoreView,
    input: InputId,
    now: i64,
    after: SessionActor,
    saved: StoreView,
    handling: Handling,
)
    requires
        handles(before, stored, Command::Retry { input }, now, after, saved, handling),
    ensures
        ({
            let key = input_key(before.info.id, input);
            let known = before.inputs@.dom().contains(key) || stored.inputs.dom().contains(key);
            let state = if before.inputs@.dom().contains(key) {
                before.inputs@[key].state
            } else {
                stored.inputs[key].state
            };
            let current = before.runtime is Some && state is RoutingFailed
                && before.runtime->0.id == state->RoutingFailed_runtime;
            &&& saved == stored
            &&& before.execution_blocked ==> {
                &&& handling.reply is None
                &&& handling.work == (Work::RefreshAndRetry { input })
                &&& after == before
            }
            &&& !before.execution_blocked && !known ==> (handling.reply matches Some(Err(_)))
            &&& !before.execution_blocked && known ==> {
                &&& state is Queued ==> {
                    &&& handling.reply is None
                    &&& handling.work == (Work::DeliverFor {
                        input,
                        was_starting: before.starting is Some,
                    })
                    &&& after == before
                }
                &&& state is RoutingFailed && current ==> {
                    &&& handling.reply is None
                    &&& handling.work == (Work::AskAgain {
                        input,
                        runtime: state->RoutingFailed_runtime,
                    })
                    &&& after == before
                }
                &&& state is RoutingFailed && !current ==> handling.reply == Some(
                    Err::<Reply, Error>(Error::StaleRuntime(state->RoutingFailed_runtime)),
                )
                &&& !(state is Queued) && !(state is RoutingFailed) ==> {
                    &&& handling.reply == Some(
                        Ok::<Reply, Error>(Reply::Received(CommandReceipt::Unchanged)),
                    )
                    &&& handling.work == Work::Nothing
                    &&& after == before
                }
            }
        }),
{
}

/// A job of the current runtime is controlled as asked; a job of any other runtime is refused as
/// stale. Nothing is stored.
pub proof fn law_only_current_jobs_are_controlled(
    before: SessionActor,
    stored: StoreView,
    target: JobRef,
    action: JobControl,
    now: i64,
    after: SessionActor,
    saved: StoreView,
    handling: Handling,
)
    requires
        handles(before, stored, Command::Control { target, action }, now, after, saved, handling),
    ensures
        ({
            let current = before.runtime is Some && before.runtime->0.id == target.runtime;
            &&& saved == stored
            &&& current ==> handling == (Handling {
                reply: None,
                work: Work::Control { job: target.id, action },
            }) && after == before
            &&& !current ==> handling.reply == Some(
                Err::<Reply, Error>(Error::StaleRuntime(target.runtime)),
            ) && after == before
        }),
{
}

/// The queued inputs of a session are all that it holds queued, by their numbers.
pub proof fn law_the_queue_is_complete(actor: SessionActor, id: InputId)
    requires
        actor.inputs@.dom().finite(),
        forall|key: DocumentKey| #[trigger]
            actor.inputs@.dom().contains(key) ==> key == input_key(
                actor.info.id,
                actor.inputs@[key].id,
            ),
    ensures
        actor.queued().contains(id) <==> actor.inputs@.dom().contains(input_key(actor.info.id, id))
            && actor.inputs@[input_key(actor.info.id, id)].state is Queued,
{
    let range = KeyRange::of(actor.info.id.0);
    let keys = actor.listed_keys();
    law_listings_are_complete(actor.inputs@.dom(), range);
    let keep = is_queued(actor.inputs@);
    let kept = keys.filter(keep);
    let numbers = actor.queued();
    let key = input_key(actor.info.id, id);
    if numbers.contains(id) {
        let n = choose|n: int| 0 <= n < numbers.len() && numbers[n] == id;
        lemma_filter_keeps(keys, keep, n);
        assert(keys.contains(kept[n]));
        assert(number_in(actor.inputs@)(kept[n]) == id);
    }
    if actor.inputs@.dom().contains(key) && actor.inputs@[key].state is Queued {
        assert(range.admits(key));
        assert(keys.contains(key));
        let k = choose|k: int| 0 <= k < keys.len() && keys[k] == key;
        keys.lemma_filter_contains(keep, k);
        let n = choose|n: int| 0 <= n < kept.len() && kept[n] == key;
        assert(number_in(actor.inputs@)(kept[n]) == id);
        assert(numbers[n] == id);
    }
}

/// Stopping cancels every queued input, in the store and in the session, notes each in the history,
/// gives up a start that is under way, and asks a running agent to stop its work. Inputs in any
/// other state are left alone. Without an agent the answer says whether anything was stopped.
pub proof fn law_stopping_cancels_the_queue(
    before: SessionActor,
    stored: StoreView,
    now: i64,
    after: SessionActor,
    saved: StoreView,
    handling: Handling,
    id: InputId,
)
    requires
        handles(before, stored, Command::Stop, now, after, saved, handling),
        stored.sessions.dom().contains(session_key(before.info.id)),
        before.follows(stored),
        before.inputs@.dom().finite(),
    ensures
        ({
            let key = input_key(before.info.id, id);
            let queued = before.inputs@.dom().contains(key) && before.inputs@[key].state is Queued;
            &&& queued ==> {
                &&& saved.inputs[key] == (InputView {
                    state: InputState::Cancelled,
                    ..stored.inputs[key]
                })
                &&& !after.inputs@.dom().contains(key)
            }
            &&& !queued && before.inputs@.dom().contains(key) ==> {
                &&& after.inputs@.dom().contains(key)
                &&& after.inputs@[key] == before.inputs@[key]
            }
            &&& !queued ==> saved.inputs[key] == stored.inputs[key]
            &&& after.starting is None
            &&& before.runtime is Some ==> {
                &&& handling.reply is None
                &&& handling.work is StopWork
                &&& handling.work->StopWork_cancelled_start == (before.starting is Some)
                &&& queued ==> handling.work->StopWork_had_queued
            }
            &&& before.runtime is None ==> {
                &&& handling.work == Work::Nothing
                &&& queued || before.starting is Some ==> handling.reply == Some(
                    Ok::<Reply, Error>(Reply::Received(CommandReceipt::Applied)),
                )
                &&& before.starting is None && (forall|other: DocumentKey| #[trigger]
                    before.inputs@.dom().contains(other) ==> !(before.inputs@[other].state
                        is Queued)) ==> handling.reply == Some(
                    Ok::<Reply, Error>(Reply::Received(CommandReceipt::Unchanged)),
                )
            }
        }),
{
    let session = before.info.id;
    let ids = before.queued();
    let key = input_key(session, id);
    assert(before.live(stored).agrees(session));
    assert forall|k: DocumentKey| #[trigger] before.inputs@.dom().contains(k) implies k
        == input_key(session, before.inputs@[k].id) by {
        assert(before.live(stored).inputs.dom().contains(k));
    }
    law_the_queue_is_complete(before, id);
    let changes = all_to(ids, InputState::Cancelled);
    assert forall|i: int| 0 <= i < changes.len() implies stored.has_input(
        session,
        (#[trigger] changes[i]).0,
    ) by {
        law_the_queue_is_complete(before, ids[i]);
        assert(ids.contains(ids[i]));
        assert(before.live(stored).inputs.dom().contains(input_key(session, ids[i])));
    }
    lemma_changed_pointwise(stored, session, ids, InputState::Cancelled);
    lemma_changes(stored, session, changes);
    lemma_without(before.inputs@, session, ids, id);
    if !ids.contains(id) {
        assert forall|i: int| 0 <= i < ids.len() implies input_key(session, #[trigger] ids[i])
            != key by {
            if ids[i] == id {
                assert(ids.contains(id));
            }
        }
    }
    if ids.len() > 0 {
        law_the_queue_is_complete(before, ids[0]);
        assert(ids.contains(ids[0]));
    }
}

/// Without some inputs exactly those are gone.
proof fn lemma_without(
    inputs: Map<DocumentKey, InputView>,
    session: crate::ids::SessionId,
    ids: Seq<InputId>,
    id: InputId,
)
    ensures
        ({
            let rest = crate::session::commands::without(inputs, session, ids);
            let key = input_key(session, id);
            &&& ids.contains(id) ==> !rest.dom().contains(key)
            &&& !ids.contains(id) ==> rest.dom().contains(key) == inputs.dom().contains(key)
            &&& !ids.contains(id) && inputs.dom().contains(key) ==> rest[key] == inputs[key]
        }),
    decreases ids.len(),
{
    if ids.len() > 0 {
        let head = ids.drop_last();
        lemma_without(inputs, session, head, id);
        if ids.contains(id) && ids.last() != id {
            let n = choose|n: int| 0 <= n < ids.len() && ids[n] == id;
            assert(head[n] == id);
        }
        if !ids.contains(id) {
            if head.contains(id) {
                let n = choose|n: int| 0 <= n < head.len() && head[n] == id;
                assert(ids[n] == id);
            }
            assert(ids[ids.len() - 1] == ids.last());
        }
    }
}

/// A valid title becomes the session's, in the store and in the session, and is then final. An
/// invalid one is refused and changes nothing.
pub proof fn law_valid_titles_are_taken(
    before: SessionActor,
    stored: StoreView,
    title: String,
    now: i64,
    after: SessionActor,
    saved: StoreView,
    handling: Handling,
)
    requires
        handles(before, stored, Command::Rename { title }, now, after, saved, handling),
        stored.sessions.dom().contains(session_key(before.info.id)),
    ensures
        ({
            let key = session_key(before.info.id);
            &&& !valid_title(title@) ==> saved == stored && after == before && (
            handling.reply matches Some(Err(_)))
            &&& valid_title(title@) ==> {
                &&& handling == (Handling { reply: Some(Ok(Reply::Done)), work: Work::Nothing })
                &&& after.info.title == title
                &&& after == (SessionActor { info: after.info, ..before })
                &&& saved.sessions[key].info == after.info
                &&& saved.sessions == stored.sessions.insert(
                    key,
                    SavedSessionView {
                        info: SessionInfo { title, ..stored.sessions[key].info },
                        ..stored.sessions[key]
                    },
                )
                &&& !saved.provisional.dom().contains(key)
            }
        }),
{
}

/// A provisional title is replaced by a valid one and the answer says so; a final title stays.
pub proof fn law_final_titles_stay(
    before: SessionActor,
    stored: StoreView,
    title: String,
    now: i64,
    after: SessionActor,
    saved: StoreView,
    handling: Handling,
)
    requires
        handles(before, stored, Command::RenameIfProvisional { title }, now, after, saved, handling),
        stored.sessions.dom().contains(session_key(before.info.id)),
        valid_title(title@),
    ensures
        ({
            let key = session_key(before.info.id);
            let provisional = stored.provisional.dom().contains(key);
            &&& handling.work == Work::Nothing
            &&& handling.reply == Some(Ok::<Reply, Error>(Reply::Renamed(provisional)))
            &&& !provisional ==> saved == stored && after == before
            &&& provisional ==> {
                &&& after.info.title == title
                &&& saved.sessions[key].info.title == title
                &&& !saved.provisional.dom().contains(key)
                &&& after == (SessionActor { info: after.info, ..before })
            }
        }),
{
}

/// A draft is kept by the session and in the store as it was typed, and a session is put away or
/// taken back as asked; nothing else changes.
pub proof fn law_drafts_and_shelves_are_kept(
    before: SessionActor,
    stored: StoreView,
    draft: String,
    archived: bool,
    now: i64,
    after: SessionActor,
    saved: StoreView,
    handling: Handling,
    shelved: SessionActor,
    shelf: StoreView,
    told: Handling,
)
    requires
        handles(before, stored, Command::SaveDraft { draft }, now, after, saved, handling),
        handles(before, stored, Command::Archive { archived }, now, shelved, shelf, told),
        stored.sessions.dom().contains(session_key(before.info.id)),
    ensures
        ({
            let key = session_key(before.info.id);
            &&& handling == (Handling { reply: Some(Ok(Reply::Done)), work: Work::Nothing })
            &&& after == (SessionActor { draft, ..before })
            &&& saved.sessions == stored.sessions.insert(
                key,
                SavedSessionView { draft, ..stored.sessions[key] },
            )
            &&& saved == (StoreView { sessions: saved.sessions, ..stored })
            &&& told == (Handling { reply: Some(Ok(Reply::Done)), work: Work::Nothing })
            &&& shelved.info.archived == archived
            &&& shelved == (SessionActor { info: shelved.info, ..before })
            &&& shelf.sessions == stored.sessions.insert(
                key,
                SavedSessionView {
                    info: SessionInfo { archived, ..stored.sessions[key].info },
                    ..stored.sessions[key]
                },
            )
            &&& shelf == (StoreView { sessions: shelf.sessions, ..stored })
        }),
{
}

/// A finding on an open write of the session that decides whether the effect occurred is taken once
/// no write is under way: the write leaves the ledger, the finding is kept, and a running agent
/// that made the call is to be told the effect. A finding that decides nothing is refused, and so
/// is any while a write is under way; then nothing changes.
pub proof fn law_findings_are_taken_and_told(
    before: SessionActor,
    stored: StoreView,
    target: CallRef,
    resolution: WriteResolution,
    gate_free: bool,
    now: i64,
    after: SessionActor,
    saved: StoreView,
    handling: Handling,
)
    requires
        handles(
            before,
            stored,
            Command::ResolveWrite { target, resolution, gate_free },
            now,
            after,
            saved,
            handling,
        ),
    ensures
        ({
            let key = write_key(before.info.workspace, target);
            let write = stored.writes[key];
            let open = stored.writes.dom().contains(key) && write.session == before.info.id && (
            write.state is Pending || write.state->Finished_0.external_effect
                == ExternalEffect::Unknown);
            let call = core_key(before.info.id, target.id);
            let told = before.runtime is Some && stored.core_calls.dom().contains(call)
                && stored.core_calls[call] == target.runtime;
            &&& resolution.external_effect == ExternalEffect::Unknown ==> saved == stored
                && (handling.reply matches Some(Err(Error::InvalidState(_))))
            &&& resolution.external_effect != ExternalEffect::Unknown && !gate_free ==> saved
                == stored && handling.reply == Some(Err::<Reply, Error>(Error::WriteInProgress))
            &&& resolution.external_effect != ExternalEffect::Unknown && gate_free && open ==> {
                &&& !saved.writes.dom().contains(key)
                &&& saved.write_resolutions.dom().contains(key)
                &&& saved.write_resolutions[key].session == before.info.id
                &&& saved.write_resolutions[key].external_effect == resolution.external_effect
                &&& after == before
                &&& !told ==> handling == (Handling {
                    reply: Some(Ok(Reply::Received(CommandReceipt::Applied))),
                    work: Work::Nothing,
                })
                &&& told ==> {
                    &&& handling.reply is None
                    &&& handling.work matches Work::Tell { target: call, outcome, receipt }
                    &&& call == target
                    &&& outcome.external_effect == resolution.external_effect
                    &&& receipt == CommandReceipt::Applied
                }
            }
        }),
{
}

/// When a write of the agent has returned, a running agent that made the call is to be told what is
/// known: what the write returned where its effect is known, else the user's finding. Where nothing
/// is known, or the call is not of this agent, its state is only read.
pub proof fn law_returned_writes_are_told(
    before: SessionActor,
    stored: StoreView,
    call: CallRef,
    now: i64,
    after: SessionActor,
    saved: StoreView,
    handling: Handling,
)
    requires
        handles(before, stored, Command::WriteCompleted(call), now, after, saved, handling),
    ensures
        ({
            let key = write_key(before.info.workspace, call);
            let origin = core_key(before.info.id, call.id);
            let own = before.runtime is Some && stored.core_calls.dom().contains(origin)
                && stored.core_calls[origin] == call.runtime;
            let returned = stored.writes.dom().contains(key) && stored.writes[key].state is Finished
                && stored.writes[key].state->Finished_0.external_effect != ExternalEffect::Unknown;
            let found = stored.write_resolutions.dom().contains(key)
                && stored.write_resolutions[key].session == before.info.id;
            &&& saved == stored
            &&& after == before
            &&& handling.reply is None
            &&& own && returned ==> handling.work == (Work::Settle {
                call,
                outcome: stored.writes[key].state->Finished_0,
            })
            &&& own && !returned && found ==> {
                &&& handling.work matches Work::Settle { call: told, outcome }
                &&& told == call
                &&& outcome.external_effect == stored.write_resolutions[key].external_effect
                &&& outcome.result is Err
            }
            &&& !own || (!returned && !found) ==> handling.work == Work::Refresh
        }),
{
}

/// Only the runtime that is being started is installed, and only once; only the current one is read
/// and gets the queue.
pub proof fn law_only_expected_runtimes_are_served(
    before: SessionActor,
    stored: StoreView,
    runtime: RuntimeId,
    now: i64,
    after: SessionActor,
    saved: StoreView,
    handling: Handling,
    dirty: SessionActor,
    dirty_saved: StoreView,
    dirty_handling: Handling,
)
    requires
        handles(before, stored, Command::RuntimeReady(runtime), now, after, saved, handling),
        handles(
            before,
            stored,
            Command::RuntimeDirty(runtime),
            now,
            dirty,
            dirty_saved,
            dirty_handling,
        ),
    ensures
        saved == stored,
        dirty_saved == stored,
        dirty == before,
        handling.reply is None,
        dirty_handling.reply is None,
        before.starting == Some(runtime) ==> handling.work == Work::Install(runtime)
            && after.starting is None && after == (SessionActor { starting: None, ..before }),
        before.starting != Some(runtime) ==> handling.work == Work::Nothing && after == before,
        before.runtime is Some && before.runtime->0.id == runtime ==> dirty_handling.work
            == Work::RefreshAndDeliver,
        !(before.runtime is Some && before.runtime->0.id == runtime) ==> dirty_handling.work
            == Work::Nothing,
{
}

/// Closing a session gives up a start that is under way. A running agent is to be shut down, and
/// the session says that it is closing; without one the session is to be recovered. Shutting the
/// session down is the same, and ends it.
pub proof fn law_closing_gives_up_what_is_under_way(
    before: SessionActor,
    stored: StoreView,
    now: i64,
    ending: bool,
    after: SessionActor,
    saved: StoreView,
    handling: Handling,
)
    requires
        handles(
            before,
            stored,
            if ending { Command::Shutdown } else { Command::CloseRuntime },
            now,
            after,
            saved,
            handling,
        ),
    ensures
        saved == stored,
        handling.reply is None,
        after.starting is None,
        after.inputs == before.inputs,
        after.info == before.info,
        after.draft == before.draft,
        after.runtime == before.runtime,
        before.runtime is None ==> handling.work == (Work::Close {
            step: CloseStep::Recover,
            and_end: ending,
        }),
        before.runtime matches Some(runtime) ==> {
            &&& handling.work == (Work::Close {
                step: CloseStep::Shutdown { runtime: runtime.id },
                and_end: ending,
            })
            &&& after.runtime_state == (crate::api::RuntimeState::Closing { id: runtime.id })
        },
{
}

/// A session is not released while it starts, closes or saves; else its agent's state is read first.
pub proof fn law_busy_sessions_are_not_released(
    before: SessionActor,
    stored: StoreView,
    gate_free: bool,
    now: i64,
    after: SessionActor,
    saved: StoreView,
    handling: Handling,
)
    requires
        handles(before, stored, Command::ReleaseIfIdle { gate_free }, now, after, saved, handling),
    ensures
        ({
            let starting = before.starting is Some || before.runtime_state is Starting;
            let closing = before.runtime_state is Closing;
            let kept = |reason: SessionRetentionReason| handling == (Handling {
                reply: Some(Ok(Reply::Released(SessionReleaseStatus::Retained(reason)))),
                work: Work::Nothing,
            });
            &&& saved == stored
            &&& after == before
            &&& starting ==> kept(SessionRetentionReason::Starting)
            &&& !starting && closing ==> kept(SessionRetentionReason::ActiveWork)
            &&& !starting && !closing && !gate_free ==> kept(
                SessionRetentionReason::PersistenceInFlight,
            )
            &&& !starting && !closing && gate_free ==> handling == (Handling {
                reply: None,
                work: Work::RefreshAndRelease,
            })
        }),
{
}

/// A failure of the store or of a running agent keeps the agent from working until its state is
/// read again, and is shown as the session's problem; so is a problem with the configuration, the
/// login, the profile, the provider or the tools, which stops nothing. A mistake of the user changes
/// nothing of the session.
pub proof fn law_failures_are_shown(actor: SessionActor, error: Error)
    ensures
        ({
            let after = actor.after_error(error);
            let stops = (error is Storage || error is Agent) && actor.runtime is Some
                && !actor.config_blocked;
            &&& after.execution_blocked == (actor.execution_blocked || stops)
            &&& error matches Error::Storage(message) ==> after.problem == Some(
                AppProblem::Storage(message),
            )
            &&& error matches Error::Agent(message) ==> after.problem == Some(
                AppProblem::Agent(message),
            )
            &&& error matches Error::Provider(message) ==> after.problem == Some(
                AppProblem::Provider(message),
            )
            &&& error matches Error::Tools(message) ==> after.problem == Some(
                AppProblem::Tools(message),
            )
            &&& error matches Error::Configuration(problem) ==> after.problem == Some(
                AppProblem::Configuration(problem),
            )
            &&& error matches Error::LoginRequired(profile) ==> after.problem == Some(
                AppProblem::LoginRequired(profile),
            )
            &&& error matches Error::ProfileBusy(profile) ==> after.problem == Some(
                AppProblem::ProfileBusy(profile),
            )
            &&& error is InvalidState || error is StaleRuntime || error is RequestConflict || error
                is WriteInProgress || error is SessionNotFound ==> after == actor
            &&& after == (SessionActor {
                problem: after.problem,
                execution_blocked: after.execution_blocked,
                ..actor
            })
        }),
{
}

/// A page of the history is read as asked for, but at least one entry and at most 32 at once,
/// and reading changes nothing.
pub proof fn law_history_is_read_in_bounds(
    before: SessionActor,
    stored: StoreView,
    position: SessionSeq,
    limit: usize,
    now: i64,
    after: SessionActor,
    saved: StoreView,
    handling: Handling,
)
    requires
        handles(
            before,
            stored,
            Command::History { after: position, limit },
            now,
            after,
            saved,
            handling,
        ),
    ensures
        saved == stored,
        after == before,
        handling.work == Work::Nothing,
        handling.reply matches Some(Ok(Reply::History(page))) && stored.shows_history(
            before.info.id,
            position,
            if limit < 1 { 1 } else if limit > 32 { 32 } else { limit },
            page,
        ),
{
}

/// A recorded decision is answered with its receipt, and the queue is delivered, since a rework may
/// stand in it. A refused one is answered with the failure and delivers nothing.
pub proof fn law_recorded_decisions_are_delivered(
    before: SessionActor,
    stored: StoreView,
    id: AcceptanceId,
    submission: AcceptanceSubmission,
    now: i64,
    after: SessionActor,
    saved: StoreView,
    handling: Handling,
)
    requires
        handles(
            before,
            stored,
            Command::SubmitAcceptance { id, submission },
            now,
            after,
            saved,
            handling,
        ),
    ensures
        handling.reply is Some,
        handling.reply->0 is Ok ==> handling.reply->0->Ok_0 is Recorded && handling.work
            == Work::Deliver,
        handling.reply->0 is Err ==> handling.work != Work::Deliver && saved == stored,
{
}

/// A session is shown as its agent is now: a snapshot waits until the agent was asked. A new
/// configuration is carried out by the next step of its plan, or the failure is answered. Neither
/// changes the store.
pub proof fn law_snapshots_and_configurations_wait_for_the_agent(
    before: SessionActor,
    stored: StoreView,
    force: bool,
    defaults: AdapterDefaults,
    now: i64,
    after: SessionActor,
    saved: StoreView,
    handling: Handling,
)
    ensures
        handles(before, stored, Command::Snapshot, now, after, saved, handling) ==> {
            &&& handling.reply is None
            &&& handling.work == Work::Refresh
            &&& after == before
            &&& saved == stored
        },
        handles(
            before,
            stored,
            Command::ConfigChanged { force, defaults },
            now,
            after,
            saved,
            handling,
        ) ==> {
            &&& saved == stored
            &&& handling.reply is None ==> handling.work is Configure
            &&& handling.reply matches Some(reply) ==> reply is Err
        },
{
}

} // verus!

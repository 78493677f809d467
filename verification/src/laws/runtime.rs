//! How a session's runtime is configured, started, shown, closed and released.

use vstd::prelude::*;

use crate::api::{
    ActivityKind, ActivityView, AppProblem, CallRef, JobOwner, JobRef, JobState, JobView,
    RuntimeState, SessionEventView, SessionReleaseStatus, SessionRetentionReason, SessionSeq,
    SessionView, UnresolvedWriteView, WaitReason,
};
use crate::config::{ConfigProblem, ConfigScope, RuntimeConfig};
use crate::document::{law_listings_are_complete, DocumentKey, KeyRange};
use crate::error::Error;
use crate::file_config::AdapterDefaults;
use crate::ids::RuntimeId;
use crate::persistence::keys::{session_key, write_key};
use crate::persistence::{
    SavedRuntimeView, SavedSessionView, StoreView, StoredEntryView, StoredEventView,
};
use crate::record::ExternalEffect;
use crate::seqs::lemma_filter_keeps;
use crate::session::actor::{forgets_errors, publishes, LiveRuntime, SessionActor};
use crate::session::agent::{
    awaits_settlement, has_active_work, is_active, shows_agent, AgentView, CallKind, CallStatus,
    JobStatus, Owner, WaitView, AgentError,
};
use crate::session::configuring::{continues_config, resolves_config, ConfigNext};
use crate::session::lifecycle::{
    applies_config, applies_reconfiguration, begins_start, closes_finished, closes_recovered,
    closes_with, fails_start, installs, may_begin, plans_config, refuses_config, takes_ready,
    ConfigStep, PendingWrite, ReleaseStep,
};

verus! {

/// Every job of the agent is shown, in its order: with its number under the runtime, its owner, its
/// inputs, its goal, scope and end, and its state with what it waits for.
pub proof fn law_jobs_are_shown_as_they_are(
    runtime: RuntimeId,
    view: AgentView,
    jobs: Seq<JobView>,
    activity: Seq<ActivityView>,
    i: int,
)
    requires
        shows_agent(runtime, view, jobs, activity),
        0 <= i < view.jobs@.len(),
    ensures
        ({
            let job = view.jobs@[i];
            let shown = jobs[i];
            &&& jobs.len() == view.jobs@.len()
            &&& shown.id == (JobRef { runtime, id: job.id })
            &&& shown.inputs@ == job.inputs@
            &&& shown.goal == job.goal
            &&& shown.scope == job.scope
            &&& shown.done_when == job.done_when
            &&& job.owner == Owner::User ==> shown.owner == JobOwner::User
            &&& job.owner == Owner::Routing ==> shown.owner == JobOwner::Routing
            &&& job.owner matches Owner::Job(owner) ==> shown.owner == JobOwner::Job(
                JobRef { runtime, id: owner },
            )
            &&& (job.status is Ready) == (shown.state is Ready)
            &&& (job.status is Running) == (shown.state is Running)
            &&& (job.status is Paused) == (shown.state is Paused)
            &&& (job.status is Waiting) == (shown.state is Waiting)
            &&& job.status matches JobStatus::Finished { kind, summary } ==> shown.state
                == (JobState::Finished { outcome: kind, summary })
            &&& job.status matches JobStatus::Waiting(wait) ==> {
                let reason = shown.state->Waiting_0;
                &&& wait matches WaitView::Tool(call) ==> reason == WaitReason::Tool(
                    CallRef { runtime, id: call },
                )
                &&& wait is Until ==> reason == WaitReason::Timer
                &&& wait is User ==> reason == WaitReason::User
                &&& wait is Inquiry ==> reason == WaitReason::Inquiry
                &&& wait is Coordination ==> reason == WaitReason::Coordination
                &&& wait is Commit ==> reason == WaitReason::Commit
                &&& wait matches WaitView::Job(other) ==> reason == WaitReason::Job(
                    JobRef { runtime, id: other },
                )
                &&& wait matches WaitView::Result(other) ==> reason == WaitReason::Result(
                    JobRef { runtime, id: other },
                )
                &&& wait matches WaitView::Jobs(others) ==> (reason matches WaitReason::Jobs(refs)
                    && refs@.len() == others@.len() && forall|n: int|
                    0 <= n < others@.len() ==> #[trigger] refs@[n] == (JobRef {
                        runtime,
                        id: others@[n],
                    }))
            }
            &&& job.report is None ==> shown.report is None
        }),
{
    assert(crate::session::agent::shows_job(
        runtime,
        crate::record::record_views(view.records@),
        view.jobs@[i],
        jobs[i],
    ));
}

/// Every call of the agent that is under way is shown as activity, with its number and its job under
/// the runtime, its kind, the name of its tool and its progress; and nothing else is.
pub proof fn law_activity_is_what_is_under_way(
    runtime: RuntimeId,
    view: AgentView,
    jobs: Seq<JobView>,
    activity: Seq<ActivityView>,
    i: int,
)
    requires
        shows_agent(runtime, view, jobs, activity),
    ensures
        0 <= i < view.calls@.len() && view.calls@[i].status is Active ==> exists|n: int| {
            &&& 0 <= n < activity.len()
            &&& (#[trigger] activity[n]).call == (CallRef { runtime, id: view.calls@[i].id })
            &&& view.calls@[i].job is None ==> activity[n].job is None
            &&& view.calls@[i].job is Some ==> activity[n].job == Some(
                JobRef { runtime, id: view.calls@[i].job->0 },
            )
            &&& activity[n].progress == view.calls@[i].progress
            &&& (activity[n].kind is Tool) == (view.calls@[i].kind == CallKind::Tool)
            &&& (activity[n].kind is Work) == (view.calls@[i].kind == CallKind::Work)
            &&& (activity[n].kind is Compact) == (view.calls@[i].kind == CallKind::Compact)
            &&& (activity[n].kind is Coordinate) == (view.calls@[i].kind == CallKind::Coordinate)
            &&& view.calls@[i].kind == CallKind::Tool && view.calls@[i].tool is Some ==> (
            activity[n].kind matches ActivityKind::Tool { name } && name@
                == view.calls@[i].tool->0@)
        },
        0 <= i < activity.len() ==> exists|n: int|
            0 <= n < view.calls@.len() && (#[trigger] view.calls@[n]).status is Active
                && activity[i].call.id == view.calls@[n].id && activity[i].call.runtime == runtime,
{
    let keep = is_active();
    let active = view.calls@.filter(keep);
    if 0 <= i < view.calls@.len() && view.calls@[i].status is Active {
        view.calls@.lemma_filter_contains(keep, i);
        let n = choose|n: int| 0 <= n < active.len() && active[n] == view.calls@[i];
        assert(crate::session::agent::shows_call(runtime, active[n], activity[n]));
    }
    if 0 <= i < activity.len() {
        lemma_filter_keeps(view.calls@, keep, i);
        let n = choose|n: int| 0 <= n < view.calls@.len() && view.calls@[n] == active[i];
        assert(crate::session::agent::shows_call(runtime, active[i], activity[i]));
        assert(view.calls@[n].status is Active);
    }
}

/// A session is shown with its title and draft, the state of its runtime, every input that it holds,
/// its problem and the end of its history; and with jobs and activity only where it has a runtime.
pub proof fn law_sessions_are_shown_as_they_are(
    actor: SessionActor,
    agent: Option<&AgentView>,
    history_through: SessionSeq,
    r: SessionView,
    key: DocumentKey,
)
    requires
        publishes(actor, agent, history_through, r),
        actor.inputs@.dom().finite(),
    ensures
        r.session == actor.info,
        r.draft == actor.draft,
        r.problem == actor.problem,
        r.history_through == history_through,
        actor.runtime_state is Detached ==> r.runtime is Detached,
        actor.runtime_state is Starting ==> r.runtime is Starting,
        actor.runtime_state matches RuntimeState::Closing { id } ==> r.runtime
            == (RuntimeState::Closing { id }),
        actor.runtime_state matches RuntimeState::Running { id, config } ==> (
        r.runtime matches RuntimeState::Running { id: shown, config: running } && shown == id
            && running@ == config@),
        actor.inputs@.dom().contains(key) && key.owner == actor.info.id.0 ==> r.inputs@.contains(
            actor.inputs@[key],
        ),
        actor.runtime is None || agent is None ==> r.jobs@.len() == 0 && r.activity@.len() == 0,
        actor.runtime is Some && agent is Some ==> r.jobs@.len() == agent->0.jobs@.len(),
{
    let range = KeyRange::of(actor.info.id.0);
    law_listings_are_complete(actor.inputs@.dom(), range);
    if actor.inputs@.dom().contains(key) && key.owner == actor.info.id.0 {
        let keys = actor.listed_keys();
        assert(range.admits(key));
        assert(keys.contains(key));
        let k = choose|k: int| 0 <= k < keys.len() && keys[k] == key;
        assert(r.inputs@[k] == actor.inputs@[key]);
    }
}

/// The agent has work exactly while a job is not finished or a call is under way.
pub proof fn law_unfinished_jobs_are_work(view: AgentView, i: int)
    ensures
        0 <= i < view.jobs@.len() && !(view.jobs@[i].status is Finished) ==> has_active_work(view),
        0 <= i < view.calls@.len() && view.calls@[i].status is Active ==> has_active_work(view),
        (forall|n: int| 0 <= n < view.jobs@.len() ==> (#[trigger] view.jobs@[n]).status is Finished)
            && (forall|n: int|
            0 <= n < view.calls@.len() ==> !((#[trigger] view.calls@[n]).status is Active))
            ==> !has_active_work(view),
{
}

/// A call waits to be settled exactly where it ended without a known effect.
pub proof fn law_uncertain_calls_wait(view: AgentView, call: u64)
    ensures
        awaits_settlement(view, call) <==> exists|i: int|
            0 <= i < view.calls@.len() && (#[trigger] view.calls@[i]).id == call
                && view.calls@[i].status == (CallStatus::Finished {
                external_effect: ExternalEffect::Unknown,
            }),
{
    if exists|i: int|
        0 <= i < view.calls@.len() && (#[trigger] view.calls@[i]).id == call
            && view.calls@[i].status == (CallStatus::Finished {
            external_effect: ExternalEffect::Unknown,
        }) {
        let i = choose|i: int|
            0 <= i < view.calls@.len() && (#[trigger] view.calls@[i]).id == call
                && view.calls@[i].status == (CallStatus::Finished {
                external_effect: ExternalEffect::Unknown,
            });
        assert(crate::session::agent::is_uncertain(view.calls@[i]));
    }
}

/// A configuration that cannot be resolved blocks the agent and gives up a start. One that is
/// resolved is taken by a running agent, with that configuration, unless it runs with the same one
/// and nothing is blocked or forced; without an agent it unblocks the session and the queue is to be
/// delivered.
pub proof fn law_configuration_changes_are_planned(
    before: SessionActor,
    resolved: Result<RuntimeConfig, Error>,
    force: bool,
    after: SessionActor,
    r: Result<ConfigStep, Error>,
)
    requires
        plans_config(before, resolved, force, after, r),
    ensures
        resolved matches Err(error) ==> {
            &&& after.config_blocked
            &&& after.starting is None
            &&& error matches Error::Configuration(problem) ==> r == Ok::<ConfigStep, Error>(
                ConfigStep::Refuse(problem),
            )
            &&& !(error is Configuration) ==> r == Ok::<ConfigStep, Error>(ConfigStep::Fail(error))
        },
        resolved is Ok && before.runtime is None ==> {
            &&& r == Ok::<ConfigStep, Error>(ConfigStep::Deliver)
            &&& !after.config_blocked
            &&& after.problem is None
            &&& after.starting is None
        },
        resolved is Ok && before.runtime is Some && before.runtime_state is Running ==> {
            let same = before.runtime_state->Running_config.agrees(resolved->Ok_0);
            &&& same && !force && !before.config_blocked ==> r == Ok::<ConfigStep, Error>(
                ConfigStep::Keep,
            ) && after == before
            &&& !same || force || before.config_blocked ==> {
                &&& r == Ok::<ConfigStep, Error>(
                    ConfigStep::Reconfigure {
                        runtime: before.runtime->0.id,
                        config: resolved->Ok_0,
                    },
                )
                &&& after == (SessionActor { config_blocked: true, ..before })
            }
        },
        after.inputs == before.inputs,
        after.runtime == before.runtime,
        after.info == before.info,
        after.draft == before.draft,
        after.execution_blocked == before.execution_blocked,
{
}

/// How a planned change goes on. Where the agent could not be suspended nothing is changed and that
/// is reported. A refused configuration is reported by a running session and shown by one without
/// an agent. A new configuration is to be connected with the runtime and configuration of the plan,
/// and without an agent the queue is to be delivered.
pub proof fn law_planned_changes_are_carried_on(
    before: SessionActor,
    stored: StoreView,
    step: ConfigStep,
    suspended: Result<(), AgentError>,
    after: SessionActor,
    saved: StoreView,
    r: Result<ConfigNext, Error>,
)
    requires
        continues_config(before, stored, step, suspended, after, saved, r),
    ensures
        before.runtime is Some && suspended is Err && (step is Refuse || step is Fail || step
            is Reconfigure) ==> r is Err && after == before && saved == stored,
        (before.runtime is None || suspended is Ok) ==> {
            &&& step is Fail ==> r == Err::<ConfigNext, Error>(step->Fail_0) && after == before
                && saved == stored
            &&& step is Reconfigure && r is Ok ==> r == Ok::<ConfigNext, Error>(
                ConfigNext::Connect {
                    runtime: step->Reconfigure_runtime,
                    config: step->Reconfigure_config,
                },
            )
            &&& step is Refuse && before.runtime is None && r is Ok ==> {
                &&& r == Ok::<ConfigNext, Error>(ConfigNext::Done)
                &&& after.problem == Some(AppProblem::Configuration(step->Refuse_0))
            }
            &&& step is Refuse && before.runtime is Some ==> r is Err
            &&& step is Deliver && r is Ok ==> r == Ok::<ConfigNext, Error>(ConfigNext::Deliver)
            &&& step is Keep && r is Ok ==> r == Ok::<ConfigNext, Error>(ConfigNext::Done)
        },
        after.runtime == before.runtime,
        after.info == before.info,
        after.starting == before.starting,
{
}

/// A runtime may be started exactly where none runs or starts and nothing is being saved. Then the
/// session says that it starts, and only that runtime is taken up when it is ready.
pub proof fn law_one_runtime_starts_at_a_time(
    actor: SessionActor,
    gate_free: bool,
    may: Result<bool, Error>,
    runtime: RuntimeId,
    started: SessionActor,
    other: RuntimeId,
    ready: SessionActor,
    taken: bool,
)
    requires
        may_begin(actor, gate_free, may),
        begins_start(actor, runtime, started),
        takes_ready(started, other, ready, taken),
    ensures
        may == Ok::<bool, Error>(true) <==> actor.runtime is None && actor.starting is None
            && gate_free,
        actor.runtime is Some || actor.starting is Some ==> may == Ok::<bool, Error>(false),
        actor.runtime is None && actor.starting is None && !gate_free ==> may is Err,
        started.starting == Some(runtime),
        started.runtime_state is Starting,
        started.problem is None,
        started.inputs == actor.inputs,
        taken <==> other == runtime,
        taken ==> ready.starting is None,
        !taken ==> ready == started,
{
}

/// An installed runtime is the session's, with its configuration, in the session and in the store,
/// from the given record on, and the history says that it started.
pub proof fn law_installed_runtime_runs(
    actor: SessionActor,
    stored: StoreView,
    runtime: RuntimeId,
    config: RuntimeConfig,
    archive_from: u64,
    now: i64,
    next: SessionActor,
    kept: StoreView,
    r: Result<(), Error>,
)
    requires
        installs(actor, stored, runtime, config, archive_from, now, next, kept, r),
    ensures
        ({
            let key = session_key(actor.info.id);
            let there = stored.sessions.dom().contains(key);
            &&& (r is Ok) == there
            &&& !there ==> kept == stored && next.runtime == actor.runtime && next.runtime_state
                is Detached
            &&& there ==> {
                &&& next.runtime == Some(LiveRuntime { id: runtime, agent_through: archive_from })
                &&& next.runtime_state matches RuntimeState::Running { id, config: running }
                &&& id == runtime
                &&& running@ == config@
                &&& kept.sessions == stored.sessions.insert(
                    key,
                    SavedSessionView {
                        runtime: Some(SavedRuntimeView { id: runtime, config: config@ }),
                        agent_through: archive_from,
                        ..stored.sessions[key]
                    },
                )
                &&& kept.history(actor.info.id) == stored.history(actor.info.id).push(
                    StoredEntryView {
                        occurred_at: now,
                        event: StoredEventView::App(
                            SessionEventView::RuntimeStarted { runtime, config: config@ },
                        ),
                    },
                )
                &&& next.inputs == actor.inputs
                &&& next.info == actor.info
                &&& next.draft == actor.draft
            }
        }),
{
}

/// A runtime that took a new configuration runs with it, in the session and in the store, and the
/// history says so; one that is not the stored one takes none.
pub proof fn law_reconfigured_runtime_runs_with_it(
    actor: SessionActor,
    stored: StoreView,
    runtime: RuntimeId,
    config: RuntimeConfig,
    now: i64,
    next: SessionActor,
    kept: StoreView,
    r: Result<(), Error>,
)
    requires
        applies_reconfiguration(actor, stored, runtime, config, now, next, kept, r),
    ensures
        ({
            let key = session_key(actor.info.id);
            let current = stored.sessions.dom().contains(key) && stored.sessions[key].runtime is Some
                && stored.sessions[key].runtime->0.id == runtime;
            &&& (r is Ok) == current
            &&& !current ==> kept == stored && next == actor
            &&& current ==> {
                &&& next.runtime_state matches RuntimeState::Running { id, config: running }
                &&& id == runtime
                &&& running@ == config@
                &&& next == (SessionActor { runtime_state: next.runtime_state, ..actor })
                &&& kept.sessions[key].runtime == Some(
                    SavedRuntimeView { id: runtime, config: config@ },
                )
                &&& kept.sessions[key].agent_through == stored.sessions[key].agent_through
                &&& kept.history(actor.info.id) == stored.history(actor.info.id).push(
                    StoredEntryView {
                        occurred_at: now,
                        event: StoredEventView::App(
                            SessionEventView::RuntimeReconfigured { runtime, config: config@ },
                        ),
                    },
                )
            }
        }),
{
}

/// A runtime that ended is gone from the session and from the store, with all that blocked the
/// session, and the history says so. The inputs stay.
pub proof fn law_ended_runtime_leaves_the_session(
    actor: SessionActor,
    stored: StoreView,
    runtime: RuntimeId,
    writes: Seq<PendingWrite>,
    now: i64,
    next: SessionActor,
    kept: StoreView,
    r: Result<(), Error>,
)
    requires
        closes_finished(actor, stored, runtime, writes, now, next, kept, r),
        stored.sessions.dom().contains(session_key(actor.info.id)),
    ensures
        ({
            let key = session_key(actor.info.id);
            let current = stored.sessions[key].runtime is Some
                && stored.sessions[key].runtime->0.id == runtime;
            &&& r is Ok
            &&& next.runtime is None
            &&& next.runtime_state is Detached
            &&& next.problem is None
            &&& !next.config_blocked
            &&& !next.execution_blocked
            &&& next.inputs == actor.inputs
            &&& next.info == actor.info
            &&& next.draft == actor.draft
            &&& next.starting == actor.starting
            &&& current ==> kept.sessions[key].runtime is None && kept.sessions[key].agent_through
                == 0
            &&& !current ==> kept.sessions[key] == stored.sessions[key]
            &&& kept.inputs == stored.inputs
            &&& kept.history(actor.info.id) == stored.history(actor.info.id).push(
                StoredEntryView {
                    occurred_at: now,
                    event: StoredEventView::App(SessionEventView::RuntimeClosed { runtime }),
                },
            )
        }),
{
    lemma_jobs_frame(stored, actor.info.workspace, runtime, writes);
}

/// Every open write that an ended runtime left behind has the job that made it.
pub proof fn law_writes_left_behind_get_their_job(
    store: StoreView,
    workspace: crate::ids::WorkspaceId,
    runtime: RuntimeId,
    writes: Seq<PendingWrite>,
    at: int,
)
    requires
        0 <= at < writes.len(),
        forall|i: int| at < i < writes.len() ==> (#[trigger] writes[i]).call != writes[at].call,
        store.writes.dom().contains(
            write_key(workspace, CallRef { runtime, id: writes[at].call }),
        ),
    ensures
        ({
            let key = write_key(workspace, CallRef { runtime, id: writes[at].call });
            let after = crate::session::lifecycle::with_jobs(store, workspace, runtime, writes);
            &&& after.writes.dom().contains(key)
            &&& after.writes[key].job == Some(JobRef { runtime, id: writes[at].job })
        }),
    decreases writes.len(),
{
    let head = writes.drop_last();
    lemma_jobs_frame(store, workspace, runtime, head);
    if at < head.len() {
        assert(head[at] == writes[at]);
        assert forall|i: int| at < i < head.len() implies (#[trigger] head[i]).call
            != head[at].call by {
            assert(head[i] == writes[i]);
        }
        law_writes_left_behind_get_their_job(store, workspace, runtime, head, at);
        assert(writes[writes.len() - 1].call != writes[at].call);
    }
}

proof fn lemma_jobs_frame(
    store: StoreView,
    workspace: crate::ids::WorkspaceId,
    runtime: RuntimeId,
    writes: Seq<PendingWrite>,
)
    ensures
        ({
            let after = crate::session::lifecycle::with_jobs(store, workspace, runtime, writes);
            &&& after == (StoreView { writes: after.writes, unsettled: after.unsettled, ..store })
            &&& after.writes.dom() == store.writes.dom()
        }),
    decreases writes.len(),
{
    if writes.len() > 0 {
        lemma_jobs_frame(store, workspace, runtime, writes.drop_last());
        let after = crate::session::lifecycle::with_jobs(store, workspace, runtime, writes);
        assert(after.writes.dom() =~= store.writes.dom());
    }
}

/// A session without a runtime is not closed while a commit is being made. Else it is recovered:
/// then it has no runtime and nothing blocks it.
pub proof fn law_closing_waits_for_commits(
    actor: SessionActor,
    stored: StoreView,
    gate_free: bool,
    pending_commit: Option<String>,
    now: i64,
    next: SessionActor,
    kept: StoreView,
    r: Result<(), Error>,
)
    requires
        closes_recovered(actor, stored, gate_free, pending_commit, now, next, kept, r),
    ensures
        !gate_free ==> r is Err && r->Err_0 is Agent && kept == stored && next == actor,
        r is Ok ==> {
            &&& gate_free
            &&& next.runtime is None
            &&& next.runtime_state is Detached
            &&& next.problem is None
            &&& !next.config_blocked
            &&& !next.execution_blocked
            &&& kept == stored.recovery(actor.info.id, now).0
        },
{
}

/// A session is released only where its agent has no work and no write of it is open; a running
/// agent is closed first.
pub proof fn law_only_idle_sessions_are_released(
    actor: SessionActor,
    store: StoreView,
    agent: Option<AgentView>,
)
    ensures
        ({
            let step = actor.release(store, agent);
            let open = store.unresolved(actor.info.workspace, Some(actor.info.id));
            let busy = actor.runtime is Some && agent is Some && has_active_work(agent->0);
            &&& busy ==> step == ReleaseStep::Done(
                SessionReleaseStatus::Retained(SessionRetentionReason::ActiveWork),
            )
            &&& !busy && open.len() > 0 ==> step == ReleaseStep::Done(
                SessionReleaseStatus::Retained(SessionRetentionReason::UnresolvedWrites),
            )
            &&& step == ReleaseStep::Done(SessionReleaseStatus::Released) <==> actor.runtime is None
                && open.len() == 0
            &&& step == ReleaseStep::Close <==> actor.runtime is Some && !busy && open.len() == 0
        }),
{
}

/// A closed session counts as released exactly where no write of it is open.
pub proof fn law_open_writes_retain_a_session(
    open: Seq<UnresolvedWriteView>,
    r: SessionReleaseStatus,
)
    requires
        closes_with(open, r),
    ensures
        r == SessionReleaseStatus::Released <==> open.len() == 0,
        open.len() > 0 ==> r == SessionReleaseStatus::Retained(
            SessionRetentionReason::UnresolvedWrites,
        ),
{
}

/// Reading the agent's state again lifts the block of a failure and its problem; a configuration
/// that blocks stays, with its problem. A configuration that was applied lifts its own block, and
/// one that was refused is shown where nothing runs.
pub proof fn law_blocks_are_lifted(
    actor: SessionActor,
    read: SessionActor,
    applied: SessionActor,
    problem: ConfigProblem,
    refused: SessionActor,
    r: Result<(), Error>,
    cause: Option<Error>,
    failed: SessionActor,
    shown: Error,
)
    requires
        forgets_errors(actor, read),
        applies_config(actor, applied),
        refuses_config(actor, problem, refused, r),
        fails_start(actor, cause, failed, shown),
    ensures
        !read.execution_blocked,
        read.config_blocked == actor.config_blocked,
        actor.execution_blocked && !actor.config_blocked ==> read.problem is None,
        actor.config_blocked || !actor.execution_blocked ==> read.problem == actor.problem,
        read.inputs == actor.inputs && read.runtime == actor.runtime,
        !applied.config_blocked && applied.problem is None,
        applied.execution_blocked == actor.execution_blocked,
        applied.inputs == actor.inputs && applied.runtime == actor.runtime,
        actor.runtime is Some ==> r == Err::<(), Error>(Error::Configuration(problem)) && refused
            == actor,
        actor.runtime is None ==> r is Ok && refused == (SessionActor {
            problem: Some(AppProblem::Configuration(problem)),
            ..actor
        }),
        failed == (SessionActor { runtime_state: RuntimeState::Detached, ..actor }),
        cause is Some ==> shown == cause->0,
        cause is None ==> shown is Agent,
{
}

/// What a session is to run with has the session's own values where it sets them, the root of its
/// workspace, and else what the workspace or the user sets. A session of an unknown workspace has
/// nothing to run with.
pub proof fn law_sessions_run_with_their_own_values(
    actor: SessionActor,
    store: StoreView,
    defaults: AdapterDefaults,
    r: Result<RuntimeConfig, Error>,
)
    requires
        resolves_config(actor, store, defaults, r),
    ensures
        ({
            let own = store.scope_config(ConfigScope::Session(actor.info.id), defaults);
            let shared = store.scope_config(ConfigScope::Workspace(actor.info.workspace), defaults);
            &&& !store.has_workspace(actor.info.workspace) ==> r == Err::<RuntimeConfig, Error>(
                Error::WorkspaceNotFound,
            )
            &&& store.has_workspace(actor.info.workspace) && r is Err ==> r->Err_0 is Configuration
            &&& r matches Ok(config) ==> {
                &&& config@.workspace == store.root_of(actor.info.workspace)
                &&& own.limits matches Some(limits) ==> config@.limits == limits
                &&& own.tools matches Some(tools) ==> config@.tools == tools
                &&& own.worker matches Some(worker) ==> config@.worker == worker
                &&& own.coordinator matches Some(coordinator) ==> config@.coordinator
                    == coordinator
                &&& own.limits is None ==> (shared.limits matches Some(limits) ==> config@.limits
                    == limits)
                &&& own.worker is None ==> (shared.worker matches Some(worker) ==> config@.worker
                    == worker)
                &&& own.limits is None && shared.limits is None ==> config@.limits
                    == store.user_settings(defaults).limits
            }
        }),
{
}

} // verus!

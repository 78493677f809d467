//! What a session does with its commands, one at a time.

use vstd::prelude::*;

use super::actor::{submits, submits_acceptance, SessionActor};
use super::commands::{
    archives, cancels_queued, knows_outcome, renames, renames_if_provisional, resolves_write,
    retries, saves_draft, stop_receipt, ResolveStep, RetryStep,
};
use super::configuring::resolves_config;
use super::lifecycle::{closes, plans_config, CloseStep, ConfigStep};
use super::requests::{page_limit, HISTORY_PAGE_LIMIT};
use crate::api::{
    AcceptanceReceipt, AcceptanceSubmission, CallRef, CommandReceipt, HistoryCursor, HistoryPage,
    InputId, JobControl, JobRef, RecentHistoryPage, SessionReleaseStatus, SessionSeq,
    SubmissionReceipt, SubmitInput, WriteResolution,
};
use crate::app::queries::clamped;
use crate::config::RuntimeConfig;
use crate::error::Error;
use crate::file_config::AdapterDefaults;
use crate::ids::{AcceptanceId, RuntimeId};
use crate::persistence::{DataStore, StoreView};
use crate::record::ToolOutcome;

verus! {

/// A command for a session. `gate_free` says whether no write, or no commit, is being made.
#[derive(Debug, PartialEq, Eq)]
pub enum Command {
    Submit { input: SubmitInput },
    SubmitAcceptance { id: AcceptanceId, submission: AcceptanceSubmission },
    Retry { input: InputId },
    Control { target: JobRef, action: JobControl },
    Stop,
    Snapshot,
    History { after: SessionSeq, limit: usize },
    RecentHistory { cursor: Option<HistoryCursor>, limit: usize },
    Rename { title: String },
    RenameIfProvisional { title: String },
    SaveDraft { draft: String },
    Archive { archived: bool },
    ResolveWrite { target: CallRef, resolution: WriteResolution, gate_free: bool },
    CloseRuntime,
    /// The configuration of the session may have changed.
    ConfigChanged { force: bool, defaults: AdapterDefaults },
    /// A runtime has recorded something.
    RuntimeDirty(RuntimeId),
    /// A write of the agent has returned.
    WriteCompleted(CallRef),
    /// The start of a runtime has ended.
    RuntimeReady(RuntimeId),
    Shutdown,
    ReleaseIfIdle { gate_free: bool },
}

/// The answer to a command.
#[derive(Debug, PartialEq, Eq)]
pub enum Reply {
    Submitted(SubmissionReceipt),
    Recorded(AcceptanceReceipt),
    Received(CommandReceipt),
    History(HistoryPage),
    RecentHistory(RecentHistoryPage),
    Renamed(bool),
    Done,
    Released(SessionReleaseStatus),
}

/// What is to be done outside the session after a command.
#[derive(Debug, PartialEq, Eq)]
pub enum Work {
    Nothing,
    /// A failure blocks the agent: it is to be stopped.
    StopAgent,
    /// The queued inputs are to be delivered.
    Deliver,
    /// The agent's state is to be read, and the input tried again then.
    RefreshAndRetry { input: InputId },
    /// The queued inputs are to be delivered, and that is the answer.
    DeliverFor { input: InputId, was_starting: bool },
    /// The agent is to try an input again.
    AskAgain { input: InputId, runtime: RuntimeId },
    /// The agent is to control a job.
    Control { job: u64, action: JobControl },
    /// The agent is to stop its work.
    StopWork { had_queued: bool, cancelled_start: bool },
    /// The agent is to be told the outcome of a write.
    Tell { target: CallRef, outcome: ToolOutcome, receipt: CommandReceipt },
    /// The agent is to be told the outcome of a write, if it shows the call without one. Then its
    /// state is to be read.
    Settle { call: CallRef, outcome: ToolOutcome },
    /// The agent is to be suspended where the step asks for it, and the step to be gone on with.
    Configure(ConfigStep),
    /// The agent's state is to be read, and shown.
    Refresh,
    /// The agent's state is to be read, and the queued inputs are to be delivered.
    RefreshAndDeliver,
    /// The runtime that is ready is to be installed.
    Install(RuntimeId),
    /// The runtime is to be closed.
    Close { step: CloseStep, and_end: bool },
    /// The agent's state is to be read, and the session released if nothing is pending.
    RefreshAndRelease,
}

/// What handling a command comes to: an answer, unless it is given later, and what is to be done.
#[derive(Debug, PartialEq, Eq)]
pub struct Handling {
    pub reply: Option<Result<Reply, Error>>,
    pub work: Work,
}

/// Whether a failed command was handled: the error is noted and given as the answer.
pub open spec fn refused(mid: SessionActor, error: Error, after: SessionActor, handling: Handling) -> bool {
    &&& after == mid.after_error(error)
    &&& handling.reply == Some(Err::<Reply, Error>(error))
    &&& handling.work == (if mid.stops_for(error) {
        Work::StopAgent
    } else {
        Work::Nothing
    })
}

/// Whether a command was answered at once.
pub open spec fn answered(mid: SessionActor, reply: Reply, after: SessionActor, handling: Handling) -> bool {
    after == mid && handling == (Handling { reply: Some(Ok(reply)), work: Work::Nothing })
}

/// Whether a command was handled so that its answer comes with outside work.
pub open spec fn deferred(mid: SessionActor, work: Work, after: SessionActor, handling: Handling) -> bool {
    after == mid && handling == (Handling { reply: None, work })
}

/// Whether handling a command comes to this, with the session before and after it and its store
/// before and after it.
pub open spec fn handles(
    before: SessionActor,
    stored: StoreView,
    command: Command,
    now: i64,
    after: SessionActor,
    saved: StoreView,
    handling: Handling,
) -> bool {
    match command {
        Command::Submit { input } => exists|mid: SessionActor, r: Result<SubmissionReceipt, Error>|
            #[trigger]
            submits(before, stored, input, now, mid, saved, r) && match r {
                Ok(receipt) => after == mid && handling == (Handling {
                    reply: Some(Ok(Reply::Submitted(receipt))),
                    work: Work::Deliver,
                }),
                Err(error) => refused(mid, error, after, handling),
            },
        Command::SubmitAcceptance { id, submission } => exists|
            mid: SessionActor,
            r: Result<AcceptanceReceipt, Error>,
        | #[trigger]
            submits_acceptance(before, stored, id, submission, now, mid, saved, r) && match r {
                Ok(receipt) => after == mid && handling == (Handling {
                    reply: Some(Ok(Reply::Recorded(receipt))),
                    work: Work::Deliver,
                }),
                Err(error) => refused(mid, error, after, handling),
            },
        Command::Retry { input } => saved == stored && if before.execution_blocked {
            deferred(before, Work::RefreshAndRetry { input }, after, handling)
        } else {
            exists|r: Result<RetryStep, Error>| #[trigger]
                retries(before, stored, input, r) && match r {
                    Ok(RetryStep::Deliver { was_starting }) => deferred(
                        before,
                        Work::DeliverFor { input, was_starting },
                        after,
                        handling,
                    ),
                    Ok(RetryStep::Ask { runtime }) => deferred(
                        before,
                        Work::AskAgain { input, runtime },
                        after,
                        handling,
                    ),
                    Ok(RetryStep::Unchanged) => answered(
                        before,
                        Reply::Received(CommandReceipt::Unchanged),
                        after,
                        handling,
                    ),
                    Err(error) => refused(before, error, after, handling),
                }
        },
        Command::Control { target, action } => saved == stored && if before.is_current(
            target.runtime,
        ) {
            deferred(before, Work::Control { job: target.id, action }, after, handling)
        } else {
            refused(before, Error::StaleRuntime(target.runtime), after, handling)
        },
        Command::Stop => exists|mid: SessionActor, r: Result<bool, Error>| #[trigger]
            cancels_queued(before, stored, now, mid, saved, r) && match r {
                Ok(had_queued) => {
                    let cancelled_start = mid.starting is Some;
                    if mid.runtime is Some {
                        deferred(
                            mid.start_given_up(),
                            Work::StopWork { had_queued, cancelled_start },
                            after,
                            handling,
                        )
                    } else {
                        answered(
                            mid.start_given_up(),
                            Reply::Received(
                                if had_queued || cancelled_start {
                                    CommandReceipt::Applied
                                } else {
                                    CommandReceipt::Unchanged
                                },
                            ),
                            after,
                            handling,
                        )
                    }
                },
                Err(error) => refused(mid, error, after, handling),
            },
        Command::Snapshot => saved == stored && deferred(before, Work::Refresh, after, handling),
        Command::History { after: position, limit } => {
            &&& saved == stored
            &&& after == before
            &&& handling.work == Work::Nothing
            &&& handling.reply matches Some(Ok(Reply::History(page)))
            &&& stored.shows_history(
                before.info.id,
                position,
                clamped(limit, HISTORY_PAGE_LIMIT),
                page,
            )
        },
        Command::RecentHistory { cursor, limit } => {
            &&& saved == stored
            &&& after == before
            &&& handling.work == Work::Nothing
            &&& handling.reply matches Some(Ok(Reply::RecentHistory(page)))
            &&& stored.shows_recent_history(
                before.info.id,
                cursor,
                clamped(limit, HISTORY_PAGE_LIMIT),
                page,
            )
        },
        Command::Rename { title } => exists|mid: SessionActor, r: Result<(), Error>| #[trigger]
            renames(before, stored, title, mid, saved, r) && match r {
                Ok(()) => answered(mid, Reply::Done, after, handling),
                Err(error) => refused(mid, error, after, handling),
            },
        Command::RenameIfProvisional { title } => exists|r: Result<bool, Error>| #[trigger]
            renames_if_provisional(before, stored, title, after, saved, r) && handling == (
            Handling {
                reply: Some(
                    match r {
                        Ok(renamed) => Ok(Reply::Renamed(renamed)),
                        Err(error) => Err(error),
                    },
                ),
                work: Work::Nothing,
            }),
        Command::SaveDraft { draft } => exists|mid: SessionActor, r: Result<(), Error>| #[trigger]
            saves_draft(before, stored, draft, mid, saved, r) && match r {
                Ok(()) => answered(mid, Reply::Done, after, handling),
                Err(error) => refused(mid, error, after, handling),
            },
        Command::Archive { archived } => exists|mid: SessionActor, r: Result<(), Error>| #[trigger]
            archives(before, stored, archived, mid, saved, r) && match r {
                Ok(()) => answered(mid, Reply::Done, after, handling),
                Err(error) => refused(mid, error, after, handling),
            },
        Command::ResolveWrite { target, resolution, gate_free } => exists|
            r: Result<ResolveStep, Error>,
        | #[trigger]
            resolves_write(before, stored, target, resolution, gate_free, now, saved, r) && match r {
                Ok(ResolveStep::Done(receipt)) => answered(
                    before,
                    Reply::Received(receipt),
                    after,
                    handling,
                ),
                Ok(ResolveStep::Tell { outcome, receipt }) => deferred(
                    before,
                    Work::Tell { target, outcome, receipt },
                    after,
                    handling,
                ),
                Err(error) => refused(before, error, after, handling),
            },
        Command::CloseRuntime => {
            &&& saved == stored
            &&& handling.reply is None
            &&& handling.work matches Work::Close { step, and_end }
            &&& !and_end
            &&& closes(before, after, step)
        },
        Command::Shutdown => {
            &&& saved == stored
            &&& handling.reply is None
            &&& handling.work matches Work::Close { step, and_end }
            &&& and_end
            &&& closes(before, after, step)
        },
        Command::ConfigChanged { force, defaults } => saved == stored && exists|
            resolved: Result<RuntimeConfig, Error>,
            mid: SessionActor,
            r: Result<ConfigStep, Error>,
        |
            {
                &&& resolves_config(before, stored, defaults, resolved)
                &&& #[trigger] plans_config(before, resolved, force, mid, r)
                &&& match r {
                    Ok(step) => deferred(mid, Work::Configure(step), after, handling),
                    Err(error) => refused(mid, error, after, handling),
                }
            },
        Command::WriteCompleted(call) => saved == stored && exists|outcome: Option<ToolOutcome>|
            #[trigger]
            knows_outcome(before, stored, call, outcome) && deferred(
                before,
                match outcome {
                    Some(outcome) => Work::Settle { call, outcome },
                    None => Work::Refresh,
                },
                after,
                handling,
            ),
        Command::RuntimeDirty(runtime) => saved == stored && deferred(
            before,
            if before.is_current(runtime) {
                Work::RefreshAndDeliver
            } else {
                Work::Nothing
            },
            after,
            handling,
        ),
        Command::RuntimeReady(runtime) => saved == stored && if before.starting == Some(runtime) {
            deferred(
                SessionActor { starting: None, ..before },
                Work::Install(runtime),
                after,
                handling,
            )
        } else {
            deferred(before, Work::Nothing, after, handling)
        },
        Command::ReleaseIfIdle { gate_free } => saved == stored && match before.barrier(gate_free) {
            Some(reason) => answered(
                before,
                Reply::Released(SessionReleaseStatus::Retained(reason)),
                after,
                handling,
            ),
            None => deferred(before, Work::RefreshAndRelease, after, handling),
        },
    }
}

impl SessionActor {
    /// Notes an error and gives it as the answer.
    fn refuse(&mut self, error: Error) -> (r: Handling)
        ensures
            refused(*old(self), error, *final(self), r),
    {
        let stop = self.record_execution_error(&error);
        Handling {
            reply: Some(Err(error)),
            work: if stop {
                Work::StopAgent
            } else {
                Work::Nothing
            },
        }
    }

    /// Handles a command: changes the session and its store, answers where the answer is known, and
    /// says what is to be done with the agent.
    pub fn handle(&mut self, store: &mut DataStore, command: Command, now: i64) -> (r: Handling)
        requires
            command matches Command::ConfigChanged { defaults, .. } ==> defaults.usable(),
        ensures
            handles(*old(self), old(store)@, command, now, *final(self), final(store)@, r),
    {
        let ghost before = *self;
        let ghost stored = store@;
        match command {
            Command::Submit { input } => {
                let r = self.submit(store, &input, now);
                assert(submits(before, stored, input, now, *self, store@, r));
                match r {
                    Ok(receipt) => Handling {
                        reply: Some(Ok(Reply::Submitted(receipt))),
                        work: Work::Deliver,
                    },
                    Err(error) => self.refuse(error),
                }
            },
            Command::SubmitAcceptance { id, submission } => {
                let r = self.submit_acceptance(store, id, &submission, now);
                assert(submits_acceptance(before, stored, id, submission, now, *self, store@, r));
                match r {
                    Ok(receipt) => Handling {
                        reply: Some(Ok(Reply::Recorded(receipt))),
                        work: Work::Deliver,
                    },
                    Err(error) => self.refuse(error),
                }
            },
            Command::Retry { input } => {
                if self.execution_blocked {
                    return Handling { reply: None, work: Work::RefreshAndRetry { input } };
                }
                let r = self.begin_retry(store, input);
                assert(retries(before, stored, input, r));
                match r {
                    Ok(RetryStep::Deliver { was_starting }) => Handling {
                        reply: None,
                        work: Work::DeliverFor { input, was_starting },
                    },
                    Ok(RetryStep::Ask { runtime }) => Handling {
                        reply: None,
                        work: Work::AskAgain { input, runtime },
                    },
                    Ok(RetryStep::Unchanged) => Handling {
                        reply: Some(Ok(Reply::Received(CommandReceipt::Unchanged))),
                        work: Work::Nothing,
                    },
                    Err(error) => self.refuse(error),
                }
            },
            Command::Control { target, action } => match self.current_runtime(target.runtime) {
                Ok(()) => Handling { reply: None, work: Work::Control { job: target.id, action } },
                Err(error) => self.refuse(error),
            },
            Command::Stop => {
                let r = self.cancel_queued(store, now);
                assert(cancels_queued(before, stored, now, *self, store@, r));
                match r {
                    Ok(had_queued) => {
                        let cancelled_start = self.cancel_start();
                        if self.runtime.is_some() {
                            Handling {
                                reply: None,
                                work: Work::StopWork { had_queued, cancelled_start },
                            }
                        } else {
                            let receipt = stop_receipt(had_queued, cancelled_start, None);
                            Handling {
                                reply: Some(Ok(Reply::Received(receipt))),
                                work: Work::Nothing,
                            }
                        }
                    },
                    Err(error) => self.refuse(error),
                }
            },
            Command::Snapshot => Handling { reply: None, work: Work::Refresh },
            Command::History { after, limit } => {
                let page = store.history(self.info.id, after, page_limit(limit, HISTORY_PAGE_LIMIT));
                Handling { reply: Some(Ok(Reply::History(page))), work: Work::Nothing }
            },
            Command::RecentHistory { cursor, limit } => {
                let page = store.recent_history(
                    self.info.id,
                    cursor,
                    page_limit(limit, HISTORY_PAGE_LIMIT),
                );
                Handling { reply: Some(Ok(Reply::RecentHistory(page))), work: Work::Nothing }
            },
            Command::Rename { title } => {
                let r = self.rename(store, title);
                assert(renames(before, stored, title, *self, store@, r));
                match r {
                    Ok(()) => Handling { reply: Some(Ok(Reply::Done)), work: Work::Nothing },
                    Err(error) => self.refuse(error),
                }
            },
            Command::RenameIfProvisional { title } => {
                let r = self.rename_if_provisional(store, title);
                assert(renames_if_provisional(before, stored, title, *self, store@, r));
                let reply = match r {
                    Ok(renamed) => Ok(Reply::Renamed(renamed)),
                    Err(error) => Err(error),
                };
                Handling { reply: Some(reply), work: Work::Nothing }
            },
            Command::SaveDraft { draft } => {
                let r = self.save_draft(store, draft);
                assert(saves_draft(before, stored, draft, *self, store@, r));
                match r {
                    Ok(()) => Handling { reply: Some(Ok(Reply::Done)), work: Work::Nothing },
                    Err(error) => self.refuse(error),
                }
            },
            Command::Archive { archived } => {
                let r = self.archive(store, archived);
                assert(archives(before, stored, archived, *self, store@, r));
                match r {
                    Ok(()) => Handling { reply: Some(Ok(Reply::Done)), work: Work::Nothing },
                    Err(error) => self.refuse(error),
                }
            },
            Command::ResolveWrite { target, resolution, gate_free } => {
                let r = self.resolve_write(store, target, &resolution, gate_free, now);
                assert(resolves_write(
                    before,
                    stored,
                    target,
                    resolution,
                    gate_free,
                    now,
                    store@,
                    r,
                ));
                match r {
                    Ok(ResolveStep::Done(receipt)) => Handling {
                        reply: Some(Ok(Reply::Received(receipt))),
                        work: Work::Nothing,
                    },
                    Ok(ResolveStep::Tell { outcome, receipt }) => Handling {
                        reply: None,
                        work: Work::Tell { target, outcome, receipt },
                    },
                    Err(error) => self.refuse(error),
                }
            },
            Command::CloseRuntime => {
                let step = self.begin_close();
                Handling { reply: None, work: Work::Close { step, and_end: false } }
            },
            Command::Shutdown => {
                let step = self.begin_close();
                Handling { reply: None, work: Work::Close { step, and_end: true } }
            },
            Command::ConfigChanged { force, defaults } => {
                let resolved = self.resolve_config(store, defaults);
                let ghost wanted = resolved;
                let r = self.plan_config(resolved, force);
                assert(plans_config(before, wanted, force, *self, r));
                match r {
                    Ok(step) => Handling { reply: None, work: Work::Configure(step) },
                    Err(error) => self.refuse(error),
                }
            },
            Command::WriteCompleted(call) => {
                let outcome = self.known_outcome(store, call);
                assert(knows_outcome(before, stored, call, outcome));
                let work = match outcome {
                    Some(outcome) => Work::Settle { call, outcome },
                    None => Work::Refresh,
                };
                Handling { reply: None, work }
            },
            Command::RuntimeDirty(runtime) => {
                let work = match self.current_runtime(runtime) {
                    Ok(()) => Work::RefreshAndDeliver,
                    Err(_) => Work::Nothing,
                };
                Handling { reply: None, work }
            },
            Command::RuntimeReady(runtime) => {
                let work = if self.take_ready(runtime) {
                    Work::Install(runtime)
                } else {
                    Work::Nothing
                };
                Handling { reply: None, work }
            },
            Command::ReleaseIfIdle { gate_free } => match self.release_barrier(gate_free) {
                Some(reason) => Handling {
                    reply: Some(Ok(Reply::Released(SessionReleaseStatus::Retained(reason)))),
                    work: Work::Nothing,
                },
                None => Handling { reply: None, work: Work::RefreshAndRelease },
            },
        }
    }
}

} // verus!

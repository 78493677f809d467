//! The ledger of workspace writes: each is begun once, and stays until its effect is settled.

use vstd::prelude::*;

use super::keys::{make_write_key, write_key};
use super::{
    DataStore, StoreView, StoredEntryView, StoredEvent, StoredEventView, StoredWriteResolution,
    WriteAttempt, WriteState,
};
use crate::api::{
    CallRef, JobRef, SessionEvent, SessionEventView, UnresolvedWriteStatus, UnresolvedWriteView,
    WriteResolution,
};
use crate::document::{ascending_keys, listing, lists, DocumentKey, KeyRange};
use crate::error::StoreError;
use crate::ids::{SessionId, WorkspaceId};
use crate::record::{ExternalEffect, ToolOutcome};
use crate::seqs::{
    lemma_filter_none, lemma_filter_step, lemma_slot, lemma_slot_bounds, lemma_sorted_by,
    lemma_sorted_by_fixes, lemma_take_all, slot, sorted_by,
};

verus! {

impl Clone for WriteState {
    fn clone(&self) -> (r: WriteState)
        ensures
            r == *self,
    {
        match self {
            WriteState::Pending => WriteState::Pending,
            WriteState::Finished(outcome) => WriteState::Finished(outcome.clone()),
        }
    }
}

impl Clone for WriteAttempt {
    fn clone(&self) -> (r: WriteAttempt)
        ensures
            r == *self,
    {
        WriteAttempt {
            session: self.session,
            call: self.call,
            job: self.job,
            tool: self.tool.clone(),
            arguments: self.arguments.clone(),
            state: self.state.clone(),
        }
    }
}

/// What came of settling a write.
#[derive(Clone, Copy, Debug, PartialEq, Eq, Structural)]
pub enum ResolveWriteResult {
    Applied,
    AlreadyResolved(ExternalEffect),
    Unchanged,
    Conflicts(ExternalEffect),
}

/// A write as it is shown.
pub open spec fn shown_write(workspace: WorkspaceId, attempt: WriteAttempt) -> UnresolvedWriteView {
    UnresolvedWriteView {
        workspace,
        session: attempt.session,
        call: attempt.call,
        job: attempt.job,
        status: match attempt.state {
            WriteState::Pending => UnresolvedWriteStatus::Pending,
            WriteState::Finished(_) => UnresolvedWriteStatus::Finished,
        },
        tool: attempt.tool,
        arguments: attempt.arguments,
        outcome: match attempt.state {
            WriteState::Pending => None,
            WriteState::Finished(outcome) => Some(outcome),
        },
    }
}

/// A write as it is shown.
pub fn write_view(workspace: WorkspaceId, attempt: &WriteAttempt) -> (r: UnresolvedWriteView)
    ensures
        r == shown_write(workspace, *attempt),
{
    let (status, outcome) = match &attempt.state {
        WriteState::Pending => (UnresolvedWriteStatus::Pending, None),
        WriteState::Finished(outcome) => (UnresolvedWriteStatus::Finished, Some(outcome.clone())),
    };
    UnresolvedWriteView {
        workspace,
        session: attempt.session,
        call: attempt.call,
        job: attempt.job,
        status,
        tool: attempt.tool.clone(),
        arguments: attempt.arguments.clone(),
        outcome,
    }
}

impl StoreView {
    /// Whether a write is in the ledger.
    pub open spec fn has_write(self, workspace: WorkspaceId, call: CallRef) -> bool {
        self.writes.dom().contains(write_key(workspace, call))
    }

    /// A write of the ledger.
    pub open spec fn write(self, workspace: WorkspaceId, call: CallRef) -> WriteAttempt {
        self.writes[write_key(workspace, call)]
    }

    /// The writes of a workspace that are not settled, of one session or of all.
    pub open spec fn unresolved(self, workspace: WorkspaceId, session: Option<SessionId>) -> Seq<
        UnresolvedWriteView,
    > {
        sorted_by(
            listed_writes(
                listing(self.writes.dom(), KeyRange::of(workspace.0)),
                self.writes,
                session,
            ).map_values(|key: DocumentKey| shown_write(workspace, self.writes[key])),
            call_of(),
        )
    }

    /// The outcome of a write that returned with a known effect.
    pub open spec fn finished_outcome(self, workspace: WorkspaceId, call: CallRef) -> Option<
        ToolOutcome,
    > {
        if self.has_write(workspace, call) {
            match self.write(workspace, call).state {
                WriteState::Finished(outcome) => if outcome.external_effect
                    != ExternalEffect::Unknown {
                    Some(outcome)
                } else {
                    None
                },
                WriteState::Pending => None,
            }
        } else {
            None
        }
    }

    /// Whether a write was settled by the user.
    pub open spec fn has_resolution(self, workspace: WorkspaceId, call: CallRef) -> bool {
        self.write_resolutions.dom().contains(write_key(workspace, call))
    }

    /// How a write was settled.
    pub open spec fn write_resolution(self, workspace: WorkspaceId, call: CallRef) -> StoredWriteResolution {
        self.write_resolutions[write_key(workspace, call)]
    }

    /// The store with the attention item of a write.
    pub open spec fn with_write_attention(self, workspace: WorkspaceId, attempt: WriteAttempt) -> StoreView {
        StoreView {
            unsettled: self.unsettled.insert(
                write_key(workspace, attempt.call),
                shown_write(workspace, attempt),
            ),
            ..self
        }
    }

    /// The store with a write in the ledger.
    pub open spec fn with_write(
        self,
        workspace: WorkspaceId,
        call: CallRef,
        attempt: WriteAttempt,
    ) -> StoreView {
        StoreView {
            writes: self.writes.insert(write_key(workspace, call), attempt),
            ..self.with_write_attention(workspace, attempt)
        }
    }

    /// The store without a write in the ledger.
    pub open spec fn without_write(self, workspace: WorkspaceId, call: CallRef) -> StoreView {
        StoreView {
            writes: self.writes.remove(write_key(workspace, call)),
            unsettled: self.unsettled.remove(write_key(workspace, call)),
            ..self
        }
    }

    /// What settling a write comes to.
    pub open spec fn resolving(
        self,
        workspace: WorkspaceId,
        session: SessionId,
        call: CallRef,
        effect: ExternalEffect,
    ) -> ResolveWriteResult {
        if !self.has_write(workspace, call) {
            if self.has_resolution(workspace, call) && self.write_resolution(
                workspace,
                call,
            ).session == session {
                let saved = self.write_resolution(workspace, call).external_effect;
                if saved == effect {
                    ResolveWriteResult::AlreadyResolved(saved)
                } else {
                    ResolveWriteResult::Conflicts(saved)
                }
            } else {
                ResolveWriteResult::Unchanged
            }
        } else if self.write(workspace, call).session != session {
            ResolveWriteResult::Unchanged
        } else {
            match self.write(workspace, call).state {
                WriteState::Finished(outcome) => if outcome.external_effect
                    == ExternalEffect::Unknown || outcome.external_effect == effect {
                    ResolveWriteResult::Applied
                } else {
                    ResolveWriteResult::Conflicts(outcome.external_effect)
                },
                WriteState::Pending => ResolveWriteResult::Applied,
            }
        }
    }

    /// The store after a write was settled.
    pub open spec fn with_resolution(
        self,
        workspace: WorkspaceId,
        session: SessionId,
        call: CallRef,
        resolution: WriteResolution,
        now: i64,
    ) -> StoreView {
        let settled = StoreView {
            write_resolutions: self.write_resolutions.insert(
                write_key(workspace, call),
                StoredWriteResolution { session, external_effect: resolution.external_effect },
            ),
            ..self.without_write(workspace, call)
        };
        settled.with_entries(
            session,
            seq![
                StoredEntryView {
                    occurred_at: now,
                    event: StoredEventView::App(
                        SessionEventView::WriteResolved {
                            call,
                            external_effect: resolution.external_effect,
                            evidence: resolution.evidence,
                        },
                    ),
                },
            ],
        )
    }

    /// Whether every write is stored under its own call.
    pub open spec fn writes_under_their_calls(self) -> bool {
        forall|key: DocumentKey| #[trigger]
            self.writes.dom().contains(key) ==> key == write_key(
                WorkspaceId(key.owner),
                self.writes[key].call,
            )
    }
}

/// The keys of the writes that a listing shows.
pub open spec fn listed_writes(
    keys: Seq<DocumentKey>,
    writes: Map<DocumentKey, WriteAttempt>,
    session: Option<SessionId>,
) -> Seq<DocumentKey> {
    keys.filter(|key: DocumentKey| session is None || writes[key].session == session->0)
}

/// Whether beginning a write gives this store and this answer.
pub open spec fn begins_write(
    before: StoreView,
    workspace: WorkspaceId,
    session: SessionId,
    call: CallRef,
    tool: String,
    arguments: String,
    after: StoreView,
    r: Result<bool, StoreError>,
) -> bool {
    if !before.has_session(session) {
        r == Err::<bool, StoreError>(
            StoreError::Corrupt {
                message: "write attempt belongs to a missing session",
            },
        ) && after == before
    } else if before.session(session).info.workspace != workspace {
        r == Err::<bool, StoreError>(
            StoreError::Corrupt {
                message: "write attempt workspace does not match its session",
            },
        ) && after == before
    } else if before.has_write(workspace, call) || before.has_resolution(
        workspace,
        call,
    ) {
        r == Ok::<bool, StoreError>(false) && after == before
    } else {
        &&& r == Ok::<bool, StoreError>(true)
        &&& after == before.with_write(
            workspace,
            call,
            WriteAttempt {
                session,
                call,
                job: None,
                tool,
                arguments,
                state: WriteState::Pending,
            },
        )
    }
}

/// Whether the return of a write gives this store and this answer.
pub open spec fn finishes_write(
    before: StoreView,
    workspace: WorkspaceId,
    call: CallRef,
    outcome: ToolOutcome,
    after: StoreView,
    r: Result<(), StoreError>,
) -> bool {
    if !before.has_write(workspace, call) {
        r == Err::<(), StoreError>(
            StoreError::Corrupt { message: "write attempt does not exist" },
        ) && after == before
    } else if !(before.write(workspace, call).state is Pending) {
        r == Err::<(), StoreError>(
            StoreError::Corrupt { message: "write attempt was already completed" },
        ) && after == before
    } else {
        &&& r is Ok
        &&& after == before.with_write(
            workspace,
            call,
            WriteAttempt {
                state: WriteState::Finished(outcome),
                ..before.write(workspace, call)
            },
        )
    }
}

/// Whether settling a write gives this store and this answer.
pub open spec fn settles_write(
    before: StoreView,
    workspace: WorkspaceId,
    session: SessionId,
    call: CallRef,
    resolution: WriteResolution,
    now: i64,
    after: StoreView,
    r: ResolveWriteResult,
) -> bool {
    &&& r == before.resolving(workspace, session, call, resolution.external_effect)
    &&& after == (if r is Applied {
        before.with_resolution(workspace, session, call, resolution, now)
    } else {
        before
    })
}

/// Whether this is the effect that the user found for a write of a session.
pub open spec fn knows_effect(
    store: StoreView,
    workspace: WorkspaceId,
    session: SessionId,
    call: CallRef,
    r: Option<ExternalEffect>,
) -> bool {
    r == (if store.has_resolution(workspace, call) && store.write_resolution(
        workspace,
        call,
    ).session == session {
        Some(store.write_resolution(workspace, call).external_effect)
    } else {
        None
    })
}

impl DataStore {
    /// Keeps the attention item of a write in step with the ledger.
    pub(crate) fn sync_write_attention(&mut self, workspace: WorkspaceId, attempt: &WriteAttempt)
        ensures
            final(self)@ == old(self)@.with_write_attention(workspace, *attempt),
    {
        self.unsettled.put(make_write_key(workspace, attempt.call), write_view(workspace, attempt));
        proof {
            assert(self@ =~= old(self)@.with_write_attention(workspace, *attempt));
        }
    }

    fn put_write(&mut self, workspace: WorkspaceId, call: CallRef, attempt: WriteAttempt)
        ensures
            final(self)@ == old(self)@.with_write(workspace, call, attempt),
    {
        self.sync_write_attention(workspace, &attempt);
        self.writes.put(make_write_key(workspace, call), attempt);
        proof {
            assert(self@ =~= old(self)@.with_write(workspace, call, attempt));
        }
    }

    pub(crate) fn drop_write(&mut self, workspace: WorkspaceId, call: CallRef)
        ensures
            final(self)@ == old(self)@.without_write(workspace, call),
    {
        let key = make_write_key(workspace, call);
        let _ = self.writes.take(&key);
        let _ = self.unsettled.take(&key);
        proof {
            assert(self@ =~= old(self)@.without_write(workspace, call));
        }
    }

    /// Begins a write, unless it was begun or settled before; returns whether it was begun.
    pub fn begin_write(
        &mut self,
        workspace: WorkspaceId,
        session: SessionId,
        call: CallRef,
        tool: String,
        arguments: String,
    ) -> (r: Result<bool, StoreError>)
        ensures
            begins_write(old(self)@, workspace, session, call, tool, arguments, final(self)@, r),
    {
        match self.workspace_of(session) {
            Some(saved) => {
                if saved != workspace {
                    return Err(
                        StoreError::Corrupt {
                            message: "write attempt workspace does not match its session",
                        },
                    );
                }
            },
            None => {
                return Err(
                    StoreError::Corrupt { message: "write attempt belongs to a missing session" },
                );
            },
        }
        let key = make_write_key(workspace, call);
        if self.writes.has(&key) || self.write_resolutions.has(&key) {
            return Ok(false);
        }
        self.put_write(
            workspace,
            call,
            WriteAttempt {
                session,
                call,
                job: None,
                tool,
                arguments,
                state: WriteState::Pending,
            },
        );
        Ok(true)
    }

    /// Records the outcome of a write that was begun and has not returned before.
    pub fn finish_write(&mut self, workspace: WorkspaceId, call: CallRef, outcome: ToolOutcome) -> (r: Result<
        (),
        StoreError,
    >)
        ensures
            finishes_write(old(self)@, workspace, call, outcome, final(self)@, r),
    {
        let attempt = match self.writes.get(&make_write_key(workspace, call)) {
            Some(attempt) => match attempt.state {
                WriteState::Pending => WriteAttempt {
                    session: attempt.session,
                    call: attempt.call,
                    job: attempt.job,
                    tool: attempt.tool.clone(),
                    arguments: attempt.arguments.clone(),
                    state: WriteState::Finished(outcome),
                },
                WriteState::Finished(_) => {
                    return Err(
                        StoreError::Corrupt { message: "write attempt was already completed" },
                    );
                },
            },
            None => {
                return Err(StoreError::Corrupt { message: "write attempt does not exist" });
            },
        };
        self.put_write(workspace, call, attempt);
        Ok(())
    }

    /// The outcome of a write that has returned with a known effect.
    pub fn finished_write(&self, workspace: WorkspaceId, call: CallRef) -> (r: Option<ToolOutcome>)
        ensures
            r == self@.finished_outcome(workspace, call),
    {
        match self.writes.get(&make_write_key(workspace, call)) {
            Some(attempt) => match &attempt.state {
                WriteState::Finished(outcome) => {
                    if outcome.external_effect != ExternalEffect::Unknown {
                        Some(outcome.clone())
                    } else {
                        None
                    }
                },
                WriteState::Pending => None,
            },
            None => None,
        }
    }

    /// Records which job a write belongs to, where the write is in the ledger.
    pub fn attach_write_job(&mut self, workspace: WorkspaceId, call: CallRef, job: JobRef)
        ensures
            final(self)@ == old(self)@.with_job(workspace, call, job),
    {
        let attempt = match self.writes.get(&make_write_key(workspace, call)) {
            Some(attempt) => {
                match attempt.job {
                    Some(saved) => {
                        if saved == job {
                            return ;
                        }
                    },
                    None => {},
                }
                WriteAttempt {
                    session: attempt.session,
                    call: attempt.call,
                    job: Some(job),
                    tool: attempt.tool.clone(),
                    arguments: attempt.arguments.clone(),
                    state: attempt.state.clone(),
                }
            },
            None => {
                return ;
            },
        };
        self.put_write(workspace, call, attempt);
    }

    /// The writes of a workspace that are not settled, of one session where one is given, by their
    /// runtimes and numbers.
    pub fn unresolved_writes(&self, workspace: WorkspaceId, session: Option<SessionId>) -> (r: Vec<
        UnresolvedWriteView,
    >)
        ensures
            r@ == self@.unresolved(workspace, session),
            self@.writes_under_their_calls() ==> forall|i: int, j: int|
                0 <= i < j < r@.len() ==> (#[trigger] r@[i]).call.precedes((#[trigger] r@[j]).call),
    {
        let keys = self.writes.select(&KeyRange::owned_by(workspace.0));
        let ghost wanted = |key: DocumentKey|
            session is None || self@.writes[key].session == session->0;
        let ghost shown = |key: DocumentKey| shown_write(workspace, self@.writes[key]);
        let ghost mut listed = Seq::<DocumentKey>::empty();
        let mut r: Vec<UnresolvedWriteView> = Vec::new();
        let mut i: usize = 0;
        proof {
            lemma_filter_none(keys@, wanted);
            assert(listed.map_values(shown) =~= Seq::<UnresolvedWriteView>::empty());
            assert(r@ =~= sorted_by(listed.map_values(shown), call_of()));
        }
        while i < keys.len()
            invariant
                i <= keys@.len(),
                wanted == (|key: DocumentKey|
                    session is None || self@.writes[key].session == session->0),
                shown == (|key: DocumentKey| shown_write(workspace, self@.writes[key])),
                forall|j: int| #![trigger keys@[j]]
                    0 <= j < keys@.len() ==> self.writes@.dom().contains(keys@[j])
                        && keys@[j].owner == workspace.0,
                ascending_keys(keys@),
                listed == keys@.take(i as int).filter(wanted),
                r@ == sorted_by(listed.map_values(shown), call_of()),
                forall|j: int| #![trigger listed[j]]
                    0 <= j < listed.len() ==> self.writes@.dom().contains(listed[j])
                        && listed[j].owner == workspace.0 && (i < keys@.len() ==> listed[j].precedes(
                        keys@[i as int],
                    )),
                ascending_keys(listed),
            decreases keys@.len() - i,
        {
            proof {
                assert(self.writes@.dom().contains(keys@[i as int]));
                lemma_filter_step(keys@, i as int, wanted);
            }
            match self.writes.get(&keys[i]) {
                Some(attempt) => {
                    let keep = match session {
                        Some(id) => attempt.session == id,
                        None => true,
                    };
                    if keep {
                        let ghost before = listed.map_values(shown);
                        let write = write_view(workspace, attempt);
                        let ghost value = write;
                        insert_by_call(&mut r, write);
                        proof {
                            listed = listed.push(keys@[i as int]);
                            assert(listed.map_values(shown) =~= before.push(value));
                            assert(before.push(value).drop_last() =~= before);
                            lemma_slot_bounds(
                                sorted_by(before, call_of()).map_values(call_of()),
                                value.call.rank(),
                            );
                        }
                    }
                },
                None => {},
            }
            proof {
                if i + 1 < keys@.len() {
                    assert(keys@[i as int].precedes(keys@[i + 1]));
                }
            }
            i = i + 1;
        }
        proof {
            lemma_take_all(keys@);
            if self@.writes_under_their_calls() {
                let writes = listed.map_values(shown);
                assert forall|a: int, b: int| 0 <= a < b < writes.len() implies (
                #[trigger] writes[a]).call.precedes((#[trigger] writes[b]).call) by {
                    assert(listed[a].precedes(listed[b]));
                    assert(self@.writes.dom().contains(listed[a]));
                    assert(self@.writes.dom().contains(listed[b]));
                }
                assert forall|a: int, b: int| 0 <= a <= b < writes.len() implies call_of()(
                    #[trigger] writes[a],
                ) <= call_of()(#[trigger] writes[b]) by {
                    if a < b {
                        assert(writes[a].call.precedes(writes[b].call));
                    }
                }
                lemma_sorted_by_fixes(writes, call_of());
            }
        }
        r
    }

    /// Settles a write as the user found it, where nothing contradicts that.
    pub fn resolve_write(
        &mut self,
        workspace: WorkspaceId,
        session: SessionId,
        call: CallRef,
        resolution: WriteResolution,
        now: i64,
    ) -> (r: ResolveWriteResult)
        ensures
            settles_write(old(self)@, workspace, session, call, resolution, now, final(self)@, r),
    {
        let key = make_write_key(workspace, call);
        match self.writes.get(&key) {
            Some(attempt) => {
                if attempt.session != session {
                    return ResolveWriteResult::Unchanged;
                }
                match &attempt.state {
                    WriteState::Pending => {},
                    WriteState::Finished(outcome) => {
                        if outcome.external_effect != ExternalEffect::Unknown
                            && outcome.external_effect != resolution.external_effect {
                            return ResolveWriteResult::Conflicts(outcome.external_effect);
                        }
                    },
                }
            },
            None => {
                return match self.write_resolutions.get(&key) {
                    Some(saved) => {
                        if saved.session != session {
                            ResolveWriteResult::Unchanged
                        } else if saved.external_effect == resolution.external_effect {
                            ResolveWriteResult::AlreadyResolved(saved.external_effect)
                        } else {
                            ResolveWriteResult::Conflicts(saved.external_effect)
                        }
                    },
                    None => ResolveWriteResult::Unchanged,
                };
            },
        }
        let ghost start = self@;
        self.drop_write(workspace, call);
        self.write_resolutions.put(
            key,
            StoredWriteResolution { session, external_effect: resolution.external_effect },
        );
        let event = SessionEvent::WriteResolved {
            call,
            external_effect: resolution.external_effect,
            evidence: resolution.evidence,
        };
        let _ = self.append(session, StoredEvent::App(event), now);
        proof {
            assert(self@ =~= start.with_resolution(workspace, session, call, resolution, now));
        }
        ResolveWriteResult::Applied
    }

    /// How the user settled a write of a session.
    pub fn resolved_write_effect(
        &self,
        workspace: WorkspaceId,
        session: SessionId,
        call: CallRef,
    ) -> (r: Option<ExternalEffect>)
        ensures
            knows_effect(self@, workspace, session, call, r),
    {
        match self.write_resolutions.get(&make_write_key(workspace, call)) {
            Some(saved) => {
                if saved.session == session {
                    Some(saved.external_effect)
                } else {
                    None
                }
            },
            None => None,
        }
    }
}

impl StoreView {
    /// The store with the job of a write.
    pub open spec fn with_job(self, workspace: WorkspaceId, call: CallRef, job: JobRef) -> StoreView {
        if self.has_write(workspace, call) && self.write(workspace, call).job != Some(job) {
            self.with_write(
                workspace,
                call,
                WriteAttempt { job: Some(job), ..self.write(workspace, call) },
            )
        } else {
            self
        }
    }
}

/// A settled write has left the ledger, cannot be begun again, and keeps its finding: the same
/// finding is already there, another one contradicts it.
pub proof fn law_settled_write_is_final(
    store: StoreView,
    workspace: WorkspaceId,
    session: SessionId,
    call: CallRef,
    resolution: WriteResolution,
    now: i64,
    other: ExternalEffect,
)
    requires
        store.resolving(workspace, session, call, resolution.external_effect) is Applied,
    ensures
        ({
            let after = store.with_resolution(workspace, session, call, resolution, now);
            &&& !after.has_write(workspace, call)
            &&& !after.unsettled.dom().contains(write_key(workspace, call))
            &&& after.has_resolution(workspace, call)
            &&& after.resolving(workspace, session, call, other) == (if other
                == resolution.external_effect {
                ResolveWriteResult::AlreadyResolved(other)
            } else {
                ResolveWriteResult::Conflicts(resolution.external_effect)
            })
        }),
{
}

/// The ledger keeps every write under its own call.
pub proof fn law_writes_stay_under_their_calls(
    store: StoreView,
    workspace: WorkspaceId,
    call: CallRef,
    attempt: WriteAttempt,
)
    requires
        store.writes_under_their_calls(),
        attempt.call == call,
    ensures
        store.with_write(workspace, call, attempt).writes_under_their_calls(),
        store.without_write(workspace, call).writes_under_their_calls(),
{
}

/// Every write in the ledger is shown as an attention item, as the ledger has it.
pub open spec fn ledger_shown(store: StoreView) -> bool {
    forall|key: DocumentKey| #[trigger]
        store.writes.dom().contains(key) ==> store.unsettled.dom().contains(key)
            && store.unsettled[key] == shown_write(WorkspaceId(key.owner), store.writes[key])
}

/// Beginning, finishing and settling writes keeps the attention items in step with the ledger.
pub proof fn law_attention_follows_ledger(
    store: StoreView,
    workspace: WorkspaceId,
    call: CallRef,
    attempt: WriteAttempt,
)
    requires
        ledger_shown(store),
        attempt.call == call,
    ensures
        ledger_shown(store.with_write(workspace, call, attempt)),
        ledger_shown(store.without_write(workspace, call)),
{
}

/// The order of writes: by their calls.
pub open spec fn call_of() -> spec_fn(UnresolvedWriteView) -> int {
    |write: UnresolvedWriteView| write.call.rank()
}

/// Puts a write in its place by its call.
pub(crate) fn insert_by_call(items: &mut Vec<UnresolvedWriteView>, item: UnresolvedWriteView)
    ensures
        final(items)@ == old(items)@.insert(
            slot(old(items)@.map_values(call_of()), item.call.rank()),
            item,
        ),
{
    let ghost ranks = items@.map_values(call_of());
    let mut at: usize = items.len();
    while at > 0 && item.call.is_before(items[at - 1].call)
        invariant
            at <= items@.len(),
            ranks == items@.map_values(call_of()),
            forall|i: int| at <= i < ranks.len() ==> ranks[i] > item.call.rank(),
        decreases at,
    {
        at = at - 1;
        proof {
            assert(ranks[at as int] == items@[at as int].call.rank());
        }
    }
    proof {
        if at > 0 {
            assert(ranks[at - 1] == items@[at - 1].call.rank());
        }
        lemma_slot(ranks, item.call.rank(), at as int);
    }
    let ghost before = items@;
    items.insert(at, item);
    proof {
        assert(items@ =~= before.insert(at as int, item));
    }
}

/// A write that was begun and is not settled is among the unsettled writes of its workspace.
pub proof fn law_unsettled_writes_are_listed(store: StoreView, workspace: WorkspaceId, call: CallRef)
    requires
        store.has_write(workspace, call),
        lists(
            listing(store.writes.dom(), KeyRange::of(workspace.0)),
            store.writes.dom(),
            KeyRange::of(workspace.0),
        ),
    ensures
        store.unresolved(workspace, None).contains(
            shown_write(workspace, store.write(workspace, call)),
        ),
{
    let keys = listing(store.writes.dom(), KeyRange::of(workspace.0));
    let key = write_key(workspace, call);
    let all = |key: DocumentKey| None::<SessionId> is None || store.writes[key].session
        == None::<SessionId>->0;
    assert(keys.contains(key));
    let at = choose|at: int| 0 <= at < keys.len() && keys[at] == key;
    let kept = listed_writes(keys, store.writes, None);
    assert(kept == keys.filter(all));
    keys.lemma_filter_contains(all, at);
    let place = choose|place: int| 0 <= place < kept.len() && kept[place] == key;
    let shown = kept.map_values(|key: DocumentKey| shown_write(workspace, store.writes[key]));
    let write = shown_write(workspace, store.write(workspace, call));
    assert(shown[place] == write);
    lemma_sorted_by(shown, call_of());
    broadcast use vstd::seq_lib::group_to_multiset_ensures;

    assert(shown.to_multiset().count(write) > 0);
    assert(store.unresolved(workspace, None).to_multiset().count(write) > 0);
}

/// A write stays in the ledger when it returns; only a matching record with a known effect, or the
/// user, takes it out.
pub proof fn law_returned_write_stays(
    store: StoreView,
    workspace: WorkspaceId,
    session: SessionId,
    call: CallRef,
    record: crate::record::RecordView,
)
    requires
        store.has_write(workspace, call),
        store.settles(session, record) != Some(call),
    ensures
        store.with_settled(workspace, session, record).has_write(workspace, call),
        store.with_settled(workspace, session, record).write(workspace, call) == store.write(
            workspace,
            call,
        ),
{
}

} // verus!

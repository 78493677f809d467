//! Recovery of a session whose runtime disappeared: records that the history misses are taken over
//! from the agent core, and the inputs that had entered the runtime are interrupted.

use vstd::prelude::*;

use super::core_state::copy_records;
use super::evidence::{body_pieces, lemma_bodies_frame};
use super::inputs::{all_to, lemma_changes};
use super::keys::{input_key, make_session_key, session_key};
use super::projection::source_of;
use super::{
    DataStore, Origin, SavedSession, SavedSessionView, StoreView, StoredCoreStateView,
    StoredEntryView, StoredEvent, StoredEventView,
};
use crate::api::{
    CallRef, EvidenceRef, InputId, InputState, InputView, JobRef, SessionEvent, SessionEventView,
};
use crate::error::StoreError;
use crate::ids::{RuntimeId, SessionId, WorkspaceId};
use crate::record::{record_views, Record, RecordBody, RecordBodyView, RecordView};
use crate::seqs::{lemma_filter_none, lemma_filter_step, lemma_take_all};
use crate::session::changes::{apply_to, changed, changes_of, input_changes};

verus! {

/// Whether the first origin of a number is at `index`.
pub open spec fn origin_at(origins: Seq<Origin>, number: u64, index: int) -> bool {
    &&& 0 <= index < origins.len()
    &&& origins[index].number == number
    &&& forall|i: int| 0 <= i < index ==> (#[trigger] origins[i]).number != number
}

/// The runtime that a numbered record came from.
pub open spec fn origin_of(origins: Seq<Origin>, number: u64) -> Option<RuntimeId> {
    if exists|i: int| #[trigger] origin_at(origins, number, i) {
        Some(origins[choose|i: int| #[trigger] origin_at(origins, number, i)].runtime)
    } else {
        None
    }
}

fn find_origin_of(origins: &Vec<Origin>, number: u64) -> (r: Option<RuntimeId>)
    ensures
        r == origin_of(origins@, number),
{
    let mut i: usize = 0;
    while i < origins.len()
        invariant
            i <= origins@.len(),
            forall|j: int| 0 <= j < i ==> (#[trigger] origins@[j]).number != number,
        decreases origins@.len() - i,
    {
        if origins[i].number == number {
            proof {
                assert(origin_at(origins@, number, i as int));
                let k = choose|k: int| #[trigger] origin_at(origins@, number, k);
                if k < i {
                    assert(origins@[k].number != number);
                } else if i < k {
                    assert(origins@[i as int].number != number);
                }
            }
            return Some(origins[i].runtime);
        }
        i = i + 1;
    }
    proof {
        if exists|k: int| #[trigger] origin_at(origins@, number, k) {
            let k = choose|k: int| #[trigger] origin_at(origins@, number, k);
            assert(origins@[k].number != number);
        }
    }
    None
}

fn copy_origins(origins: &Vec<Origin>) -> (r: Vec<Origin>)
    ensures
        r@ == origins@,
{
    let mut r: Vec<Origin> = Vec::new();
    let mut i: usize = 0;
    while i < origins.len()
        invariant
            i <= origins@.len(),
            r@ == origins@.take(i as int),
        decreases origins@.len() - i,
    {
        r.push(origins[i]);
        proof {
            assert(r@ =~= origins@.take(i + 1));
        }
        i = i + 1;
    }
    proof {
        lemma_take_all(origins@);
    }
    r
}

/// What taking over records has come to.
#[verifier::ext_equal]
pub ghost struct Reconciled {
    pub store: StoreView,
    pub inputs: Seq<InputView>,
    pub failed: Option<StoreError>,
}

/// The store with the job of the write that a record reports, where the call's origin is known.
pub open spec fn with_reported_job(
    store: StoreView,
    workspace: WorkspaceId,
    session: SessionId,
    record: RecordView,
) -> StoreView {
    match record.body {
        RecordBodyView::ToolFinished { call, job, .. } => match store.call_origin(session, call) {
            Some(origin) => store.with_job(
                workspace,
                origin,
                JobRef { runtime: origin.runtime, id: job },
            ),
            None => store,
        },
        _ => store,
    }
}

/// Takes over one record.
pub open spec fn reconcile_one(
    before: Reconciled,
    workspace: WorkspaceId,
    session: SessionId,
    origins: Seq<Origin>,
    record: RecordView,
    now: i64,
) -> Reconciled {
    match origin_of(origins, record.seq) {
        None => Reconciled {
            failed: Some(
                StoreError::Corrupt { message: "Core projection record has no runtime provenance" },
            ),
            ..before
        },
        Some(runtime) => {
            let changes = changes_of(runtime, record, before.inputs);
            match before.store.record_problem(session, runtime, record, changes) {
                Some(error) => Reconciled { failed: Some(error), ..before },
                None => {
                    let saved = if record.seq <= before.store.session(session).core_through {
                        before.store
                    } else {
                        before.store.with_record(session, runtime, record, changes, now)
                    };
                    Reconciled {
                        store: with_reported_job(saved, workspace, session, record),
                        inputs: changed(before.inputs, changes),
                        failed: None,
                    }
                },
            }
        },
    }
}

/// Takes over the first `count` records, of them those behind `after`, until one fails.
pub open spec fn reconcile(
    store: StoreView,
    workspace: WorkspaceId,
    session: SessionId,
    core_state: StoredCoreStateView,
    after: u64,
    inputs: Seq<InputView>,
    count: int,
    now: i64,
) -> Reconciled
    decreases count,
{
    if count <= 0 {
        Reconciled { store, inputs, failed: None }
    } else {
        let before = reconcile(
            store,
            workspace,
            session,
            core_state,
            after,
            inputs,
            count - 1,
            now,
        );
        let record = core_state.records[count - 1];
        if before.failed is Some || record.seq <= after {
            before
        } else {
            reconcile_one(before, workspace, session, core_state.record_origins, record, now)
        }
    }
}

/// Once a record has failed, no other is taken over.
proof fn lemma_reconcile_stops(
    store: StoreView,
    workspace: WorkspaceId,
    session: SessionId,
    core_state: StoredCoreStateView,
    after: u64,
    inputs: Seq<InputView>,
    count: int,
    more: int,
    now: i64,
)
    requires
        0 <= count <= more,
        reconcile(store, workspace, session, core_state, after, inputs, count, now).failed is Some,
    ensures
        reconcile(store, workspace, session, core_state, after, inputs, more, now) == reconcile(
            store,
            workspace,
            session,
            core_state,
            after,
            inputs,
            count,
            now,
        ),
    decreases more - count,
{
    if count < more {
        lemma_reconcile_stops(
            store,
            workspace,
            session,
            core_state,
            after,
            inputs,
            count,
            more - 1,
            now,
        );
    }
}

impl StoreView {
    /// The store after the records that a session's history misses were taken over from its core,
    /// with the error that stopped that.
    pub open spec fn reconciled(self, session: SessionId, now: i64) -> (StoreView, Option<StoreError>) {
        if self.cores.dom().contains(session_key(session)) {
            let saved = self.session(session);
            let core_state = self.core_of(session);
            let all = reconcile(
                self,
                saved.info.workspace,
                session,
                core_state,
                saved.core_through,
                self.listed_inputs(session),
                core_state.records.len() as int,
                now,
            );
            (all.store, all.failed)
        } else {
            (self, None)
        }
    }

    /// What recovering a session comes to: its history is brought up to date with the agent's, and
    /// a runtime that is still noted is lost, with the inputs that had entered it.
    pub open spec fn recovery(self, session: SessionId, now: i64) -> (StoreView, Option<StoreError>) {
        let (current, failed) = self.reconciled(session, now);
        if !self.has_session(session) {
            (self, Some(StoreError::Corrupt { message: "session does not exist" }))
        } else if failed is Some {
            (current, failed)
        } else {
            match self.session(session).runtime {
                None => (current, None),
                Some(runtime) => {
                    let interrupted = current.entered_inputs(session, runtime.id);
                    if current.has_all(
                        session,
                        all_to(interrupted, InputState::Interrupted { runtime: runtime.id }),
                    ) {
                        (
                            current.with_lost_runtime(session, runtime.id, interrupted, now),
                            None,
                        )
                    } else {
                        (current, Some(StoreError::Corrupt { message: "input does not exist" }))
                    }
                },
            }
        }
    }

    /// The inputs of a session that had entered a runtime and were not done.
    pub open spec fn entered_inputs(self, session: SessionId, runtime: RuntimeId) -> Seq<InputId> {
        self.listed_inputs(session).filter(
            |input: InputView| input.state.entered() == Some(runtime),
        ).map_values(|input: InputView| input.id)
    }

    /// The store after a lost runtime was closed: its inputs are interrupted.
    pub open spec fn with_lost_runtime(
        self,
        session: SessionId,
        runtime: RuntimeId,
        interrupted: Seq<InputId>,
        now: i64,
    ) -> StoreView {
        let changes = all_to(interrupted, InputState::Interrupted { runtime });
        let closed = StoredEntryView {
            occurred_at: now,
            event: StoredEventView::App(SessionEventView::RuntimeClosed { runtime }),
        };
        let entries = if interrupted.len() > 0 {
            seq![
                StoredEntryView {
                    occurred_at: now,
                    event: StoredEventView::App(
                        SessionEventView::Interrupted { runtime, inputs: interrupted },
                    ),
                },
                closed,
            ]
        } else {
            seq![closed]
        };
        let logged = self.with_changes(session, changes).with_entries(session, entries);
        StoreView {
            sessions: self.sessions.insert(
                session_key(session),
                SavedSessionView { runtime: None, agent_through: 0, ..self.session(session) },
            ),
            ..logged
        }
    }
}

pub proof fn lemma_reconcile_keeps_session(
    store: StoreView,
    workspace: WorkspaceId,
    session: SessionId,
    core_state: StoredCoreStateView,
    after: u64,
    inputs: Seq<InputView>,
    count: int,
    now: i64,
)
    requires
        store.has_session(session),
    ensures
        reconcile(
            store,
            workspace,
            session,
            core_state,
            after,
            inputs,
            count,
            now,
        ).store.has_session(session),
        reconcile(
            store,
            workspace,
            session,
            core_state,
            after,
            inputs,
            count,
            now,
        ).store.session(session).info == store.session(session).info,
        reconcile(
            store,
            workspace,
            session,
            core_state,
            after,
            inputs,
            count,
            now,
        ).store.session(session).runtime == store.session(session).runtime,
    decreases count,
{
    if count > 0 {
        lemma_reconcile_keeps_session(
            store,
            workspace,
            session,
            core_state,
            after,
            inputs,
            count - 1,
            now,
        );
    }
}

/// Changes keep every input under its own number.
pub proof fn lemma_changes_keep_numbers(
    store: StoreView,
    session: SessionId,
    changes: Seq<(InputId, InputState)>,
)
    requires
        store.has_all(session, changes),
        store.inputs_under_their_numbers(),
    ensures
        store.with_changes(session, changes).inputs_under_their_numbers(),
    decreases changes.len(),
{
    if changes.len() > 0 {
        let head = changes.drop_last();
        assert forall|i: int| 0 <= i < head.len() implies store.has_input(
            session,
            (#[trigger] head[i]).0,
        ) by {
            assert(head[i] == changes[i]);
        }
        lemma_changes(store, session, head);
        lemma_changes_keep_numbers(store, session, head);
        let mid = store.with_changes(session, head);
        let id = changes.last().0;
        assert(store.has_input(session, changes[changes.len() - 1].0));
        assert(mid.inputs.dom().contains(input_key(session, id)));
    }
}

/// Taking over records adds and removes no input, and keeps each under its own number.
pub proof fn lemma_reconcile_keeps_inputs(
    store: StoreView,
    workspace: WorkspaceId,
    session: SessionId,
    core_state: StoredCoreStateView,
    after: u64,
    inputs: Seq<InputView>,
    count: int,
    now: i64,
)
    requires
        store.inputs_under_their_numbers(),
    ensures
        reconcile(
            store,
            workspace,
            session,
            core_state,
            after,
            inputs,
            count,
            now,
        ).store.inputs.dom() == store.inputs.dom(),
        reconcile(
            store,
            workspace,
            session,
            core_state,
            after,
            inputs,
            count,
            now,
        ).store.inputs_under_their_numbers(),
    decreases count,
{
    if count > 0 {
        lemma_reconcile_keeps_inputs(
            store,
            workspace,
            session,
            core_state,
            after,
            inputs,
            count - 1,
            now,
        );
        let before = reconcile(
            store,
            workspace,
            session,
            core_state,
            after,
            inputs,
            count - 1,
            now,
        );
        let record = core_state.records[count - 1];
        if before.failed is None && record.seq > after {
            match origin_of(core_state.record_origins, record.seq) {
                Some(runtime) => {
                    let changes = changes_of(runtime, record, before.inputs);
                    if before.store.record_problem(session, runtime, record, changes) is None
                        && record.seq > before.store.session(session).core_through {
                        lemma_changes(before.store, session, changes);
                        lemma_changes_keep_numbers(before.store, session, changes);
                        let settled = before.store.with_changes(session, changes).with_settled(
                            before.store.session(session).info.workspace,
                            session,
                            record,
                        );
                        assert(settled.inputs == before.store.with_changes(
                            session,
                            changes,
                        ).inputs);
                        lemma_bodies_frame(
                            settled,
                            EvidenceRef { session, record: record.seq },
                            body_pieces(source_of(record)),
                        );
                    }
                },
                None => {},
            }
        }
    }
}

/// Whether recovering a session gives this store and this answer.
pub open spec fn recovers_session(
    before: StoreView,
    session: SessionId,
    now: i64,
    after: StoreView,
    r: Result<(SavedSession, Vec<InputView>), StoreError>,
) -> bool {
    let (recovered, failed) = before.recovery(session, now);
    &&& after == recovered
    &&& match failed {
        Some(error) => r == Err::<(SavedSession, Vec<InputView>), StoreError>(error),
        None => {
            &&& r matches Ok((saved, inputs))
            &&& saved@ == after.session(session)
            &&& inputs@ == after.listed_inputs(session)
        },
    }
}

impl DataStore {
    /// Records which job the write of a finished tool belongs to.
    fn attach_reported_job(&mut self, workspace: WorkspaceId, session: SessionId, record: &Record)
        ensures
            final(self)@ == with_reported_job(old(self)@, workspace, session, record@),
    {
        match &record.body {
            RecordBody::ToolFinished { call, job, .. } => {
                match self.core_call_origin(session, *call) {
                    Some(origin) => {
                        self.attach_write_job(
                            workspace,
                            origin,
                            JobRef { runtime: origin.runtime, id: *job },
                        );
                    },
                    None => {},
                }
            },
            _ => {},
        }
    }

    /// Takes over the records that a session's history misses from its core.
    pub(crate) fn reconcile_core_projection(&mut self, session: SessionId, now: i64) -> (r: Result<
        (),
        StoreError,
    >)
        requires
            old(self)@.has_session(session),
        ensures
            final(self)@ == old(self)@.reconciled(session, now).0,
            match r {
                Ok(_) => old(self)@.reconciled(session, now).1 is None,
                Err(error) => old(self)@.reconciled(session, now).1 == Some(error),
            },
    {
        let ghost start = self@;
        let ghost core_state = start.core_of(session);
        let key = make_session_key(session);
        let (records, origins) = match self.cores.get(&key) {
            Some(saved) => (copy_records(&saved.records), copy_origins(&saved.record_origins)),
            None => {
                return Ok(());
            },
        };
        let (workspace, after) = match self.sessions.get(&key) {
            Some(saved) => (saved.info.workspace, saved.core_through),
            None => {
                return Ok(());
            },
        };
        let mut inputs = self.inputs(session);
        let ghost listed = inputs@;
        let mut i: usize = 0;
        while i < records.len()
            invariant
                i <= records@.len(),
                start == old(self)@,
                start.has_session(session),
                start.cores.dom().contains(session_key(session)),
                core_state == start.core_of(session),
                record_views(records@) == core_state.records,
                origins@ == core_state.record_origins,
                workspace == start.session(session).info.workspace,
                after == start.session(session).core_through,
                listed == start.listed_inputs(session),
                reconcile(
                    start,
                    workspace,
                    session,
                    core_state,
                    after,
                    listed,
                    i as int,
                    now,
                ) == (Reconciled { store: self@, inputs: inputs@, failed: None }),
            decreases records@.len() - i,
        {
            let ghost before = Reconciled { store: self@, inputs: inputs@, failed: None };
            let ghost record_view = records@[i as int]@;
            proof {
                assert(core_state.records[i as int] == record_view);
                assert(core_state.records.len() == records@.len());
            }
            if records[i].seq > after {
                let runtime = match find_origin_of(&origins, records[i].seq) {
                    Some(runtime) => runtime,
                    None => {
                        proof {
                            lemma_reconcile_stops(
                                start,
                                workspace,
                                session,
                                core_state,
                                after,
                                listed,
                                i + 1,
                                core_state.records.len() as int,
                                now,
                            );
                        }
                        return Err(
                            StoreError::Corrupt {
                                message: "Core projection record has no runtime provenance",
                            },
                        );
                    },
                };
                let changes = input_changes(runtime, &records[i], &inputs);
                match self.save_agent_record(session, runtime, &records[i], &changes, now) {
                    Ok(_) => {},
                    Err(error) => {
                        proof {
                            lemma_reconcile_stops(
                                start,
                                workspace,
                                session,
                                core_state,
                                after,
                                listed,
                                i + 1,
                                core_state.records.len() as int,
                                now,
                            );
                        }
                        return Err(error);
                    },
                }
                apply_to(&mut inputs, &changes);
                self.attach_reported_job(workspace, session, &records[i]);
                proof {
                    assert(reconcile_one(
                        before,
                        workspace,
                        session,
                        core_state.record_origins,
                        record_view,
                        now,
                    ) =~= (Reconciled { store: self@, inputs: inputs@, failed: None }));
                }
            }
            i = i + 1;
        }
        Ok(())
    }

    fn entered_runtime_inputs(inputs: &Vec<InputView>, runtime: RuntimeId) -> (r: Vec<InputId>)
        ensures
            r@ == inputs@.filter(
                |input: InputView| input.state.entered() == Some(runtime),
            ).map_values(|input: InputView| input.id),
    {
        let ghost wanted = |input: InputView| input.state.entered() == Some(runtime);
        let ghost number = |input: InputView| input.id;
        let mut r: Vec<InputId> = Vec::new();
        let mut i: usize = 0;
        proof {
            lemma_filter_none(inputs@, wanted);
            assert(r@ =~= inputs@.take(0).filter(wanted).map_values(number));
        }
        while i < inputs.len()
            invariant
                i <= inputs@.len(),
                wanted == (|input: InputView| input.state.entered() == Some(runtime)),
                number == (|input: InputView| input.id),
                r@ == inputs@.take(i as int).filter(wanted).map_values(number),
            decreases inputs@.len() - i,
        {
            proof {
                lemma_filter_step(inputs@, i as int, wanted);
            }
            let entered = match inputs[i].state.entered_runtime() {
                Some(id) => id == runtime,
                None => false,
            };
            if entered {
                r.push(inputs[i].id);
            }
            proof {
                assert(r@ =~= inputs@.take(i + 1).filter(wanted).map_values(number));
            }
            i = i + 1;
        }
        proof {
            lemma_take_all(inputs@);
        }
        r
    }

    /// Closes a lost runtime of an existing session.
    fn close_lost_runtime(
        &mut self,
        session: SessionId,
        runtime: RuntimeId,
        interrupted: Vec<InputId>,
        now: i64,
    ) -> (r: Result<(), StoreError>)
        requires
            old(self)@.has_session(session),
        ensures
            if old(self)@.has_all(
                session,
                all_to(interrupted@, InputState::Interrupted { runtime }),
            ) {
                r is Ok && final(self)@ == old(self)@.with_lost_runtime(
                    session,
                    runtime,
                    interrupted@,
                    now,
                )
            } else {
                r == Err::<(), StoreError>(
                    StoreError::Corrupt { message: "input does not exist" },
                ) && final(self)@ == old(self)@
            },
    {
        let ghost start = self@;
        let changes = DataStore::changes_to(&interrupted, &InputState::Interrupted { runtime });
        if !self.can_change(session, &changes) {
            return Err(StoreError::Corrupt { message: "input does not exist" });
        }
        let key = make_session_key(session);
        let workspace = self.workspace_of(session).unwrap();
        let _ = self.apply_changes(workspace, session, &changes);
        let ghost after_changes = self@;
        proof {
            lemma_changes(start, session, changes@);
        }
        let ghost ids = interrupted@;
        let any = interrupted.len() > 0;
        if any {
            let _ = self.append(
                session,
                StoredEvent::App(SessionEvent::Interrupted { runtime, inputs: interrupted }),
                now,
            );
        }
        let ghost noted = self@;
        let _ = self.append(
            session,
            StoredEvent::App(SessionEvent::RuntimeClosed { runtime }),
            now,
        );
        let ghost logged = self@;
        let mut saved = self.sessions.take(&key).unwrap();
        saved.runtime = None;
        saved.agent_through = 0;
        let ghost updated = saved@;
        self.sessions.put(key, saved);
        proof {
            let closed = StoredEntryView {
                occurred_at: now,
                event: StoredEventView::App(SessionEventView::RuntimeClosed { runtime }),
            };
            let history = start.history(session);
            if any {
                let stopped = StoredEntryView {
                    occurred_at: now,
                    event: StoredEventView::App(
                        SessionEventView::Interrupted { runtime, inputs: ids },
                    ),
                };
                assert(noted.history(session) == history + seq![stopped]);
                assert(history + seq![stopped, closed] =~= (history + seq![stopped]) + seq![closed]);
                assert(logged.journals =~= start.journals.insert(
                    session_key(session),
                    history + seq![stopped, closed],
                ));
            } else {
                assert(logged.journals =~= start.journals.insert(
                    session_key(session),
                    history + seq![closed],
                ));
            }
            assert(self@.sessions =~= start.sessions.insert(key, updated));
            assert(self@ =~= start.with_lost_runtime(session, runtime, ids, now));
        }
        Ok(())
    }

    /// Recovers a session: its history takes over what its core has, and a runtime that
    /// disappeared with its process is closed. Inputs that had entered it are interrupted; queued
    /// ones stay.
    pub fn recover_session(&mut self, session: SessionId, now: i64) -> (r: Result<
        (SavedSession, Vec<InputView>),
        StoreError,
    >)
        ensures
            recovers_session(old(self)@, session, now, final(self)@, r),
    {
        let ghost start = self@;
        let key = make_session_key(session);
        let runtime = match self.sessions.get(&key) {
            Some(saved) => saved.runtime_id(),
            None => {
                return Err(StoreError::Corrupt { message: "session does not exist" });
            },
        };
        proof {
            if start.cores.dom().contains(session_key(session)) {
                lemma_reconcile_keeps_session(
                    start,
                    start.session(session).info.workspace,
                    session,
                    start.core_of(session),
                    start.session(session).core_through,
                    start.listed_inputs(session),
                    start.core_of(session).records.len() as int,
                    now,
                );
            }
        }
        match self.reconcile_core_projection(session, now) {
            Ok(_) => {},
            Err(error) => {
                return Err(error);
            },
        }
        match runtime {
            Some(id) => {
                let inputs = self.inputs(session);
                let interrupted = DataStore::entered_runtime_inputs(&inputs, id);
                match self.close_lost_runtime(session, id, interrupted, now) {
                    Ok(_) => {},
                    Err(error) => {
                        return Err(error);
                    },
                }
            },
            None => {},
        }
        proof {
            assert(self@.has_session(session));
            assert(self@.sessions.dom() == self.sessions@.dom());
        }
        let saved = self.sessions.get(&key).unwrap().copy();
        Ok((saved, self.inputs(session)))
    }
}

/// Recovery leaves no session with a runtime that disappeared, and no input in it: once recovered,
/// every input that had entered the runtime is interrupted.
pub proof fn law_recovery_interrupts_entered_inputs(
    store: StoreView,
    session: SessionId,
    runtime: RuntimeId,
    interrupted: Seq<InputId>,
    now: i64,
    index: int,
)
    requires
        store.has_session(session),
        store.has_all(session, all_to(interrupted, InputState::Interrupted { runtime })),
        0 <= index < interrupted.len(),
    ensures
        ({
            let after = store.with_lost_runtime(session, runtime, interrupted, now);
            &&& after.session(session).runtime is None
            &&& after.has_input(session, interrupted[index])
            &&& after.input(session, interrupted[index]).state == (InputState::Interrupted {
                runtime,
            })
        }),
{
    lemma_all_in_state(store, session, interrupted, InputState::Interrupted { runtime }, index);
    lemma_changes(store, session, all_to(interrupted, InputState::Interrupted { runtime }));
}

/// After all of some inputs were changed to a state, each of them is in it.
pub proof fn lemma_all_in_state(
    store: StoreView,
    session: SessionId,
    inputs: Seq<InputId>,
    state: InputState,
    index: int,
)
    requires
        0 <= index < inputs.len(),
        store.has_all(session, all_to(inputs, state)),
    ensures
        store.with_changes(session, all_to(inputs, state)).has_input(session, inputs[index]),
        store.with_changes(session, all_to(inputs, state)).input(session, inputs[index]).state
            == state,
    decreases inputs.len(),
{
    let changes = all_to(inputs, state);
    let head = inputs.drop_last();
    assert(changes.drop_last() =~= all_to(head, state));
    assert forall|i: int| 0 <= i < head.len() implies store.has_input(
        session,
        (#[trigger] all_to(head, state)[i]).0,
    ) by {
        assert(all_to(head, state)[i] == changes[i]);
    }
    if index < head.len() {
        lemma_all_in_state(store, session, head, state, index);
    }
}

/// Taking over a record leaves a write that has not returned in the ledger.
proof fn lemma_record_keeps_pending_write(
    before: Reconciled,
    workspace: WorkspaceId,
    session: SessionId,
    origins: Seq<Origin>,
    record: RecordView,
    now: i64,
    owner: WorkspaceId,
    call: CallRef,
)
    requires
        before.store.has_write(owner, call),
        before.store.write(owner, call).state is Pending,
        before.failed is None,
    ensures
        ({
            let after = reconcile_one(before, workspace, session, origins, record, now).store;
            after.has_write(owner, call) && after.write(owner, call).state is Pending
        }),
{
    match origin_of(origins, record.seq) {
        None => {},
        Some(runtime) => {
            let store = before.store;
            let changes = changes_of(runtime, record, before.inputs);
            if store.record_problem(session, runtime, record, changes) is None && record.seq
                > store.session(session).core_through {
                lemma_changes(store, session, changes);
                let settled = store.with_changes(session, changes).with_settled(
                    store.session(session).info.workspace,
                    session,
                    record,
                );
                assert(settled.has_write(owner, call) && settled.write(owner, call).state is Pending);
                lemma_bodies_frame(
                    settled,
                    EvidenceRef { session, record: record.seq },
                    body_pieces(source_of(record)),
                );
            }
        },
    }
}

proof fn lemma_reconcile_keeps_pending_write(
    store: StoreView,
    workspace: WorkspaceId,
    session: SessionId,
    core_state: StoredCoreStateView,
    after: u64,
    inputs: Seq<InputView>,
    count: int,
    now: i64,
    owner: WorkspaceId,
    call: CallRef,
)
    requires
        store.has_write(owner, call),
        store.write(owner, call).state is Pending,
    ensures
        ({
            let done = reconcile(
                store,
                workspace,
                session,
                core_state,
                after,
                inputs,
                count,
                now,
            ).store;
            done.has_write(owner, call) && done.write(owner, call).state is Pending
        }),
    decreases count,
{
    if count > 0 {
        lemma_reconcile_keeps_pending_write(
            store,
            workspace,
            session,
            core_state,
            after,
            inputs,
            count - 1,
            now,
            owner,
            call,
        );
        let before = reconcile(
            store,
            workspace,
            session,
            core_state,
            after,
            inputs,
            count - 1,
            now,
        );
        let record = core_state.records[count - 1];
        if before.failed is None && record.seq > after {
            lemma_record_keeps_pending_write(
                before,
                workspace,
                session,
                core_state.record_origins,
                record,
                now,
                owner,
                call,
            );
        }
    }
}

/// Recovery never guesses about a write: one that has not returned stays in the ledger as it is,
/// until the user settles it.
pub proof fn law_recovery_keeps_pending_writes(
    store: StoreView,
    session: SessionId,
    now: i64,
    workspace: WorkspaceId,
    call: CallRef,
)
    requires
        store.has_write(workspace, call),
        store.write(workspace, call).state is Pending,
    ensures
        store.recovery(session, now).0.has_write(workspace, call),
        store.recovery(session, now).0.write(workspace, call).state is Pending,
{
    let core_state = store.core_of(session);
    let saved = store.session(session);
    lemma_reconcile_keeps_pending_write(
        store,
        saved.info.workspace,
        session,
        core_state,
        saved.core_through,
        store.listed_inputs(session),
        core_state.records.len() as int,
        now,
        workspace,
        call,
    );
    let current = store.reconciled(session, now).0;
    assert(current.has_write(workspace, call) && current.write(workspace, call).state is Pending);
    if store.session(session).runtime is Some {
        let runtime = store.session(session).runtime->0;
        let interrupted = current.entered_inputs(session, runtime.id);
        let changes = all_to(interrupted, InputState::Interrupted { runtime: runtime.id });
        if current.has_all(session, changes) {
            lemma_changes(current, session, changes);
        }
    }
}

} // verus!

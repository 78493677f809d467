//! How the agent's records get into the history of a session.

use vstd::prelude::*;

use super::actor::{listed_in, LiveRuntime, SessionActor};
use super::agent::write_job;
use super::changes::{changes_of, input_changes};
use super::delivery::Live;
use crate::api::{InputId, InputState, InputView, JobRef};
use crate::document::DocumentKey;
use crate::error::{Error, StoreError};
use crate::ids::{SessionId, WorkspaceId};
use crate::persistence::evidence::lemma_bodies_frame;
use crate::persistence::keys::{input_key, make_input_key};
use crate::persistence::recovery::with_reported_job;
use crate::persistence::{DataStore, StoreView};
use crate::record::{record_views, Record, RecordView};
use crate::seqs::{lemma_filter_none, lemma_filter_step, lemma_take_all};

verus! {

/// The store, the inputs that a session holds, and how far its records are archived.
#[verifier::ext_equal]
pub ghost struct Archive {
    pub store: StoreView,
    pub inputs: Map<DocumentKey, InputView>,
    pub through: u64,
}

/// Why a record could not be archived.
pub ghost enum ArchiveFault {
    /// Nothing says which runtime it came from.
    Unknown,
    Store(StoreError),
}

/// Held inputs after changes of their states, one after the other: one that is done with is no
/// longer held, and one that is not held does not come back.
pub open spec fn live_after(
    inputs: Map<DocumentKey, InputView>,
    session: SessionId,
    changes: Seq<(InputId, InputState)>,
) -> Map<DocumentKey, InputView>
    decreases changes.len(),
{
    if changes.len() == 0 {
        inputs
    } else {
        let before = live_after(inputs, session, changes.drop_last());
        let (id, state) = changes.last();
        let key = input_key(session, id);
        if state.is_terminal() {
            before.remove(key)
        } else if before.dom().contains(key) {
            before.insert(key, InputView { state, ..before[key] })
        } else {
            before
        }
    }
}

impl Archive {
    /// After one record was archived, or why it was not.
    pub open spec fn with_record(
        self,
        workspace: WorkspaceId,
        session: SessionId,
        record: RecordView,
        now: i64,
    ) -> (Archive, Option<ArchiveFault>) {
        match self.store.record_origin(session, record.seq) {
            None => (self, Some(ArchiveFault::Unknown)),
            Some(runtime) => {
                let changes = changes_of(runtime, record, listed_in(session, self.inputs));
                match self.store.record_problem(session, runtime, record, changes) {
                    Some(error) => (self, Some(ArchiveFault::Store(error))),
                    None => {
                        let saved = if record.seq <= self.store.session(session).core_through {
                            self.store
                        } else {
                            self.store.with_record(session, runtime, record, changes, now)
                        };
                        (
                            Archive {
                                store: with_reported_job(saved, workspace, session, record),
                                inputs: live_after(self.inputs, session, changes),
                                through: record.seq,
                            },
                            None,
                        )
                    },
                }
            },
        }
    }

    /// After some records were archived, one after the other, up to the first that was not.
    pub open spec fn with_records(
        self,
        workspace: WorkspaceId,
        session: SessionId,
        records: Seq<RecordView>,
        now: i64,
    ) -> (Archive, Option<ArchiveFault>)
        decreases records.len(),
    {
        if records.len() == 0 {
            (self, None)
        } else {
            let (before, fault) = self.with_records(workspace, session, records.drop_last(), now);
            if fault is Some {
                (before, fault)
            } else {
                before.with_record(workspace, session, records.last(), now)
            }
        }
    }
}

/// Whether a failure to archive a record is reported as `shown`.
pub open spec fn reports_fault(fault: ArchiveFault, shown: Error) -> bool {
    match fault {
        ArchiveFault::Unknown => shown.is_agent("Core record has no runtime provenance"@),
        ArchiveFault::Store(error) => error.becomes(shown),
    }
}

/// Whether a record is not archived yet.
pub open spec fn comes_after(through: u64) -> spec_fn(RecordView) -> bool {
    |record: RecordView| record.seq > through
}

/// Whether taking over a record of the agent gives this session, this store and this answer.
pub open spec fn archives_record(
    actor: SessionActor,
    stored: StoreView,
    record: RecordView,
    now: i64,
    next: SessionActor,
    kept: StoreView,
    r: Result<(), Error>,
) -> bool {
    let (after, fault) = actor.archived(stored).with_record(
        actor.info.workspace,
        actor.info.id,
        record,
        now,
    );
    &&& next.runtime is Some
    &&& next.runtime->0.id == actor.runtime->0.id
    &&& next == (SessionActor {
        inputs: next.inputs,
        runtime: next.runtime,
        ..actor
    })
    &&& next.archived(kept) == after
    &&& match fault {
        Some(fault) => r matches Err(shown) && reports_fault(fault, shown),
        None => r is Ok,
    }
}

/// Whether taking over the records of the agent gives this session, this store and this answer.
pub open spec fn archives_snapshot(
    actor: SessionActor,
    stored: StoreView,
    records: Seq<RecordView>,
    now: i64,
    next: SessionActor,
    kept: StoreView,
    r: Result<(), Error>,
) -> bool {
    if actor.runtime is None {
        r is Ok && kept == stored && next == actor
    } else {
        let fresh = records.filter(
            comes_after(actor.runtime->0.agent_through),
        );
        let (after, fault) = actor.archived(stored).with_records(
            actor.info.workspace,
            actor.info.id,
            fresh,
            now,
        );
        &&& next.runtime is Some
        &&& next.runtime->0.id == actor.runtime->0.id
        &&& next == (SessionActor {
            inputs: next.inputs,
            runtime: next.runtime,
            ..actor
        })
        &&& next.archived(kept) == after
        &&& match fault {
            Some(fault) => r matches Err(shown) && reports_fault(fault, shown),
            None => r is Ok,
        }
    }
}

impl SessionActor {
    /// This session with its store, while a runtime is installed.
    pub open spec fn archived(self, store: StoreView) -> Archive {
        Archive { store, inputs: self.inputs@, through: self.runtime->0.agent_through }
    }

    /// Changes the states of held inputs.
    fn apply_changes(&mut self, changes: &Vec<(InputId, InputState)>)
        ensures
            final(self).differs_in_inputs(*old(self)),
            final(self).inputs@ == live_after(old(self).inputs@, old(self).info.id, changes@),
    {
        let ghost start = *self;
        let mut i: usize = 0;
        while i < changes.len()
            invariant
                i <= changes@.len(),
                self.differs_in_inputs(start),
                self.inputs@ == live_after(
                    start.inputs@,
                    start.info.id,
                    changes@.take(i as int),
                ),
            decreases changes@.len() - i,
        {
            proof {
                assert(changes@.take(i + 1).drop_last() =~= changes@.take(i as int));
                assert(changes@.take(i + 1).last() == changes@[i as int]);
            }
            let key = make_input_key(self.info.id, changes[i].0);
            let state = changes[i].1.clone();
            if state.terminal() {
                let _ = self.inputs.take(&key);
            } else {
                let held = match self.inputs.get(&key) {
                    Some(input) => Some(
                        InputView {
                            id: input.id,
                            request_id: input.request_id,
                            text: input.text.clone(),
                            reply_to: input.reply_to,
                            state,
                        },
                    ),
                    None => None,
                };
                match held {
                    Some(input) => {
                        self.inputs.put(key, input);
                    },
                    None => {},
                }
            }
            i = i + 1;
        }
        proof {
            lemma_take_all(changes@);
        }
    }

    /// Archives one record of the installed runtime.
    pub fn archive_record(&mut self, store: &mut DataStore, record: &Record, now: i64) -> (r: Result<
        (),
        Error,
    >)
        requires
            old(self).runtime is Some,
        ensures
            archives_record(*old(self), old(store)@, record@, now, *final(self), final(store)@, r),
    {
        let session = self.info.id;
        let runtime = match store.core_record_origin(session, record.seq) {
            Some(runtime) => runtime,
            None => {
                return Err(Error::agent("Core record has no runtime provenance"));
            },
        };
        let listed = self.list_inputs();
        let changes = input_changes(runtime, record, &listed);
        match store.save_agent_record(session, runtime, record, &changes, now) {
            Ok(_) => {},
            Err(error) => {
                return Err(error.into_error());
            },
        }
        self.apply_changes(&changes);
        match write_job(runtime, record) {
            Some((call, job)) => {
                match store.core_call_origin(session, call.id) {
                    Some(origin) => {
                        store.attach_write_job(
                            self.info.workspace,
                            origin,
                            JobRef { runtime: origin.runtime, id: job.id },
                        );
                    },
                    None => {},
                }
            },
            None => {},
        }
        match self.runtime {
            Some(current) => {
                self.runtime = Some(LiveRuntime { id: current.id, agent_through: record.seq });
            },
            None => {},
        }
        Ok(())
    }

    /// Archives what the agent has recorded since the last time. Without a runtime there is
    /// nothing to do.
    pub fn archive_snapshot(&mut self, store: &mut DataStore, records: &Vec<Record>, now: i64) -> (r:
        Result<(), Error>)
        ensures
            archives_snapshot(*old(self), old(store)@, record_views(records@), now, *final(self), final(store)@, r),
    {
        let through: u64 = match self.runtime {
            Some(runtime) => runtime.agent_through,
            None => {
                return Ok(());
            },
        };
        let ghost start = *self;
        let ghost before = self.archived(store@);
        let ghost workspace = self.info.workspace;
        let ghost session = self.info.id;
        let ghost views = record_views(records@);
        let ghost keep = comes_after(through);
        let mut i: usize = 0;
        proof {
            lemma_filter_none(views, keep);
        }
        while i < records.len()
            invariant
                i <= records@.len(),
                start == *old(self),
                start.runtime is Some,
                through == start.runtime->0.agent_through,
                before == old(self).archived(old(store)@),
                workspace == start.info.workspace,
                session == start.info.id,
                views == record_views(records@),
                keep == comes_after(through),
                self.runtime is Some,
                self.runtime->0.id == start.runtime->0.id,
                *self == (SessionActor {
                    inputs: self.inputs,
                    runtime: self.runtime,
                    ..start
                }),
                (self.archived(store@), None::<ArchiveFault>) == before.with_records(
                    workspace,
                    session,
                    views.take(i as int).filter(keep),
                    now,
                ),
            decreases records@.len() - i,
        {
            let ghost earlier = views.take(i as int).filter(keep);
            proof {
                lemma_filter_step(views, i as int, keep);
                assert(views[i as int] == records@[i as int]@);
            }
            if records[i].seq > through {
                proof {
                    let longer = views.take(i + 1).filter(keep);
                    assert(longer.drop_last() =~= earlier);
                    assert(longer.last() == records@[i as int]@);
                }
                match self.archive_record(store, &records[i], now) {
                    Ok(()) => {},
                    Err(error) => {
                        proof {
                            lemma_archiving_stops(
                                before,
                                workspace,
                                session,
                                views,
                                keep,
                                now,
                                i + 1,
                            );
                        }
                        return Err(error);
                    },
                }
            }
            i = i + 1;
        }
        proof {
            lemma_take_all(views);
        }
        Ok(())
    }
}

/// A record that was not archived ends the archiving.
proof fn lemma_archiving_stops(
    archive: Archive,
    workspace: WorkspaceId,
    session: SessionId,
    records: Seq<RecordView>,
    keep: spec_fn(RecordView) -> bool,
    now: i64,
    count: int,
)
    requires
        0 <= count <= records.len(),
        archive.with_records(workspace, session, records.take(count).filter(keep), now).1 is Some,
    ensures
        archive.with_records(workspace, session, records.filter(keep), now)
            == archive.with_records(workspace, session, records.take(count).filter(keep), now),
    decreases records.len() - count,
{
    if count == records.len() {
        lemma_take_all(records);
    } else {
        lemma_filter_step(records, count, keep);
        let shorter = records.take(count).filter(keep);
        if keep(records[count]) {
            assert(records.take(count + 1).filter(keep).drop_last() =~= shorter);
        }
        lemma_archiving_stops(archive, workspace, session, records, keep, now, count + 1);
    }
}

/// Changes of states keep the held inputs in agreement with the store.
proof fn lemma_changes_agree(
    store: StoreView,
    inputs: Map<DocumentKey, InputView>,
    session: SessionId,
    changes: Seq<(InputId, InputState)>,
)
    requires
        (Live { store, inputs }).agrees(session),
        store.has_all(session, changes),
        store.inputs_under_their_numbers(),
    ensures
        (Live {
            store: store.with_changes(session, changes),
            inputs: live_after(inputs, session, changes),
        }).agrees(session),
        store.with_changes(session, changes).inputs_under_their_numbers(),
        store.with_changes(session, changes).inputs.dom() == store.inputs.dom(),
    decreases changes.len(),
{
    if changes.len() > 0 {
        let head = changes.drop_last();
        assert forall|i: int| 0 <= i < head.len() implies store.has_input(
            session,
            (#[trigger] head[i]).0,
        ) by {
            assert(head[i] == changes[i]);
        }
        lemma_changes_agree(store, inputs, session, head);
        let middle = store.with_changes(session, head);
        let held = live_after(inputs, session, head);
        let after = store.with_changes(session, changes);
        let live = live_after(inputs, session, changes);
        let key = input_key(session, changes.last().0);
        assert(store.has_input(session, changes[changes.len() - 1].0));
        assert(middle.inputs.dom().contains(key));
        assert(after.inputs.dom() =~= store.inputs.dom());
        assert forall|other: DocumentKey| #[trigger] after.inputs.dom().contains(other) implies other
            == input_key(SessionId(other.owner), after.inputs[other].id) by {
            assert(middle.inputs.dom().contains(other));
        }
        assert forall|other: DocumentKey| #[trigger] live.dom().contains(other) implies {
            &&& other == input_key(session, live[other].id)
            &&& after.inputs.dom().contains(other)
            &&& after.inputs[other] == live[other]
            &&& !live[other].state.is_terminal()
        } by {
            assert(held.dom().contains(other));
        }
    }
}

/// Archiving the next record keeps the held inputs in agreement with the store, and the position
/// up to which the session is archived the same in both.
pub proof fn law_archiving_keeps_agreement(
    archive: Archive,
    workspace: WorkspaceId,
    session: SessionId,
    record: RecordView,
    now: i64,
)
    requires
        (Live { store: archive.store, inputs: archive.inputs }).agrees(session),
        archive.store.inputs_under_their_numbers(),
        archive.through == archive.store.session(session).core_through,
        record.seq > archive.through,
        archive.with_record(workspace, session, record, now).1 is None,
    ensures
        ({
            let after = archive.with_record(workspace, session, record, now).0;
            &&& (Live { store: after.store, inputs: after.inputs }).agrees(session)
            &&& after.store.inputs_under_their_numbers()
            &&& after.through == after.store.session(session).core_through
            &&& after.through == archive.through + 1
        }),
{
    let store = archive.store;
    let runtime = store.record_origin(session, record.seq)->0;
    let changes = changes_of(runtime, record, listed_in(session, archive.inputs));
    let saved = store.with_record(session, runtime, record, changes, now);
    let after = archive.with_record(workspace, session, record, now).0;
    lemma_changes_agree(store, archive.inputs, session, changes);
    let source = crate::api::EvidenceRef { session, record: record.seq };
    let settled = store.with_changes(session, changes).with_settled(
        store.session(session).info.workspace,
        session,
        record,
    );
    lemma_bodies_frame(
        settled,
        source,
        crate::persistence::evidence::body_pieces(crate::persistence::projection::source_of(record)),
    );
    assert(saved.inputs == store.with_changes(session, changes).inputs);
    assert(after.store.inputs == saved.inputs);
    assert(after.store.sessions == saved.sessions);
}

} // verus!

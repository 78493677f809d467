//! The durable state of a session's agent core: commits, receipts and provenance.

use vstd::prelude::*;

use super::keys::{core_key, make_core_key, make_session_key, session_key};
use super::{
    CoreSnapshot, DataStore, DurableReceipt, DurableReceiptView, Origin, StoreView,
    StoredCoreReceipt, StoredCoreReceiptView, StoredCoreState, StoredCoreStateView,
};
use crate::api::CallRef;
use crate::error::StoreError;
use crate::hashing::{sha256_hex, sha256_hex_of};
use crate::ids::{RuntimeId, SessionId};
use crate::record::{record_views, Record, RecordBody, RecordBodyView, RecordView};
use crate::text::same_text;

verus! {

/// A commit of an agent core: new records and the snapshot that covers them.
#[derive(Debug, PartialEq, Eq)]
pub struct DurableCommit {
    pub commit_id: String,
    pub expected_revision: u64,
    pub snapshot: CoreSnapshot,
    pub records: Vec<Record>,
}

/// Why a commit was not stored.
#[derive(Debug, PartialEq, Eq)]
pub enum DurableError {
    Invalid(String),
    /// The state has another revision than the commit expects.
    Conflict,
    Storage(String),
}

/// A commit error by its values.
pub ghost enum DurableErrorView {
    Invalid(Seq<char>),
    Conflict,
    Storage(Seq<char>),
}

impl View for DurableError {
    type V = DurableErrorView;

    open spec fn view(&self) -> DurableErrorView {
        match self {
            DurableError::Invalid(message) => DurableErrorView::Invalid(message@),
            DurableError::Conflict => DurableErrorView::Conflict,
            DurableError::Storage(message) => DurableErrorView::Storage(message@),
        }
    }
}

/// What an agent core resumes from.
#[derive(Debug, PartialEq, Eq)]
pub struct DurableRestore {
    pub revision: u64,
    pub snapshot: CoreSnapshot,
    pub records: Vec<Record>,
}

/// The state of an agent core that has committed nothing.
pub open spec fn fresh_core() -> StoredCoreStateView {
    StoredCoreStateView {
        revision: 0,
        snapshot: arbitrary(),
        records: Seq::empty(),
        receipts: Seq::empty(),
        call_origins: Seq::empty(),
        record_origins: Seq::empty(),
    }
}

/// The number of the last record.
pub open spec fn last_record(records: Seq<RecordView>) -> u64 {
    if records.len() == 0 {
        0
    } else {
        records.last().seq
    }
}

/// Whether a receipt for the commit is at `index`, the first one.
pub open spec fn receipt_at(
    receipts: Seq<StoredCoreReceiptView>,
    commit_id: Seq<char>,
    index: int,
) -> bool {
    &&& 0 <= index < receipts.len()
    &&& receipts[index].receipt.commit_id == commit_id
    &&& forall|i: int|
        0 <= i < index ==> (#[trigger] receipts[i]).receipt.commit_id != commit_id
}

/// Whether a commit has a receipt.
pub open spec fn has_receipt(receipts: Seq<StoredCoreReceiptView>, commit_id: Seq<char>) -> bool {
    exists|i: int| #[trigger] receipt_at(receipts, commit_id, i)
}

/// The receipt of a commit.
pub open spec fn receipt_of(
    receipts: Seq<StoredCoreReceiptView>,
    commit_id: Seq<char>,
) -> StoredCoreReceiptView {
    receipts[choose|i: int| #[trigger] receipt_at(receipts, commit_id, i)]
}

proof fn lemma_receipt(receipts: Seq<StoredCoreReceiptView>, commit_id: Seq<char>, index: int)
    requires
        receipt_at(receipts, commit_id, index),
    ensures
        has_receipt(receipts, commit_id),
        receipt_of(receipts, commit_id) == receipts[index],
{
    let other = choose|i: int| #[trigger] receipt_at(receipts, commit_id, i);
    if other < index {
        assert(receipts[other].receipt.commit_id != commit_id);
    } else if index < other {
        assert(receipts[index].receipt.commit_id != commit_id);
    }
}

/// Whether new records continue the old ones up to the snapshot without a gap.
pub open spec fn contiguous(
    records: Seq<RecordView>,
    added: Seq<RecordView>,
    through: u64,
) -> bool {
    &&& records.len() == last_record(records)
    &&& forall|i: int|
        0 <= i < added.len() ==> (#[trigger] added[i]).seq == last_record(records) + i + 1
    &&& last_record(records) + added.len() == through
}

/// Whether a record starts the given call.
pub open spec fn starts(record: RecordView, call: u64) -> bool {
    record.body == (RecordBodyView::CallStarted { call })
}

/// Whether some record starts the given call.
pub open spec fn started(records: Seq<RecordView>, call: u64) -> bool {
    exists|i: int| 0 <= i < records.len() && starts(#[trigger] records[i], call)
}

/// Whether a number has an origin.
pub open spec fn has_origin(origins: Seq<Origin>, number: u64) -> bool {
    exists|i: int| 0 <= i < origins.len() && (#[trigger] origins[i]).number == number
}

/// Whether the record at `index` starts a call that was started before.
pub open spec fn restarts(
    origins: Seq<Origin>,
    records: Seq<RecordView>,
    added: Seq<RecordView>,
    index: int,
) -> bool {
    &&& added[index].body is CallStarted
    &&& {
        let call = added[index].body->CallStarted_call;
        ||| has_origin(origins, call)
        ||| started(records, call)
        ||| started(added.take(index), call)
    }
}

/// What comes of a commit.
pub ghost enum CommitOutcome {
    /// It was stored before; this is its receipt.
    Replayed(DurableReceiptView),
    Refused(DurableErrorView),
    Stored,
}

/// What comes of a commit to a core in the given state.
pub open spec fn commit_outcome(
    core: StoredCoreStateView,
    commit_id: Seq<char>,
    expected_revision: u64,
    through: u64,
    added: Seq<RecordView>,
    digest: Seq<char>,
) -> CommitOutcome {
    if commit_id.len() == 0 {
        CommitOutcome::Refused(DurableErrorView::Invalid("empty commit identity"@))
    } else if has_receipt(core.receipts, commit_id) {
        if receipt_of(core.receipts, commit_id).digest == digest {
            CommitOutcome::Replayed(receipt_of(core.receipts, commit_id).receipt)
        } else {
            CommitOutcome::Refused(
                DurableErrorView::Invalid("commit identity reused with different content"@),
            )
        }
    } else if core.revision != expected_revision {
        CommitOutcome::Refused(DurableErrorView::Conflict)
    } else if core.revision == u64::MAX {
        CommitOutcome::Refused(DurableErrorView::Invalid("revision exhausted"@))
    } else if !contiguous(core.records, added, through) {
        CommitOutcome::Refused(DurableErrorView::Invalid("non-contiguous core records"@))
    } else if exists|i: int| 0 <= i < added.len() && #[trigger] restarts(
        core.call_origins,
        core.records,
        added,
        i,
    ) {
        CommitOutcome::Refused(DurableErrorView::Invalid("Core call identity was started twice"@))
    } else {
        CommitOutcome::Stored
    }
}

/// The origins of the calls that records start.
pub open spec fn call_origins_of(records: Seq<RecordView>, runtime: RuntimeId) -> Seq<Origin>
    decreases records.len(),
{
    if records.len() == 0 {
        Seq::empty()
    } else {
        let head = call_origins_of(records.drop_last(), runtime);
        match records.last().body {
            RecordBodyView::CallStarted { call } => head.push(Origin { number: call, runtime }),
            _ => head,
        }
    }
}

/// The origins of records.
pub open spec fn record_origins_of(records: Seq<RecordView>, runtime: RuntimeId) -> Seq<Origin> {
    records.map_values(|record: RecordView| Origin { number: record.seq, runtime })
}

/// The state of a core after a stored commit.
pub open spec fn committed(
    core: StoredCoreStateView,
    commit: DurableCommit,
    runtime: RuntimeId,
    digest: Seq<char>,
) -> StoredCoreStateView {
    let added = record_views(commit.records@);
    StoredCoreStateView {
        revision: (core.revision + 1) as u64,
        snapshot: commit.snapshot,
        records: core.records + added,
        receipts: core.receipts.push(
            StoredCoreReceiptView {
                digest,
                receipt: DurableReceiptView {
                    commit_id: commit.commit_id@,
                    revision: (core.revision + 1) as u64,
                    through: commit.snapshot.through,
                },
            },
        ),
        call_origins: core.call_origins + call_origins_of(added, runtime),
        record_origins: core.record_origins + record_origins_of(added, runtime),
    }
}

impl StoreView {
    /// The state of a session's core.
    pub open spec fn core_of(self, session: SessionId) -> StoredCoreStateView {
        if self.cores.dom().contains(session_key(session)) {
            self.cores[session_key(session)]
        } else {
            fresh_core()
        }
    }

    /// The store with the provenance of one record.
    pub open spec fn with_origin(self, session: SessionId, runtime: RuntimeId, record: RecordView) -> StoreView {
        StoreView {
            core_records: self.core_records.insert(core_key(session, record.seq), runtime),
            core_calls: match record.body {
                RecordBodyView::CallStarted { call } => self.core_calls.insert(
                    core_key(session, call),
                    runtime,
                ),
                _ => self.core_calls,
            },
            ..self
        }
    }

    /// The store with the provenance of records.
    pub open spec fn with_origins(
        self,
        session: SessionId,
        runtime: RuntimeId,
        records: Seq<RecordView>,
    ) -> StoreView
        decreases records.len(),
    {
        if records.len() == 0 {
            self
        } else {
            self.with_origins(session, runtime, records.drop_last()).with_origin(
                session,
                runtime,
                records.last(),
            )
        }
    }

    /// The store after a commit of a session's core.
    pub open spec fn with_commit(
        self,
        session: SessionId,
        runtime: RuntimeId,
        commit: DurableCommit,
        digest: Seq<char>,
    ) -> StoreView {
        let after = self.with_origins(session, runtime, record_views(commit.records@));
        StoreView {
            cores: self.cores.insert(
                session_key(session),
                committed(self.core_of(session), commit, runtime, digest),
            ),
            ..after
        }
    }
}

proof fn lemma_origins_frame(
    store: StoreView,
    session: SessionId,
    runtime: RuntimeId,
    records: Seq<RecordView>,
)
    ensures
        store.with_origins(session, runtime, records) == (StoreView {
            core_records: store.with_origins(session, runtime, records).core_records,
            core_calls: store.with_origins(session, runtime, records).core_calls,
            ..store
        }),
    decreases records.len(),
{
    if records.len() > 0 {
        lemma_origins_frame(store, session, runtime, records.drop_last());
    }
}

fn find_receipt(receipts: &Vec<StoredCoreReceipt>, commit_id: &str) -> (r: Option<usize>)
    ensures
        match r {
            Some(i) => receipt_at(super::receipt_views(receipts@), commit_id@, i as int),
            None => !has_receipt(super::receipt_views(receipts@), commit_id@),
        },
{
    let ghost views = super::receipt_views(receipts@);
    let mut i: usize = 0;
    while i < receipts.len()
        invariant
            i <= receipts@.len(),
            views == super::receipt_views(receipts@),
            forall|j: int| 0 <= j < i ==> (#[trigger] views[j]).receipt.commit_id != commit_id@,
        decreases receipts@.len() - i,
    {
        if same_text(receipts[i].receipt.commit_id.as_str(), commit_id) {
            return Some(i);
        }
        i = i + 1;
    }
    proof {
        if has_receipt(views, commit_id@) {
            let k = choose|k: int| #[trigger] receipt_at(views, commit_id@, k);
            assert(views[k].receipt.commit_id != commit_id@);
        }
    }
    None
}

fn find_origin(origins: &Vec<Origin>, number: u64) -> (r: bool)
    ensures
        r == has_origin(origins@, number),
{
    let mut i: usize = 0;
    while i < origins.len()
        invariant
            i <= origins@.len(),
            forall|j: int| 0 <= j < i ==> (#[trigger] origins@[j]).number != number,
        decreases origins@.len() - i,
    {
        if origins[i].number == number {
            return true;
        }
        i = i + 1;
    }
    false
}

fn started_call(record: &Record) -> (r: Option<u64>)
    ensures
        match r {
            Some(call) => starts(record@, call),
            None => !(record@.body is CallStarted),
        },
{
    match &record.body {
        RecordBody::CallStarted { call } => Some(*call),
        _ => None,
    }
}

fn find_started(records: &Vec<Record>, count: usize, call: u64) -> (r: bool)
    requires
        count <= records@.len(),
    ensures
        r == started(record_views(records@).take(count as int), call),
{
    let ghost views = record_views(records@).take(count as int);
    let mut i: usize = 0;
    while i < count
        invariant
            i <= count <= records@.len(),
            views == record_views(records@).take(count as int),
            forall|j: int| 0 <= j < i ==> !starts(#[trigger] views[j], call),
        decreases count - i,
    {
        match started_call(&records[i]) {
            Some(other) => {
                if other == call {
                    proof {
                        assert(starts(views[i as int], call));
                    }
                    return true;
                }
            },
            None => {},
        }
        proof {
            assert(views[i as int] == records@[i as int]@);
        }
        i = i + 1;
    }
    false
}

fn is_contiguous(records: &Vec<Record>, added: &Vec<Record>, through: u64) -> (r: bool)
    ensures
        r == contiguous(record_views(records@), record_views(added@), through),
{
    let n: usize = records.len();
    let last: u64 = if n == 0 {
        0
    } else {
        records[n - 1].seq
    };
    let ghost old_views = record_views(records@);
    let ghost views = record_views(added@);
    proof {
        assert(last == last_record(old_views));
    }
    if n as u64 != last {
        return false;
    }
    let mut i: usize = 0;
    while i < added.len()
        invariant
            i <= added@.len(),
            n == records@.len(),
            last == last_record(old_views),
            old_views == record_views(records@),
            n == last,
            views == record_views(added@),
            forall|j: int| 0 <= j < i ==> (#[trigger] views[j]).seq == last + j + 1,
            last + i <= u64::MAX,
        decreases added@.len() - i,
    {
        proof {
            assert(views[i as int].seq == added@[i as int].seq);
        }
        match (last + i as u64).checked_add(1) {
            Some(expected) => {
                if added[i].seq != expected {
                    return false;
                }
            },
            None => {
                return false;
            },
        }
        i = i + 1;
    }
    last + added.len() as u64 == through
}

fn find_restart(core: &StoredCoreState, added: &Vec<Record>) -> (r: bool)
    ensures
        r == (exists|i: int|
            0 <= i < added@.len() && #[trigger] restarts(
                core@.call_origins,
                core@.records,
                record_views(added@),
                i,
            )),
{
    let ghost views = record_views(added@);
    let mut i: usize = 0;
    while i < added.len()
        invariant
            i <= added@.len(),
            views == record_views(added@),
            forall|j: int| 0 <= j < i ==> !#[trigger] restarts(core@.call_origins, core@.records, views, j),
        decreases added@.len() - i,
    {
        proof {
            assert(views[i as int] == added@[i as int]@);
            assert(record_views(core.records@).take(core.records@.len() as int)
                =~= record_views(core.records@));
        }
        match started_call(&added[i]) {
            Some(call) => {
                if find_origin(&core.call_origins, call) || find_started(
                    &core.records,
                    core.records.len(),
                    call,
                ) || find_started(added, i, call) {
                    proof {
                        assert(restarts(core@.call_origins, core@.records, views, i as int));
                    }
                    return true;
                }
                proof {
                    assert(!restarts(core@.call_origins, core@.records, views, i as int));
                }
            },
            None => {
                proof {
                    assert(!restarts(core@.call_origins, core@.records, views, i as int));
                }
            },
        }
        i = i + 1;
    }
    false
}

/// Whether a commit of an agent core gives this store and this answer.
pub open spec fn commits_core(
    before: StoreView,
    session: SessionId,
    runtime: RuntimeId,
    commit: DurableCommit,
    digest: Seq<char>,
    after: StoreView,
    r: Result<DurableReceipt, DurableError>,
) -> bool {
    match commit_outcome(
        before.core_of(session),
        commit.commit_id@,
        commit.expected_revision,
        commit.snapshot.through,
        record_views(commit.records@),
        digest,
    ) {
        CommitOutcome::Replayed(receipt) => {
            &&& r matches Ok(given)
            &&& given@ == receipt
            &&& after == before
        },
        CommitOutcome::Refused(error) => {
            &&& r matches Err(given)
            &&& given@ == error
            &&& after == before
        },
        CommitOutcome::Stored => {
            &&& r matches Ok(receipt)
            &&& receipt@ == (DurableReceiptView {
                commit_id: commit.commit_id@,
                revision: (before.core_of(session).revision + 1) as u64,
                through: commit.snapshot.through,
            })
            &&& after == before.with_commit(
                session,
                runtime,
                commit,
                digest,
            )
        },
    }
}

/// Whether this is the answer to a commit that could not be written.
pub open spec fn answers_failed_commit(
    store: StoreView,
    session: SessionId,
    commit: DurableCommit,
    digest: Seq<char>,
    failure: String,
    r: Result<DurableReceipt, DurableError>,
) -> bool {
    match commit_outcome(
        store.core_of(session),
        commit.commit_id@,
        commit.expected_revision,
        commit.snapshot.through,
        record_views(commit.records@),
        digest,
    ) {
        CommitOutcome::Replayed(receipt) => r matches Ok(given) && given@ == receipt,
        CommitOutcome::Refused(error) => r matches Err(given) && given@ == error,
        CommitOutcome::Stored => r == Err::<DurableReceipt, DurableError>(
            DurableError::Storage(failure),
        ),
    }
}

/// Whether this is what an agent core is restored from.
pub open spec fn restores_core(
    store: StoreView,
    session: SessionId,
    r: Option<DurableRestore>,
) -> bool {
    match r {
        Some(restore) => {
            &&& store.cores.dom().contains(session_key(session))
            &&& restore.revision == store.core_of(session).revision
            &&& restore.snapshot == store.core_of(session).snapshot
            &&& record_views(restore.records@) == store.core_of(session).records
        },
        None => !store.cores.dom().contains(session_key(session)),
    }
}

impl DataStore {
    /// Records which runtime each of some records came from.
    fn save_origins(&mut self, session: SessionId, runtime: RuntimeId, records: &Vec<Record>)
        ensures
            final(self)@ == old(self)@.with_origins(session, runtime, record_views(records@)),
    {
        let ghost start = self@;
        let ghost views = record_views(records@);
        let mut i: usize = 0;
        proof {
            assert(views.take(0) =~= Seq::<RecordView>::empty());
        }
        while i < records.len()
            invariant
                i <= records@.len(),
                views == record_views(records@),
                self@ == start.with_origins(session, runtime, views.take(i as int)),
            decreases records@.len() - i,
        {
            let ghost before = self@;
            match started_call(&records[i]) {
                Some(call) => {
                    self.core_calls.put(make_core_key(session, call), runtime);
                },
                None => {},
            }
            self.core_records.put(make_core_key(session, records[i].seq), runtime);
            proof {
                assert(views[i as int] == records@[i as int]@);
                assert(views.take(i + 1).drop_last() =~= views.take(i as int));
                assert(self@ =~= before.with_origin(session, runtime, views[i as int]));
            }
            i = i + 1;
        }
        proof {
            assert(views.take(i as int) =~= views);
        }
    }

    /// Stores a commit of a session's core, once: a repeated commit gets its first receipt. What
    /// is refused changes nothing. `encoded` is the encoding of the runtime and the commit, whose
    /// digest tells a repeated commit from another one under the same identity.
    pub fn commit_core_in_runtime(
        &mut self,
        session: SessionId,
        runtime: RuntimeId,
        commit: &DurableCommit,
        encoded: &[u8],
    ) -> (r: Result<DurableReceipt, DurableError>)
        ensures
            commits_core(old(self)@, session, runtime, *commit, sha256_hex_of(encoded@), final(self)@, r),
    {
        let ghost start = self@;
        if commit.commit_id.as_str().is_empty() {
            return Err(DurableError::Invalid("empty commit identity".to_owned()));
        }
        let digest = sha256_hex(encoded);
        let key = make_session_key(session);
        let ghost cores = self.cores@;
        let taken = self.cores.take(&key);
        let existed = taken.is_some();
        let mut core = match taken {
            Some(core) => core,
            None => StoredCoreState {
                revision: 0,
                snapshot: commit.snapshot.clone(),
                records: Vec::new(),
                receipts: Vec::new(),
                call_origins: Vec::new(),
                record_origins: Vec::new(),
            },
        };
        let ghost current = core@;
        proof {
            assert(current.records =~= start.core_of(session).records);
            assert(current.receipts =~= start.core_of(session).receipts);
            assert(current.call_origins =~= start.core_of(session).call_origins);
            assert(current.record_origins =~= start.core_of(session).record_origins);
            assert(current.revision == start.core_of(session).revision);
        }
        let verdict = check_commit(&core, commit, &digest);
        match verdict {
            CommitVerdict::Replay(receipt) => {
                self.restore_core(key, existed, core);
                proof {
                    assert(self@ =~= start);
                }
                return Ok(receipt);
            },
            CommitVerdict::Refuse(error) => {
                self.restore_core(key, existed, core);
                proof {
                    assert(self@ =~= start);
                }
                return Err(error);
            },
            CommitVerdict::Store => {},
        }
        let receipt = DurableReceipt {
            commit_id: commit.commit_id.clone(),
            revision: core.revision + 1,
            through: commit.snapshot.through,
        };
        let ghost added = record_views(commit.records@);
        extend_core(&mut core, runtime, commit, digest, receipt.clone());
        let ghost stored = core@;
        self.cores.put(key, core);
        let ghost with_core = self@;
        proof {
            assert(stored =~= committed(start.core_of(session), *commit, runtime, digest@));
            assert(with_core.cores =~= start.cores.insert(key, stored));
            assert(with_core =~= (StoreView { cores: start.cores.insert(key, stored), ..start }));
        }
        self.save_origins(session, runtime, &commit.records);
        proof {
            lemma_origins_independent(start, with_core, session, runtime, added);
            lemma_origins_frame(start, session, runtime, added);
            lemma_origins_frame(with_core, session, runtime, added);
            assert(self@ =~= start.with_commit(session, runtime, *commit, digest@));
        }
        Ok(receipt)
    }

    fn restore_core(
        &mut self,
        key: crate::document::DocumentKey,
        existed: bool,
        core: StoredCoreState,
    )
        ensures
            final(self)@ == (if existed {
                StoreView { cores: old(self)@.cores.insert(key, core@), ..old(self)@ }
            } else {
                old(self)@
            }),
    {
        if existed {
            self.cores.put(key, core);
            proof {
                assert(self@.cores =~= old(self)@.cores.insert(key, core@));
            }
        }
    }

    /// What a commit comes to whose transaction failed while it was written: all that it wrote is
    /// rolled back. What would have been refused or replayed still is; else the failure is
    /// reported.
    pub fn commit_core_failed(
        &self,
        session: SessionId,
        commit: &DurableCommit,
        encoded: &[u8],
        failure: String,
    ) -> (r: Result<DurableReceipt, DurableError>)
        ensures
            answers_failed_commit(self@, session, *commit, sha256_hex_of(encoded@), failure, r),
    {
        if commit.commit_id.as_str().is_empty() {
            return Err(DurableError::Invalid("empty commit identity".to_owned()));
        }
        let digest = sha256_hex(encoded);
        let saved = self.cores.get(&make_session_key(session));
        let verdict = match saved {
            Some(core) => check_commit(core, commit, &digest),
            None => {
                let core = StoredCoreState {
                    revision: 0,
                    snapshot: commit.snapshot.clone(),
                    records: Vec::new(),
                    receipts: Vec::new(),
                    call_origins: Vec::new(),
                    record_origins: Vec::new(),
                };
                proof {
                    assert(core@.records =~= self@.core_of(session).records);
                    assert(core@.receipts =~= self@.core_of(session).receipts);
                    assert(core@.call_origins =~= self@.core_of(session).call_origins);
                }
                check_commit(&core, commit, &digest)
            },
        };
        match verdict {
            CommitVerdict::Replay(receipt) => Ok(receipt),
            CommitVerdict::Refuse(error) => Err(error),
            CommitVerdict::Store => settle_uncertain_commit(
                saved,
                commit.commit_id.as_str(),
                digest.as_str(),
                failure,
            ),
        }
    }

    /// Stores a commit that no runtime registered.
    pub fn commit_core(&mut self, session: SessionId, commit: &DurableCommit, encoded: &[u8]) -> (r: Result<
        DurableReceipt,
        DurableError,
    >)
        ensures
            commits_core(
                old(self)@,
                session,
                RuntimeId(0),
                *commit,
                sha256_hex_of(encoded@),
                final(self)@,
                r,
            ),
    {
        self.commit_core_in_runtime(session, RuntimeId(0), commit, encoded)
    }

    /// What a session's core resumes from.
    pub fn load_core_restore(&self, session: SessionId) -> (r: Option<DurableRestore>)
        ensures
            restores_core(self@, session, r),
    {
        match self.cores.get(&make_session_key(session)) {
            Some(core) => Some(
                DurableRestore {
                    revision: core.revision,
                    snapshot: core.snapshot.clone(),
                    records: copy_records(&core.records),
                },
            ),
            None => None,
        }
    }

    /// The last record that the session's history holds.
    pub fn core_projection_through(&self, session: SessionId) -> (r: Result<u64, StoreError>)
        ensures
            r == (if self@.has_session(session) {
                Ok(self@.session(session).core_through)
            } else {
                Err(StoreError::Corrupt { message: "session does not exist" })
            }),
    {
        match self.sessions.get(&make_session_key(session)) {
            Some(saved) => Ok(saved.core_through),
            None => Err(StoreError::Corrupt { message: "session does not exist" }),
        }
    }

    /// The runtime that a record came from.
    pub fn core_record_origin(&self, session: SessionId, seq: u64) -> (r: Option<RuntimeId>)
        ensures
            r == self@.record_origin(session, seq),
    {
        match self.core_records.get(&make_core_key(session, seq)) {
            Some(runtime) => Some(*runtime),
            None => None,
        }
    }

    /// The call with the runtime that started it; only that addresses the write ledger.
    pub fn core_call_origin(&self, session: SessionId, call: u64) -> (r: Option<CallRef>)
        ensures
            r == self@.call_origin(session, call),
    {
        match self.core_calls.get(&make_core_key(session, call)) {
            Some(runtime) => Some(CallRef { runtime: *runtime, id: call }),
            None => None,
        }
    }
}

impl StoreView {
    /// The runtime that a record came from.
    pub open spec fn record_origin(self, session: SessionId, seq: u64) -> Option<RuntimeId> {
        if self.core_records.dom().contains(core_key(session, seq)) {
            Some(self.core_records[core_key(session, seq)])
        } else {
            None
        }
    }

    /// The call with the runtime that started it.
    pub open spec fn call_origin(self, session: SessionId, call: u64) -> Option<CallRef> {
        if self.core_calls.dom().contains(core_key(session, call)) {
            Some(CallRef { runtime: self.core_calls[core_key(session, call)], id: call })
        } else {
            None
        }
    }
}

/// The verdict on a commit.
enum CommitVerdict {
    Replay(DurableReceipt),
    Refuse(DurableError),
    Store,
}

fn check_commit(core: &StoredCoreState, commit: &DurableCommit, digest: &String) -> (r: CommitVerdict)
    requires
        commit.commit_id@.len() > 0,
    ensures
        match commit_outcome(
            core@,
            commit.commit_id@,
            commit.expected_revision,
            commit.snapshot.through,
            record_views(commit.records@),
            digest@,
        ) {
            CommitOutcome::Replayed(receipt) => r matches CommitVerdict::Replay(given) && given@
                == receipt,
            CommitOutcome::Refused(error) => r matches CommitVerdict::Refuse(given) && given@
                == error,
            CommitOutcome::Stored => r is Store,
        },
{
    match find_receipt(&core.receipts, commit.commit_id.as_str()) {
        Some(i) => {
            proof {
                lemma_receipt(core@.receipts, commit.commit_id@, i as int);
            }
            let prior = &core.receipts[i];
            return if same_text(prior.digest.as_str(), digest.as_str()) {
                CommitVerdict::Replay(prior.receipt.clone())
            } else {
                CommitVerdict::Refuse(
                    DurableError::Invalid(
                        "commit identity reused with different content".to_owned(),
                    ),
                )
            };
        },
        None => {},
    }
    if core.revision != commit.expected_revision {
        return CommitVerdict::Refuse(DurableError::Conflict);
    }
    if core.revision == u64::MAX {
        return CommitVerdict::Refuse(DurableError::Invalid("revision exhausted".to_owned()));
    }
    if !is_contiguous(&core.records, &commit.records, commit.snapshot.through) {
        return CommitVerdict::Refuse(
            DurableError::Invalid("non-contiguous core records".to_owned()),
        );
    }
    if find_restart(core, &commit.records) {
        return CommitVerdict::Refuse(
            DurableError::Invalid("Core call identity was started twice".to_owned()),
        );
    }
    CommitVerdict::Store
}

fn extend_core(
    core: &mut StoredCoreState,
    runtime: RuntimeId,
    commit: &DurableCommit,
    digest: String,
    receipt: DurableReceipt,
)
    requires
        old(core).revision < u64::MAX,
        receipt@ == (DurableReceiptView {
            commit_id: commit.commit_id@,
            revision: (old(core).revision + 1) as u64,
            through: commit.snapshot.through,
        }),
    ensures
        final(core)@ == committed(old(core)@, *commit, runtime, digest@),
{
    let ghost start = core@;
    let ghost added = record_views(commit.records@);
    core.revision = core.revision + 1;
    core.snapshot = commit.snapshot.clone();
    let entry = StoredCoreReceipt { digest, receipt };
    let ghost entry_view = entry@;
    core.receipts.push(entry);
    proof {
        assert(core@.receipts =~= start.receipts.push(entry_view));
        assert(added.take(0) =~= Seq::<RecordView>::empty());
        assert(start.records + added.take(0) =~= start.records);
        assert(start.call_origins + call_origins_of(added.take(0), runtime) =~= start.call_origins);
        assert(start.record_origins + record_origins_of(added.take(0), runtime)
            =~= start.record_origins);
    }
    let mut i: usize = 0;
    while i < commit.records.len()
        invariant
            i <= commit.records@.len(),
            added == record_views(commit.records@),
            core.revision == start.revision + 1,
            core.snapshot == commit.snapshot,
            core@.receipts == start.receipts.push(entry_view),
            core@.records == start.records + added.take(i as int),
            core@.call_origins == start.call_origins + call_origins_of(
                added.take(i as int),
                runtime,
            ),
            core@.record_origins == start.record_origins + record_origins_of(
                added.take(i as int),
                runtime,
            ),
        decreases commit.records@.len() - i,
    {
        let ghost before = core@;
        let record = commit.records[i].copy();
        proof {
            assert(added[i as int] == commit.records@[i as int]@);
            assert(added.take(i + 1).drop_last() =~= added.take(i as int));
            assert(added.take(i + 1).last() == added[i as int]);
        }
        match started_call(&record) {
            Some(call) => {
                core.call_origins.push(Origin { number: call, runtime });
            },
            None => {},
        }
        core.record_origins.push(Origin { number: record.seq, runtime });
        let ghost earlier = core.records@;
        let ghost copied = record@;
        core.records.push(record);
        proof {
            assert(core.records@.drop_last() =~= earlier);
            assert(core@.records =~= before.records.push(copied));
            assert(core@.records =~= start.records + added.take(i + 1));
            assert(core@.record_origins =~= start.record_origins + record_origins_of(
                added.take(i + 1),
                runtime,
            ));
            assert(core@.call_origins =~= start.call_origins + call_origins_of(
                added.take(i + 1),
                runtime,
            ));
            assert(core@.receipts == before.receipts);
        }
        i = i + 1;
    }
    proof {
        assert(added.take(i as int) =~= added);
        assert(core@ =~= committed(start, *commit, runtime, digest@));
    }
}

proof fn lemma_origins_independent(
    a: StoreView,
    b: StoreView,
    session: SessionId,
    runtime: RuntimeId,
    records: Seq<RecordView>,
)
    requires
        a.core_records == b.core_records,
        a.core_calls == b.core_calls,
    ensures
        a.with_origins(session, runtime, records).core_records == b.with_origins(
            session,
            runtime,
            records,
        ).core_records,
        a.with_origins(session, runtime, records).core_calls == b.with_origins(
            session,
            runtime,
            records,
        ).core_calls,
    decreases records.len(),
{
    if records.len() > 0 {
        lemma_origins_independent(a, b, session, runtime, records.drop_last());
    }
}

/// A copy of some records.
pub fn copy_records(records: &Vec<Record>) -> (r: Vec<Record>)
    ensures
        record_views(r@) == record_views(records@),
{
    let mut r: Vec<Record> = Vec::new();
    let mut i: usize = 0;
    while i < records.len()
        invariant
            i <= records@.len(),
            r@.len() == i,
            forall|j: int| #![trigger r@[j]] 0 <= j < i ==> r@[j]@ == records@[j]@,
        decreases records@.len() - i,
    {
        r.push(records[i].copy());
        i = i + 1;
    }
    proof {
        assert(record_views(r@) =~= record_views(records@));
    }
    r
}

/// What is known of a commit whose acknowledgement was lost, once the state was read again: its
/// receipt where it was stored, the failure where it was not.
pub fn settle_uncertain_commit(
    saved: Option<&StoredCoreState>,
    commit_id: &str,
    digest: &str,
    failure: String,
) -> (r: Result<DurableReceipt, DurableError>)
    ensures
        ({
            let receipts = match saved {
                Some(core) => core@.receipts,
                None => Seq::empty(),
            };
            if !has_receipt(receipts, commit_id@) {
                r == Err::<DurableReceipt, DurableError>(DurableError::Storage(failure))
            } else if receipt_of(receipts, commit_id@).digest == digest@ {
                r matches Ok(receipt) && receipt@ == receipt_of(receipts, commit_id@).receipt
            } else {
                r matches Err(DurableError::Invalid(message)) && message@
                    == "commit identity reused with different content"@
            }
        }),
{
    match saved {
        Some(core) => {
            match find_receipt(&core.receipts, commit_id) {
                Some(i) => {
                    proof {
                        lemma_receipt(core@.receipts, commit_id@, i as int);
                    }
                    if same_text(core.receipts[i].digest.as_str(), digest) {
                        Ok(core.receipts[i].receipt.clone())
                    } else {
                        Err(
                            DurableError::Invalid(
                                "commit identity reused with different content".to_owned(),
                            ),
                        )
                    }
                },
                None => Err(DurableError::Storage(failure)),
            }
        },
        None => {
            proof {
                if has_receipt(Seq::empty(), commit_id@) {
                    let k = choose|k: int| #[trigger]
                        receipt_at(Seq::empty(), commit_id@, k);
                }
            }
            Err(DurableError::Storage(failure))
        },
    }
}

/// A commit that was stored is replayed when it comes again with the same content, whatever else
/// its revision says: it gets the same receipt.
pub proof fn law_stored_commit_is_replayed(
    core: StoredCoreStateView,
    commit: DurableCommit,
    again: DurableCommit,
    runtime: RuntimeId,
    digest: Seq<char>,
)
    requires
        commit_outcome(
            core,
            commit.commit_id@,
            commit.expected_revision,
            commit.snapshot.through,
            record_views(commit.records@),
            digest,
        ) == CommitOutcome::Stored,
        again.commit_id@ == commit.commit_id@,
    ensures
        commit_outcome(
            committed(core, commit, runtime, digest),
            again.commit_id@,
            again.expected_revision,
            again.snapshot.through,
            record_views(again.records@),
            digest,
        ) == CommitOutcome::Replayed(
            DurableReceiptView {
                commit_id: commit.commit_id@,
                revision: (core.revision + 1) as u64,
                through: commit.snapshot.through,
            },
        ),
{
    let after = committed(core, commit, runtime, digest);
    let n = core.receipts.len() as int;
    assert forall|i: int| 0 <= i < n implies (
    #[trigger] after.receipts[i]).receipt.commit_id != commit.commit_id@ by {
        if core.receipts[i].receipt.commit_id == commit.commit_id@ {
            lemma_first_receipt(core.receipts, commit.commit_id@, i);
        }
    }
    assert(receipt_at(after.receipts, commit.commit_id@, n));
    lemma_receipt(after.receipts, commit.commit_id@, n);
}

proof fn lemma_first_receipt(receipts: Seq<StoredCoreReceiptView>, commit_id: Seq<char>, index: int)
    requires
        0 <= index < receipts.len(),
        receipts[index].receipt.commit_id == commit_id,
    ensures
        has_receipt(receipts, commit_id),
    decreases index,
{
    if forall|i: int| 0 <= i < index ==> (#[trigger] receipts[i]).receipt.commit_id != commit_id {
        assert(receipt_at(receipts, commit_id, index));
    } else {
        let i = choose|i: int|
            0 <= i < index && (#[trigger] receipts[i]).receipt.commit_id == commit_id;
        lemma_first_receipt(receipts, commit_id, i);
    }
}

/// The same identity with other content is refused, and nothing that was stored is lost.
pub proof fn law_reused_commit_identity_is_refused(
    core: StoredCoreStateView,
    commit: DurableCommit,
    other: DurableCommit,
    runtime: RuntimeId,
    digest: Seq<char>,
    other_digest: Seq<char>,
)
    requires
        commit_outcome(
            core,
            commit.commit_id@,
            commit.expected_revision,
            commit.snapshot.through,
            record_views(commit.records@),
            digest,
        ) == CommitOutcome::Stored,
        other.commit_id@ == commit.commit_id@,
        other_digest != digest,
    ensures
        commit_outcome(
            committed(core, commit, runtime, digest),
            other.commit_id@,
            other.expected_revision,
            other.snapshot.through,
            record_views(other.records@),
            other_digest,
        ) == CommitOutcome::Refused(
            DurableErrorView::Invalid("commit identity reused with different content"@),
        ),
{
    law_stored_commit_is_replayed(core, commit, commit, runtime, digest);
}

/// Stored records are numbered from one without a gap.
pub open spec fn numbered(records: Seq<RecordView>) -> bool {
    forall|i: int| 0 <= i < records.len() ==> (#[trigger] records[i]).seq == i + 1
}

/// Every stored commit keeps the records numbered from one without a gap, and keeps all earlier
/// records.
pub proof fn law_commits_keep_records_numbered(
    core: StoredCoreStateView,
    commit: DurableCommit,
    runtime: RuntimeId,
    digest: Seq<char>,
)
    requires
        numbered(core.records),
        commit_outcome(
            core,
            commit.commit_id@,
            commit.expected_revision,
            commit.snapshot.through,
            record_views(commit.records@),
            digest,
        ) == CommitOutcome::Stored,
    ensures
        numbered(committed(core, commit, runtime, digest).records),
        committed(core, commit, runtime, digest).records.take(core.records.len() as int)
            == core.records,
        last_record(committed(core, commit, runtime, digest).records) == commit.snapshot.through,
{
    let after = committed(core, commit, runtime, digest).records;
    let added = record_views(commit.records@);
    assert forall|i: int| 0 <= i < after.len() implies (#[trigger] after[i]).seq == i + 1 by {
        if i >= core.records.len() {
            assert(added[i - core.records.len()].seq == last_record(core.records) + (i
                - core.records.len()) + 1);
        }
    }
    assert(after.take(core.records.len() as int) =~= core.records);
    if added.len() > 0 {
        assert(after.last() == added.last());
        assert(added[added.len() - 1].seq == last_record(core.records) + added.len());
    } else {
        assert(after =~= core.records);
    }
}

} // verus!

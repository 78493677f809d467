//! The sessions of one workspace: their listing, their one writer each, and their journals.

use vstd::prelude::*;

use super::error::{JournalError, RecordError, SessionLeaseError, SessionStoreError};
use super::journal::{
    is_invalid, JournalEntry, JournalFact, JournalSequence, JOURNAL_FORMAT_VERSION,
};
use super::session::{
    new_session_problem, prepare_problem, prepare_replace, updated, SessionDraft, SessionMetadata,
    SessionRecord, SessionRecordView, SessionStatus,
};
use super::time::UnixMillis;
use super::workspace::WorkspaceContext;
use crate::config::ModelSelection;
use crate::document::{DocumentKey, Table};
use crate::ids::{hyphenated, parsed_uuid, SessionId, WorkspaceId};
use crate::persistence::keys::{make_session_key, session_key};
use crate::text::{from_chars, has_prefix, starts_with, to_chars};

verus! {

/// How many fresh identities are tried for a new session.
pub const CREATE_RETRY_LIMIT: usize = 8;

/// One row of the storage that is listed for a workspace.
#[derive(Debug, PartialEq, Eq)]
pub struct ListedDocument {
    pub key: String,
    pub snapshot: Result<Option<SessionRecord>, String>,
}

/// A row by its values.
pub ghost struct ListedDocumentView {
    pub key: Seq<char>,
    pub snapshot: Result<Option<SessionRecordView>, Seq<char>>,
}

impl View for ListedDocument {
    type V = ListedDocumentView;

    open spec fn view(&self) -> ListedDocumentView {
        ListedDocumentView {
            key: self.key@,
            snapshot: match self.snapshot {
                Ok(Some(record)) => Ok(Some(record@)),
                Ok(None) => Ok(None),
                Err(error) => Err(error@),
            },
        }
    }
}

/// A problem with one row of a listing.
#[derive(Debug, PartialEq, Eq)]
pub struct SessionStoreIssue {
    pub session_id: Option<SessionId>,
    pub message: String,
}

/// The sessions of a workspace, and the rows that could not be used.
#[derive(Debug, PartialEq, Eq)]
pub struct SessionListing {
    pub records: Vec<SessionRecord>,
    pub issues: Vec<SessionStoreIssue>,
}

/// Records by their values.
pub open spec fn record_views(records: Seq<SessionRecord>) -> Seq<SessionRecordView> {
    records.map_values(|record: SessionRecord| record@)
}

/// Issues by their values.
pub open spec fn issue_views(issues: Seq<SessionStoreIssue>) -> Seq<
    (Option<SessionId>, Seq<char>),
> {
    issues.map_values(|issue: SessionStoreIssue| (issue.session_id, issue.message@))
}

/// What every key of a workspace's sessions starts with.
pub open spec fn session_prefix(workspace: WorkspaceId) -> Seq<char> {
    "workspace/"@ + hyphenated(workspace.0) + "/session/"@
}

/// What every key of a workspace's sessions starts with.
pub fn make_session_prefix(workspace: WorkspaceId) -> (r: String)
    ensures
        r@ == session_prefix(workspace),
{
    let mut r = "workspace/".to_owned();
    r.push_str(workspace.text().as_str());
    r.push_str("/session/");
    r
}

/// Whether a session is among records.
pub open spec fn holds_record(records: Seq<SessionRecordView>, id: SessionId) -> bool {
    exists|i: int| 0 <= i < records.len() && (#[trigger] records[i]).id == id
}

/// What a row comes to.
pub ghost enum Row {
    Record(SessionRecordView),
    Issue(Option<SessionId>, Seq<char>),
}

/// What a row comes to behind the records that were accepted before it.
pub open spec fn row(
    workspace: WorkspaceContext,
    accepted: Seq<SessionRecordView>,
    entry: ListedDocumentView,
) -> Row {
    let prefix = session_prefix(workspace.id);
    if !has_prefix(entry.key, prefix) {
        Row::Issue(None, "session document key is outside the requested workspace prefix"@)
    } else {
        match parsed_uuid(entry.key.skip(prefix.len() as int)) {
            None => Row::Issue(None, "session document key suffix is not a UUID"@),
            Some(value) => {
                let key_id = SessionId(value);
                match entry.snapshot {
                    Err(error) => Row::Issue(Some(key_id), error),
                    Ok(None) => Row::Issue(
                        Some(key_id),
                        "listed session document is unexpectedly missing"@,
                    ),
                    Ok(Some(record)) => match workspace.unusable(key_id, record) {
                        Some(error) => Row::Issue(Some(key_id), error.text()),
                        None => if holds_record(accepted, record.id) {
                            Row::Issue(
                                Some(key_id),
                                SessionStoreError::DuplicateSessionId(record.id).text(),
                            )
                        } else {
                            Row::Record(record)
                        },
                    },
                }
            },
        }
    }
}

/// The records and issues of rows, in the rows' order.
pub open spec fn listed(workspace: WorkspaceContext, entries: Seq<ListedDocumentView>) -> (
    Seq<SessionRecordView>,
    Seq<(Option<SessionId>, Seq<char>)>,
)
    decreases entries.len(),
{
    if entries.len() == 0 {
        (Seq::empty(), Seq::empty())
    } else {
        let (accepted, issues) = listed(workspace, entries.drop_last());
        match row(workspace, accepted, entries.last()) {
            Row::Record(record) => (accepted.push(record), issues),
            Row::Issue(id, message) => (accepted, issues.push((id, message))),
        }
    }
}

/// Whether a record stands before another in a listing: opened later, then updated later, then of
/// the greater identity.
pub open spec fn newer(a: SessionRecordView, b: SessionRecordView) -> bool {
    let (opened, other_opened) = (
        a.metadata.last_opened_at.milliseconds,
        b.metadata.last_opened_at.milliseconds,
    );
    let (changed, other_changed) = (
        a.metadata.updated_at.milliseconds,
        b.metadata.updated_at.milliseconds,
    );
    ||| opened > other_opened
    ||| opened == other_opened && changed > other_changed
    ||| opened == other_opened && changed == other_changed && a.id.0 > b.id.0
}

fn is_newer(a: &SessionRecord, b: &SessionRecord) -> (r: bool)
    ensures
        r == newer(a@, b@),
{
    let opened: i64 = a.metadata.last_opened_at.as_millis();
    let other_opened: i64 = b.metadata.last_opened_at.as_millis();
    let changed: i64 = a.metadata.updated_at.as_millis();
    let other_changed: i64 = b.metadata.updated_at.as_millis();
    opened > other_opened || opened == other_opened && (changed > other_changed || changed
        == other_changed && a.id.0 > b.id.0)
}

/// Whether records are in the order of a listing.
pub open spec fn newest_first(records: Seq<SessionRecordView>) -> bool {
    forall|i: int, j: int|
        0 <= i < j < records.len() ==> !newer(#[trigger] records[j], #[trigger] records[i])
}

/// Whether `listing` holds the records and issues of rows: the records with the newest first.
pub open spec fn lists(
    listing: SessionListing,
    workspace: WorkspaceContext,
    entries: Seq<ListedDocumentView>,
) -> bool {
    let (accepted, issues) = listed(workspace, entries);
    let records = record_views(listing.records@);
    &&& records.to_multiset() == accepted.to_multiset()
    &&& newest_first(records)
    &&& issue_views(listing.issues@) == issues
}

/// Puts a record in its place.
fn insert_newest(records: &mut Vec<SessionRecord>, record: SessionRecord)
    requires
        newest_first(record_views(old(records)@)),
    ensures
        newest_first(record_views(final(records)@)),
        record_views(final(records)@).to_multiset() == record_views(
            old(records)@,
        ).to_multiset().insert(record@),
        forall|id: SessionId| #[trigger]
            holds_record(record_views(final(records)@), id) == (holds_record(
                record_views(old(records)@),
                id,
            ) || record.id == id),
{
    let ghost views = record_views(records@);
    let ghost value = record@;
    let mut at: usize = records.len();
    while at > 0 && is_newer(&record, &records[at - 1])
        invariant
            at <= records@.len(),
            views == record_views(records@),
            value == record@,
            forall|i: int| at <= i < views.len() ==> newer(value, #[trigger] views[i]),
        decreases at,
    {
        at = at - 1;
        proof {
            assert(views[at as int] == records@[at as int]@);
        }
    }
    proof {
        if at > 0 {
            assert(views[at - 1] == records@[at - 1]@);
        }
    }
    records.insert(at, record);
    proof {
        let all = record_views(records@);
        assert(all =~= views.insert(at as int, value));
        assert forall|i: int, j: int| 0 <= i < j < all.len() implies !newer(
            #[trigger] all[j],
            #[trigger] all[i],
        ) by {
            let a = if i < at { i } else { i - 1 };
            let b = if j < at { j } else { j - 1 };
            if i == at {
                assert(all[j] == views[b]);
                assert(newer(value, views[b]));
            } else if j == at {
                assert(all[i] == views[a]);
                if newer(value, views[a]) {
                    assert(a < at - 1);
                    assert(!newer(views[at - 1], views[a]));
                }
            } else {
                assert(all[i] == views[a]);
                assert(all[j] == views[b]);
            }
        }
        broadcast use vstd::seq_lib::group_to_multiset_ensures;

        assert forall|id: SessionId| #[trigger] holds_record(all, id) == (holds_record(views, id)
            || value.id == id) by {
            if holds_record(views, id) {
                let k = choose|k: int| 0 <= k < views.len() && (#[trigger] views[k]).id == id;
                let m = if k < at { k } else { k + 1 };
                assert(all[m] == views[k]);
            }
            if value.id == id {
                assert(all[at as int].id == id);
            }
            if holds_record(all, id) {
                let k = choose|k: int| 0 <= k < all.len() && (#[trigger] all[k]).id == id;
                if k < at {
                    assert(views[k].id == id);
                } else if k > at {
                    assert(views[k - 1].id == id);
                }
            }
        }
    }
}

/// Whether a session is among records.
fn has_record(records: &Vec<SessionRecord>, id: SessionId) -> (r: bool)
    ensures
        r == holds_record(record_views(records@), id),
{
    let ghost views = record_views(records@);
    let mut i: usize = 0;
    while i < records.len()
        invariant
            i <= records@.len(),
            views == record_views(records@),
            forall|j: int| 0 <= j < i ==> (#[trigger] views[j]).id != id,
        decreases records@.len() - i,
    {
        proof {
            assert(views[i as int] == records@[i as int]@);
        }
        if records[i].id == id {
            return true;
        }
        i = i + 1;
    }
    false
}

/// Equal collections of records hold the same sessions.
proof fn lemma_same_sessions(a: Seq<SessionRecordView>, b: Seq<SessionRecordView>, id: SessionId)
    requires
        a.to_multiset() == b.to_multiset(),
        holds_record(a, id),
    ensures
        holds_record(b, id),
{
    broadcast use vstd::seq_lib::group_to_multiset_ensures;

    let i = choose|i: int| 0 <= i < a.len() && (#[trigger] a[i]).id == id;
    assert(a.contains(a[i]));
    assert(a.to_multiset().count(a[i]) > 0);
    assert(b.contains(a[i]));
    let j = choose|j: int| 0 <= j < b.len() && b[j] == a[i];
    assert(b[j].id == id);
}

/// The sessions of rows of the storage. A row that cannot be used is reported and hides no other.
pub fn list(workspace: &WorkspaceContext, entries: &Vec<ListedDocument>) -> (r: SessionListing)
    ensures
        lists(r, *workspace, entries@.map_values(|entry: ListedDocument| entry@)),
{
    let ghost views = entries@.map_values(|entry: ListedDocument| entry@);
    let prefix = make_session_prefix(workspace.id());
    let prefix_chars = to_chars(prefix.as_str());
    let mut records: Vec<SessionRecord> = Vec::new();
    let mut issues: Vec<SessionStoreIssue> = Vec::new();
    let mut i: usize = 0;
    proof {
        assert(views.take(0) =~= Seq::<ListedDocumentView>::empty());
        assert(record_views(records@) =~= Seq::<SessionRecordView>::empty());
        assert(issue_views(issues@) =~= Seq::<(Option<SessionId>, Seq<char>)>::empty());
    }
    while i < entries.len()
        invariant
            i <= entries@.len(),
            views == entries@.map_values(|entry: ListedDocument| entry@),
            prefix@ == session_prefix(workspace.id),
            prefix_chars@ == prefix@,
            record_views(records@).to_multiset() == listed(
                *workspace,
                views.take(i as int),
            ).0.to_multiset(),
            newest_first(record_views(records@)),
            issue_views(issues@) == listed(*workspace, views.take(i as int)).1,
        decreases entries@.len() - i,
    {
        let entry = &entries[i];
        let ghost accepted = listed(*workspace, views.take(i as int)).0;
        let ghost found = issue_views(issues@);
        let ghost held = record_views(records@);
        proof {
            assert(views[i as int] == entry@);
            assert(views.take(i + 1).drop_last() =~= views.take(i as int));
            assert(views.take(i + 1).last() == entry@);
        }
        let issue = if !starts_with(entry.key.as_str(), prefix.as_str()) {
            Some(
                SessionStoreIssue {
                    session_id: None,
                    message:
                        "session document key is outside the requested workspace prefix".to_owned(),
                },
            )
        } else {
            let key_chars = to_chars(entry.key.as_str());
            let suffix = from_chars(&key_chars, prefix_chars.len(), key_chars.len());
            proof {
                assert(suffix@ =~= entry@.key.skip(session_prefix(workspace.id).len() as int));
            }
            match SessionId::parse_str(suffix.as_str()) {
                Err(_) => Some(
                    SessionStoreIssue {
                        session_id: None,
                        message: "session document key suffix is not a UUID".to_owned(),
                    },
                ),
                Ok(key_id) => match &entry.snapshot {
                    Err(error) => Some(
                        SessionStoreIssue { session_id: Some(key_id), message: error.clone() },
                    ),
                    Ok(None) => Some(
                        SessionStoreIssue {
                            session_id: Some(key_id),
                            message: "listed session document is unexpectedly missing".to_owned(),
                        },
                    ),
                    Ok(Some(record)) => match workspace.hydrate_for_id(key_id, record) {
                        Err(error) => Some(
                            SessionStoreIssue {
                                session_id: Some(key_id),
                                message: error.message(),
                            },
                        ),
                        Ok(_) => {
                            proof {
                                if holds_record(accepted, record.id) {
                                    lemma_same_sessions(accepted, held, record.id);
                                }
                                if holds_record(held, record.id) {
                                    lemma_same_sessions(held, accepted, record.id);
                                }
                            }
                            if has_record(&records, record.id) {
                                Some(
                                    SessionStoreIssue {
                                        session_id: Some(key_id),
                                        message: SessionStoreError::DuplicateSessionId(
                                            record.id,
                                        ).message(),
                                    },
                                )
                            } else {
                                insert_newest(&mut records, record.copy());
                                proof {
                                    broadcast use vstd::seq_lib::group_to_multiset_ensures;

                                    assert(accepted.push(record@).to_multiset()
                                        == accepted.to_multiset().insert(record@));
                                }
                                None
                            }
                        },
                    },
                },
            }
        };
        match issue {
            Some(issue) => {
                let ghost added = (issue.session_id, issue.message@);
                issues.push(issue);
                proof {
                    assert(issue_views(issues@) =~= found.push(added));
                }
            },
            None => {},
        }
        i = i + 1;
    }
    proof {
        assert(views.take(i as int) =~= views);
    }
    SessionListing { records, issues }
}

/// A stored record with its revision.
#[derive(Debug, PartialEq, Eq)]
pub struct Stored {
    pub value: SessionRecord,
    pub revision: u64,
}

/// A stored record by its values.
#[verifier::ext_equal]
pub ghost struct StoredView {
    pub value: SessionRecordView,
    pub revision: u64,
}

impl View for Stored {
    type V = StoredView;

    open spec fn view(&self) -> StoredView {
        StoredView { value: self.value@, revision: self.revision }
    }
}

/// The entries of one journal.
#[derive(Debug, PartialEq, Eq)]
pub struct Facts {
    pub entries: Vec<JournalEntry>,
}

/// The sessions of one workspace, with their journals and the sessions that have a writer.
pub struct SessionStore {
    pub workspace: WorkspaceContext,
    pub documents: Table<Stored>,
    pub journals: Table<Facts>,
    pub leases: Table<bool>,
}

/// The sessions of one workspace by their values.
#[verifier::ext_equal]
pub ghost struct SessionStoreView {
    pub workspace: WorkspaceContext,
    pub documents: Map<DocumentKey, StoredView>,
    pub journals: Map<DocumentKey, Seq<JournalEntry>>,
    pub leases: Map<DocumentKey, bool>,
}

impl View for SessionStore {
    type V = SessionStoreView;

    open spec fn view(&self) -> SessionStoreView {
        SessionStoreView {
            workspace: self.workspace,
            documents: self.documents@.map_values(|stored: Stored| stored@),
            journals: self.journals@.map_values(|facts: Facts| facts.entries@),
            leases: self.leases@,
        }
    }
}

impl SessionStoreView {
    /// Whether each of these identities has a writer or is in use. None of them is nil.
    pub open spec fn all_taken(self, drawn: Seq<SessionId>) -> bool {
        forall|i: int|
            0 <= i < drawn.len() ==> (#[trigger] drawn[i]).0 != 0 && (self.held(drawn[i])
                || self.has(drawn[i]))
    }

    /// Whether a session is stored.
    pub open spec fn has(self, id: SessionId) -> bool {
        self.documents.dom().contains(session_key(id))
    }

    /// A stored session.
    pub open spec fn stored(self, id: SessionId) -> StoredView {
        self.documents[session_key(id)]
    }

    /// Whether a session has a writer.
    pub open spec fn held(self, id: SessionId) -> bool {
        self.leases.dom().contains(session_key(id))
    }

    /// The facts of a session.
    pub open spec fn facts(self, id: SessionId) -> Seq<JournalEntry> {
        if self.journals.dom().contains(session_key(id)) {
            self.journals[session_key(id)]
        } else {
            Seq::empty()
        }
    }

    /// The store with the writer of a session taken.
    pub open spec fn with_lease(self, id: SessionId) -> SessionStoreView {
        SessionStoreView { leases: self.leases.insert(session_key(id), true), ..self }
    }

    /// The store with a session at a revision.
    pub open spec fn with_stored(self, id: SessionId, stored: StoredView) -> SessionStoreView {
        SessionStoreView { documents: self.documents.insert(session_key(id), stored), ..self }
    }

    /// The store with a fact behind the facts of a session.
    pub open spec fn with_fact(self, id: SessionId, entry: JournalEntry) -> SessionStoreView {
        SessionStoreView {
            journals: self.journals.insert(session_key(id), self.facts(id).push(entry)),
            ..self
        }
    }
}

/// The one writer of a session, with the record that it last read or wrote.
#[derive(Debug, PartialEq, Eq)]
pub struct SessionWriter {
    pub stored: Stored,
}

impl View for SessionWriter {
    type V = StoredView;

    open spec fn view(&self) -> StoredView {
        self.stored@
    }
}

/// The entry that a fact becomes behind the facts of a session.
pub open spec fn next_entry(facts: Seq<JournalEntry>, fact: JournalFact, now: UnixMillis) -> JournalEntry {
    JournalEntry {
        format_version: JOURNAL_FORMAT_VERSION,
        sequence: JournalSequence { number: (facts.len() + 1) as u64 },
        occurred_at: now,
        fact,
    }
}

/// Whether creating a session gives this store and this answer.
pub open spec fn creates_writer(
    before: SessionStoreView,
    id: SessionId,
    title: String,
    now: UnixMillis,
    after: SessionStoreView,
    r: Result<Option<SessionWriter>, SessionStoreError>,
) -> bool {
    match new_session_problem(before.workspace, id, title@, now) {
        Some(error) => {
            &&& after == before
            &&& r matches Err(SessionStoreError::Record(found)) && found == error
        },
        None => if before.held(id) || before.has(id) {
            after == before && r matches Ok(None)
        } else {
            &&& r matches Ok(Some(writer))
            &&& writer@.revision == 1
            &&& writer@.value.id == id
            &&& writer@.value.workspace_id == before.workspace.id
            &&& writer@.value.canonical_workspace_path
                == before.workspace.canonical_root@
            &&& writer@.value.metadata == (SessionMetadata {
                title,
                created_at: now,
                updated_at: now,
                last_opened_at: now,
                solver_model_override: None,
            })
            &&& writer@.value.draft.text@ == Seq::<char>::empty()
            &&& writer@.value.draft.cursor_byte_offset == 0
            &&& writer@.value.status == SessionStatus::initial()
            &&& after == before.with_lease(id).with_stored(id, writer@)
        },
    }
}

/// Whether this is the record of a session.
pub open spec fn gives_record(
    store: SessionStoreView,
    id: SessionId,
    r: Result<Option<SessionRecord>, SessionStoreError>,
) -> bool {
    if !store.has(id) {
        r matches Ok(None)
    } else {
        match store.workspace.unusable(id, store.stored(id).value) {
            Some(error) => r matches Err(found) && found == error,
            None => r matches Ok(Some(record)) && record@ == store.stored(id).value,
        }
    }
}

/// Whether opening a writer gives this store and this answer.
pub open spec fn opens_writer(
    before: SessionStoreView,
    id: SessionId,
    after: SessionStoreView,
    r: Result<SessionWriter, SessionLeaseError>,
) -> bool {
    if before.held(id) {
        &&& after == before
        &&& r matches Err(SessionLeaseError::HeldElsewhere { session_id })
            && session_id == id
    } else if !before.has(id) {
        &&& after == before
        &&& r matches Err(SessionLeaseError::NotFound(found)) && found == id
    } else {
        match before.workspace.unusable(id, before.stored(id).value) {
            Some(error) => {
                &&& after == before
                &&& r matches Err(SessionLeaseError::Session(found)) && found == error
            },
            None => {
                &&& r matches Ok(writer) && writer@ == before.stored(id)
                &&& after == before.with_lease(id)
            },
        }
    }
}

/// Whether releasing a writer gives this store.
pub open spec fn releases(
    before: SessionStoreView,
    writer: StoredView,
    after: SessionStoreView,
) -> bool {
    after == (SessionStoreView {
        leases: before.leases.remove(session_key(writer.value.id)),
        ..before
    })
}

/// Whether these are the facts of a session.
pub open spec fn gives_facts(
    store: SessionStoreView,
    id: SessionId,
    r: Result<Vec<JournalEntry>, JournalFailure>,
) -> bool {
    if !store.has(id) {
        r matches Err(JournalFailure::Journal(error)) && error
            == JournalError::SessionNotFound(id)
    } else {
        match store.workspace.unusable(id, store.stored(id).value) {
            Some(error) => r matches Err(JournalFailure::Session(found)) && found == error,
            None => r matches Ok(entries) && entries@ == store.facts(id),
        }
    }
}

impl SessionStore {
    /// A workspace without sessions.
    pub fn new(workspace: WorkspaceContext) -> (r: SessionStore)
        ensures
            r@ == (SessionStoreView {
                workspace,
                documents: Map::empty(),
                journals: Map::empty(),
                leases: Map::empty(),
            }),
    {
        let r = SessionStore {
            workspace,
            documents: Table::new(),
            journals: Table::new(),
            leases: Table::new(),
        };
        proof {
            assert(r@ =~= (SessionStoreView {
                workspace,
                documents: Map::empty(),
                journals: Map::empty(),
                leases: Map::empty(),
            }));
        }
        r
    }

    /// The workspace of these sessions.
    pub fn workspace(&self) -> (r: &WorkspaceContext)
        ensures
            *r == self@.workspace,
    {
        &self.workspace
    }

    /// Tries to create a session under an identity, and takes its writer. Gives nothing where the
    /// identity has a writer or is in use.
    pub fn try_create(&mut self, id: SessionId, title: String, now: UnixMillis) -> (r: Result<
        Option<SessionWriter>,
        SessionStoreError,
    >)
        ensures
            creates_writer(old(self)@, id, title, now, final(self)@, r),
    {
        let ghost start = self@;
        let record = match SessionRecord::new_at(&self.workspace, id, title, now) {
            Ok(record) => record,
            Err(error) => {
                return Err(SessionStoreError::Record(error));
            },
        };
        let key = make_session_key(id);
        if self.leases.has(&key) || self.documents.has(&key) {
            return Ok(None);
        }
        let copy = Stored { value: record.copy(), revision: 1 };
        let ghost added = copy@;
        self.leases.put(key, true);
        self.documents.put(key, copy);
        let writer = SessionWriter { stored: Stored { value: record, revision: 1 } };
        proof {
            assert(added == writer@);
            assert(self@.documents =~= start.documents.insert(key, added));
            assert(self@ =~= start.with_lease(id).with_stored(id, added));
        }
        Ok(Some(writer))
    }

    /// Creates a session and takes its writer, under one of a few fresh identities.
    pub fn create_writer(&mut self, title: String, now: UnixMillis) -> (r: Result<
        SessionWriter,
        SessionStoreError,
    >)
        ensures
            ({
                let before = old(self)@;
                match r {
                    Ok(writer) => {
                        let id = writer@.value.id;
                        &&& id.0 != 0
                        &&& new_session_problem(before.workspace, id, title@, now) is None
                        &&& !before.held(id)
                        &&& !before.has(id)
                        &&& writer@.revision == 1
                        &&& writer@.value.workspace_id == before.workspace.id
                        &&& writer@.value.canonical_workspace_path
                            == before.workspace.canonical_root@
                        &&& writer@.value.metadata == (SessionMetadata {
                            title,
                            created_at: now,
                            updated_at: now,
                            last_opened_at: now,
                            solver_model_override: None,
                        })
                        &&& writer@.value.draft.text@ == Seq::<char>::empty()
                        &&& writer@.value.draft.cursor_byte_offset == 0
                        &&& writer@.value.status == SessionStatus::initial()
                        &&& final(self)@ == before.with_lease(id).with_stored(id, writer@)
                    },
                    Err(error) => {
                        &&& final(self)@ == before
                        &&& match error {
                            SessionStoreError::Record(problem) => exists|id: SessionId|
                                id.0 != 0 && #[trigger] new_session_problem(
                                    before.workspace,
                                    id,
                                    title@,
                                    now,
                                ) == Some(problem),
                            SessionStoreError::IdAllocationExhausted => exists|
                                drawn: Seq<SessionId>,
                            |
                                drawn.len() == CREATE_RETRY_LIMIT && #[trigger] before.all_taken(
                                    drawn,
                                ),
                            _ => false,
                        }
                    },
                }
            }),
    {
        let ghost start = self@;
        let ghost mut drawn = Seq::<SessionId>::empty();
        let mut attempt: usize = 0;
        while attempt < CREATE_RETRY_LIMIT
            invariant
                attempt <= CREATE_RETRY_LIMIT,
                self@ == start,
                start == old(self)@,
                drawn.len() == attempt,
                start.all_taken(drawn),
            decreases CREATE_RETRY_LIMIT - attempt,
        {
            let id = SessionId::new();
            match self.try_create(id, title.clone(), now) {
                Ok(Some(writer)) => {
                    return Ok(writer);
                },
                Ok(None) => {
                    proof {
                        drawn = drawn.push(id);
                    }
                },
                Err(error) => {
                    proof {
                        assert(new_session_problem(start.workspace, id, title@, now) is Some);
                    }
                    return Err(error);
                },
            }
            attempt = attempt + 1;
        }
        Err(SessionStoreError::IdAllocationExhausted)
    }

    /// A stored session that is in order.
    pub fn get(&self, id: SessionId) -> (r: Result<Option<SessionRecord>, SessionStoreError>)
        ensures
            gives_record(self@, id, r),
    {
        match self.documents.get(&make_session_key(id)) {
            Some(stored) => match self.workspace.hydrate_for_id(id, &stored.value) {
                Ok(_) => Ok(Some(stored.value.copy())),
                Err(error) => Err(error),
            },
            None => Ok(None),
        }
    }

    /// Takes the one writer of a session.
    pub fn try_open_writer(&mut self, id: SessionId) -> (r: Result<
        SessionWriter,
        SessionLeaseError,
    >)
        ensures
            opens_writer(old(self)@, id, final(self)@, r),
    {
        let ghost start = self@;
        let key = make_session_key(id);
        if self.leases.has(&key) {
            return Err(SessionLeaseError::HeldElsewhere { session_id: id });
        }
        let stored = match self.documents.get(&key) {
            Some(stored) => match self.workspace.hydrate_for_id(id, &stored.value) {
                Ok(_) => Stored { value: stored.value.copy(), revision: stored.revision },
                Err(error) => {
                    return Err(SessionLeaseError::Session(error));
                },
            },
            None => {
                return Err(SessionLeaseError::NotFound(id));
            },
        };
        self.leases.put(key, true);
        proof {
            assert(self@ =~= start.with_lease(id));
        }
        Ok(SessionWriter { stored })
    }

    /// Gives a writer back.
    pub fn release(&mut self, writer: SessionWriter)
        ensures
            releases(old(self)@, writer@, final(self)@),
    {
        let ghost start = self@;
        let _ = self.leases.take(&make_session_key(writer.stored.value.id));
        proof {
            assert(self@ =~= (SessionStoreView {
                leases: start.leases.remove(session_key(writer@.value.id)),
                ..start
            }));
        }
    }

    /// The facts of an existing session.
    pub fn journal(&self, id: SessionId) -> (r: Result<Vec<JournalEntry>, JournalFailure>)
        ensures
            gives_facts(self@, id, r),
    {
        match self.get(id) {
            Ok(Some(_)) => {},
            Ok(None) => {
                return Err(JournalFailure::Journal(JournalError::SessionNotFound(id)));
            },
            Err(error) => {
                return Err(JournalFailure::Session(error));
            },
        }
        let mut r: Vec<JournalEntry> = Vec::new();
        match self.journals.get(&make_session_key(id)) {
            Some(facts) => {
                let mut i: usize = 0;
                while i < facts.entries.len()
                    invariant
                        i <= facts.entries@.len(),
                        r@ == facts.entries@.take(i as int),
                    decreases facts.entries@.len() - i,
                {
                    r.push(facts.entries[i].clone());
                    proof {
                        assert(r@ =~= facts.entries@.take(i + 1));
                    }
                    i = i + 1;
                }
                proof {
                    assert(r@ =~= facts.entries@);
                }
            },
            None => {},
        }
        proof {
            assert(r@ =~= self@.facts(id));
        }
        Ok(r)
    }

    fn push_fact(&mut self, id: SessionId, fact: JournalFact, now: UnixMillis) -> (r: JournalEntry)
        requires
            old(self)@.facts(id).len() < u64::MAX,
        ensures
            r == next_entry(old(self)@.facts(id), fact, now),
            final(self)@ == old(self)@.with_fact(id, r),
    {
        let ghost start = self@;
        let key = make_session_key(id);
        let mut facts = match self.journals.take(&key) {
            Some(facts) => facts,
            None => Facts { entries: Vec::new() },
        };
        let count: usize = facts.entries.len();
        let ghost earlier = facts.entries@;
        proof {
            assert(earlier =~= start.facts(id));
        }
        let entry = JournalEntry {
            format_version: JOURNAL_FORMAT_VERSION,
            sequence: JournalSequence { number: count as u64 + 1 },
            occurred_at: now,
            fact,
        };
        facts.entries.push(entry.clone());
        let ghost all = facts.entries@;
        self.journals.put(key, facts);
        proof {
            assert(all =~= earlier.push(entry));
            assert(self@.journals =~= start.journals.insert(key, all));
            assert(self@ =~= start.with_fact(id, entry));
        }
        entry
    }

    fn fact_count(&self, id: SessionId) -> (r: u64)
        ensures
            r == self@.facts(id).len(),
    {
        match self.journals.get(&make_session_key(id)) {
            Some(facts) => {
                let count: usize = facts.entries.len();
                count as u64
            },
            None => 0,
        }
    }
}

/// Why the facts of a session cannot be read.
#[derive(Debug, PartialEq, Eq)]
pub enum JournalFailure {
    Journal(JournalError),
    Session(SessionStoreError),
}

/// What storing a prepared record comes to: refused where the stored revision is another one than
/// the writer's.
pub open spec fn replaced(
    before: SessionStoreView,
    after: SessionStoreView,
    writer: StoredView,
    writer_after: StoredView,
    next: SessionRecordView,
    now: UnixMillis,
    r: Result<(), SessionStoreError>,
) -> bool {
    let id = writer.value.id;
    match prepare_problem(before.workspace, writer.value, next, now) {
        Some(error) => {
            &&& after == before
            &&& writer_after == writer
            &&& r matches Err(found) && found == error
        },
        None => if !before.has(id) || before.stored(id).revision != writer.revision
            || writer.revision == u64::MAX {
            &&& after == before
            &&& writer_after == writer
            &&& r matches Err(SessionStoreError::RevisionConflict { session_id }) && session_id
                == id
        } else {
            &&& r is Ok
            &&& writer_after == (StoredView {
                value: updated(writer.value, next, now),
                revision: (writer.revision + 1) as u64,
            })
            &&& after == before.with_stored(id, writer_after)
        },
    }
}

/// Whether a new draft gives this store, this writer and this answer.
pub open spec fn takes_draft(
    before: SessionStoreView,
    writer: StoredView,
    draft: SessionDraft,
    now: UnixMillis,
    after: SessionStoreView,
    written: StoredView,
    r: Result<(), SessionStoreError>,
) -> bool {
    match draft.problem() {
        Some(error) => {
            &&& after == before
            &&& written == writer
            &&& r matches Err(SessionStoreError::Record(found)) && found == error
        },
        None => replaced(
            before,
            after,
            writer,
            written,
            SessionRecordView { draft, ..writer.value },
            now,
            r,
        ),
    }
}

/// Whether a new status gives this store, this writer and this answer.
pub open spec fn takes_status(
    before: SessionStoreView,
    writer: StoredView,
    status: SessionStatus,
    now: UnixMillis,
    after: SessionStoreView,
    written: StoredView,
    r: Result<(), SessionStoreError>,
) -> bool {
    replaced(
        before,
        after,
        writer,
        written,
        SessionRecordView { status, ..writer.value },
        now,
        r,
    )
}

/// Whether a new title gives this store, this writer and this answer.
pub open spec fn takes_title(
    before: SessionStoreView,
    writer: StoredView,
    title: String,
    now: UnixMillis,
    after: SessionStoreView,
    written: StoredView,
    r: Result<(), SessionStoreError>,
) -> bool {
    replaced(
        before,
        after,
        writer,
        written,
        SessionRecordView {
            metadata: SessionMetadata { title, ..writer.value.metadata },
            ..writer.value
        },
        now,
        r,
    )
}

/// Whether noting an opening gives this store, this writer and this answer.
pub open spec fn takes_opening(
    before: SessionStoreView,
    writer: StoredView,
    opened_at: UnixMillis,
    now: UnixMillis,
    after: SessionStoreView,
    written: StoredView,
    r: Result<(), SessionStoreError>,
) -> bool {
    replaced(
        before,
        after,
        writer,
        written,
        SessionRecordView {
            metadata: SessionMetadata {
                last_opened_at: opened_at,
                ..writer.value.metadata
            },
            ..writer.value
        },
        now,
        r,
    )
}

/// Whether a model of its own gives this store, this writer and this answer.
pub open spec fn takes_model(
    before: SessionStoreView,
    writer: StoredView,
    selection: Option<ModelSelection>,
    now: UnixMillis,
    after: SessionStoreView,
    written: StoredView,
    r: Result<(), SessionStoreError>,
) -> bool {
    if selection is Some && selection->0.problem() is Some {
        &&& after == before
        &&& written == writer
        &&& r matches Err(error) && error == SessionStoreError::Record(
            RecordError::InvalidModelOverride,
        )
    } else {
        replaced(
            before,
            after,
            writer,
            written,
            SessionRecordView {
                metadata: SessionMetadata {
                    solver_model_override: selection,
                    ..writer.value.metadata
                },
                ..writer.value
            },
            now,
            r,
        )
    }
}

/// Whether appending a fact gives this store and this answer.
pub open spec fn appends_fact(
    before: SessionStoreView,
    writer: StoredView,
    fact: JournalFact,
    now: UnixMillis,
    after: SessionStoreView,
    r: Result<JournalEntry, JournalError>,
) -> bool {
    let id = writer.value.id;
    match fact.problem() {
        Some(text) => {
            &&& after == before
            &&& r matches Err(error) && is_invalid(error, text)
        },
        None => if before.facts(id).len() >= u64::MAX {
            &&& after == before
            &&& r matches Err(error) && is_invalid(
                error,
                "journal sequence cannot be incremented further"@,
            )
        } else {
            let entry = next_entry(before.facts(id), fact, now);
            &&& r == Ok::<JournalEntry, JournalError>(entry)
            &&& after == before.with_fact(id, entry)
        },
    }
}

/// Whether accepting a turn gives this store, this writer and this answer.
pub open spec fn accepts_turn(
    before: SessionStoreView,
    writer: StoredView,
    next: SessionRecordView,
    fact: JournalFact,
    now: UnixMillis,
    after: SessionStoreView,
    written: StoredView,
    r: Result<JournalEntry, SessionStoreError>,
) -> bool {
    let current = writer;
    let id = current.value.id;
    if fact.problem() is Some {
        &&& after == before
        &&& written == current
        &&& r matches Err(SessionStoreError::InvalidTurn { message }) && message@
            == "journal entry is invalid: "@ + fact.problem()->0
    } else if before.facts(id).len() >= u64::MAX {
        &&& after == before
        &&& written == current
        &&& r matches Err(SessionStoreError::InvalidTurn { message }) && message@
            == "journal entry is invalid: "@
            + "journal sequence cannot be incremented further"@
    } else {
        match r {
            Ok(entry) => {
                &&& entry == next_entry(before.facts(id), fact, now)
                &&& exists|middle: SessionStoreView|
                    #[trigger] replaced(
                        before,
                        middle,
                        current,
                        written,
                        next,
                        now,
                        Ok(()),
                    ) && after == middle.with_fact(id, entry)
            },
            Err(error) => replaced(
                before,
                after,
                current,
                written,
                next,
                now,
                Err(error),
            ),
        }
    }
}

impl SessionWriter {
    /// The session that is written.
    pub fn session_id(&self) -> (r: SessionId)
        ensures
            r == self@.value.id,
    {
        self.stored.value.id
    }

    /// The record that was last read or written.
    pub fn record(&self) -> (r: &SessionRecord)
        ensures
            r@ == self@.value,
    {
        &self.stored.value
    }

    /// Stores a record in place of the current one.
    pub fn replace(&mut self, store: &mut SessionStore, next: SessionRecord, now: UnixMillis) -> (r: Result<
        (),
        SessionStoreError,
    >)
        ensures
            replaced(old(store)@, final(store)@, old(self)@, final(self)@, next@, now, r),
    {
        let ghost start = store@;
        let ghost current = self@;
        let ghost wanted = next@;
        let next = match prepare_replace(&store.workspace, &self.stored.value, next, now) {
            Ok(next) => next,
            Err(error) => {
                return Err(error);
            },
        };
        let id = self.stored.value.id;
        let key = make_session_key(id);
        proof {
            super::session::law_replacement_keeps_identity(
                start.workspace,
                current.value,
                wanted,
                now,
            );
        }
        let matches_revision = match store.documents.get(&key) {
            Some(stored) => stored.revision == self.stored.revision && stored.revision != u64::MAX,
            None => false,
        };
        if !matches_revision {
            return Err(SessionStoreError::RevisionConflict { session_id: id });
        }
        let revision: u64 = self.stored.revision + 1;
        let copy = Stored { value: next.copy(), revision };
        let ghost added = copy@;
        store.documents.put(key, copy);
        self.stored = Stored { value: next, revision };
        proof {
            assert(store@.documents =~= start.documents.insert(key, added));
            assert(store@ =~= start.with_stored(id, added));
        }
        Ok(())
    }

    /// Stores a draft.
    pub fn update_draft(&mut self, store: &mut SessionStore, draft: SessionDraft, now: UnixMillis) -> (r: Result<
        (),
        SessionStoreError,
    >)
        ensures
            takes_draft(old(store)@, old(self)@, draft, now, final(store)@, final(self)@, r),
    {
        match draft.validate() {
            Ok(_) => {},
            Err(error) => {
                return Err(SessionStoreError::Record(error));
            },
        }
        let mut next = self.stored.value.copy();
        next.draft = draft;
        self.replace(store, next, now)
    }

    /// Stores a status.
    pub fn update_status(&mut self, store: &mut SessionStore, status: SessionStatus, now: UnixMillis) -> (r: Result<
        (),
        SessionStoreError,
    >)
        ensures
            takes_status(old(store)@, old(self)@, status, now, final(store)@, final(self)@, r),
    {
        let mut next = self.stored.value.copy();
        next.status = status;
        self.replace(store, next, now)
    }

    /// Stores a title.
    pub fn rename(&mut self, store: &mut SessionStore, title: String, now: UnixMillis) -> (r: Result<
        (),
        SessionStoreError,
    >)
        ensures
            takes_title(old(store)@, old(self)@, title, now, final(store)@, final(self)@, r),
    {
        let mut next = self.stored.value.copy();
        next.metadata.title = title;
        self.replace(store, next, now)
    }

    /// Stores when the session was opened.
    pub fn mark_opened(&mut self, store: &mut SessionStore, opened_at: UnixMillis, now: UnixMillis) -> (r: Result<
        (),
        SessionStoreError,
    >)
        ensures
            takes_opening(old(store)@, old(self)@, opened_at, now, final(store)@, final(self)@, r),
    {
        let mut next = self.stored.value.copy();
        next.metadata.last_opened_at = opened_at;
        self.replace(store, next, now)
    }

    /// Stores the model of the session.
    pub fn set_solver_model_override(
        &mut self,
        store: &mut SessionStore,
        selection: Option<ModelSelection>,
        now: UnixMillis,
    ) -> (r: Result<(), SessionStoreError>)
        ensures
            takes_model(old(store)@, old(self)@, selection, now, final(store)@, final(self)@, r),
    {
        match &selection {
            Some(selection) => match selection.validate() {
                Ok(_) => {},
                Err(_) => {
                    return Err(SessionStoreError::Record(RecordError::InvalidModelOverride));
                },
            },
            None => {},
        }
        let mut next = self.stored.value.copy();
        next.metadata.solver_model_override = selection;
        self.replace(store, next, now)
    }

    /// Appends a fact to the journal of the session.
    pub fn append(&self, store: &mut SessionStore, fact: JournalFact, now: UnixMillis) -> (r: Result<
        JournalEntry,
        JournalError,
    >)
        ensures
            appends_fact(old(store)@, self@, fact, now, final(store)@, r),
    {
        match fact.validate() {
            Ok(_) => {},
            Err(error) => {
                return Err(error);
            },
        }
        let id = self.stored.value.id;
        if store.fact_count(id) == u64::MAX {
            return Err(
                JournalError::InvalidEntry {
                    message: "journal sequence cannot be incremented further".to_owned(),
                },
            );
        }
        Ok(store.push_fact(id, fact, now))
    }

    /// Stores a record and appends the fact of an accepted turn, both or neither.
    pub fn accept_turn(
        &mut self,
        store: &mut SessionStore,
        next: SessionRecord,
        fact: JournalFact,
        now: UnixMillis,
    ) -> (r: Result<JournalEntry, SessionStoreError>)
        ensures
            accepts_turn(old(store)@, old(self)@, next@, fact, now, final(store)@, final(self)@, r),
    {
        let ghost before = store@;
        let ghost current = self@;
        let ghost wanted = next@;
        match fact.validate() {
            Ok(_) => {},
            Err(error) => {
                let mut message = "journal entry is invalid: ".to_owned();
                match error {
                    JournalError::InvalidEntry { message: text } => {
                        message.push_str(text.as_str());
                    },
                    _ => {},
                }
                return Err(SessionStoreError::InvalidTurn { message });
            },
        }
        let id = self.stored.value.id;
        if store.fact_count(id) == u64::MAX {
            let mut message = "journal entry is invalid: ".to_owned();
            message.push_str("journal sequence cannot be incremented further");
            return Err(SessionStoreError::InvalidTurn { message });
        }
        match self.replace(store, next, now) {
            Ok(_) => {},
            Err(error) => {
                return Err(error);
            },
        }
        let ghost middle = store@;
        proof {
            assert(middle.facts(id) == before.facts(id));
        }
        let entry = store.push_fact(id, fact, now);
        proof {
            assert(replaced(before, middle, current, self@, wanted, now, Ok(())));
        }
        Ok(entry)
    }
}

/// A successful write leaves the writer with exactly what is stored, so its next write meets no
/// conflict of its own making.
pub proof fn law_writer_stays_current(
    before: SessionStoreView,
    after: SessionStoreView,
    writer: StoredView,
    writer_after: StoredView,
    next: SessionRecordView,
    now: UnixMillis,
)
    requires
        replaced(before, after, writer, writer_after, next, now, Ok(())),
    ensures
        after.has(writer.value.id),
        writer_after.value.id == writer.value.id,
        after.stored(writer.value.id) == writer_after,
{
    super::session::law_replacement_keeps_identity(before.workspace, writer.value, next, now);
}

/// A refused write changes neither the store nor the writer.
pub proof fn law_refused_write_changes_nothing(
    before: SessionStoreView,
    after: SessionStoreView,
    writer: StoredView,
    writer_after: StoredView,
    next: SessionRecordView,
    now: UnixMillis,
    error: SessionStoreError,
)
    requires
        replaced(before, after, writer, writer_after, next, now, Err(error)),
    ensures
        after == before,
        writer_after == writer,
{
}

/// Every accepted row is in order, and no session is accepted twice.
pub proof fn law_listed_records_are_usable(
    workspace: WorkspaceContext,
    entries: Seq<ListedDocumentView>,
)
    ensures
        forall|i: int|
            0 <= i < listed(workspace, entries).0.len() ==> workspace.foreign(
                #[trigger] listed(workspace, entries).0[i],
            ) is None,
        forall|i: int, j: int|
            0 <= i < j < listed(workspace, entries).0.len() ==> (#[trigger] listed(
                workspace,
                entries,
            ).0[i]).id != (#[trigger] listed(workspace, entries).0[j]).id,
    decreases entries.len(),
{
    if entries.len() > 0 {
        law_listed_records_are_usable(workspace, entries.drop_last());
        let (accepted, _) = listed(workspace, entries.drop_last());
        let all = listed(workspace, entries).0;
        match row(workspace, accepted, entries.last()) {
            Row::Record(record) => {
                assert(all == accepted.push(record));
                assert forall|i: int, j: int| 0 <= i < j < all.len() implies (
                #[trigger] all[i]).id != (#[trigger] all[j]).id by {
                    if j == accepted.len() {
                        assert(accepted[i].id != record.id);
                    }
                }
            },
            Row::Issue(_, _) => {},
        }
    }
}

/// Every row is accounted for, by a record or by an issue.
pub proof fn law_no_row_is_lost(workspace: WorkspaceContext, entries: Seq<ListedDocumentView>)
    ensures
        listed(workspace, entries).0.len() + listed(workspace, entries).1.len() == entries.len(),
    decreases entries.len(),
{
    if entries.len() > 0 {
        law_no_row_is_lost(workspace, entries.drop_last());
    }
}

} // verus!

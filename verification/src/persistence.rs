//! The durable data of the application: documents and session journals, and the operations on
//! them. Every operation takes effect as a whole or not at all.

pub mod acceptance;
pub mod addresses;
pub mod chunks;
pub mod core_state;
pub mod creation;
pub mod evidence;
pub mod history;
pub mod inputs;
pub mod journal;
pub mod keys;
pub mod laws;
pub mod overview;
pub mod projection;
pub mod records;
pub mod recovery;
pub mod results;
pub mod sessions;
pub mod settings;
pub mod writes;

use vstd::prelude::*;

use crate::api::{
    AcceptanceReceipt, AcceptanceRecord, AcceptanceSubmission, CallRef, EvidenceRef,
    EvidenceSourceKind, InputId, InputView, JobRef, QuestionId, ResultRef, ResultSummary,
    SessionEvent, SessionEventView, SessionInfo, SessionSeq, UnresolvedWriteView, WorkspaceInfo,
};
use crate::config::{
    copy_strings, Profile, ProfileView, RuntimeConfig, RuntimeConfigView, RuntimeOverrides,
    RuntimeSettings,
};
use crate::document::{DocumentKey, Table};
use crate::error::StoreError;
use crate::ids::{RuntimeId, SessionId, WorkspaceId};
use crate::path::{absolute, FilePath};
use crate::record::{ExternalEffect, OutcomeKind, Record, RecordView, ToolOutcome};

verus! {

/// A session with its place in the input numbering and its runtime.
#[derive(Debug, PartialEq, Eq)]
pub struct SavedSession {
    pub info: SessionInfo,
    pub next_input: u64,
    pub runtime: Option<SavedRuntime>,
    pub agent_through: u64,
    pub core_through: u64,
    pub draft: String,
}

/// The runtime that a session runs with.
#[derive(Debug, PartialEq, Eq)]
pub struct SavedRuntime {
    pub id: RuntimeId,
    pub config: RuntimeConfig,
}

/// A saved runtime by its values.
pub ghost struct SavedRuntimeView {
    pub id: RuntimeId,
    pub config: RuntimeConfigView,
}

/// A saved session by its values.
pub ghost struct SavedSessionView {
    pub info: SessionInfo,
    pub next_input: u64,
    pub runtime: Option<SavedRuntimeView>,
    pub agent_through: u64,
    pub core_through: u64,
    pub draft: String,
}

impl View for SavedSession {
    type V = SavedSessionView;

    open spec fn view(&self) -> SavedSessionView {
        SavedSessionView {
            info: self.info,
            next_input: self.next_input,
            runtime: match self.runtime {
                Some(runtime) => Some(
                    SavedRuntimeView { id: runtime.id, config: runtime.config@ },
                ),
                None => None,
            },
            agent_through: self.agent_through,
            core_through: self.core_through,
            draft: self.draft,
        }
    }
}

impl SavedSession {
    /// A copy of this session.
    pub fn copy(&self) -> (r: SavedSession)
        ensures
            r@ == self@,
    {
        let runtime = match &self.runtime {
            Some(runtime) => Some(SavedRuntime { id: runtime.id, config: runtime.config.copy() }),
            None => None,
        };
        SavedSession {
            info: self.info.clone(),
            next_input: self.next_input,
            runtime,
            agent_through: self.agent_through,
            core_through: self.core_through,
            draft: self.draft.clone(),
        }
    }

    /// The runtime of this session.
    pub fn runtime_id(&self) -> (r: Option<RuntimeId>)
        ensures
            r == (match self@.runtime {
                Some(runtime) => Some(runtime.id),
                None => None,
            }),
    {
        match &self.runtime {
            Some(runtime) => Some(runtime.id),
            None => None,
        }
    }
}

/// An event as the journal holds it.
#[derive(Debug, PartialEq, Eq)]
pub enum StoredEvent {
    App(SessionEvent),
    Agent { runtime: RuntimeId, record: Record },
}

/// A stored event by its values.
pub ghost enum StoredEventView {
    App(SessionEventView),
    Agent { runtime: RuntimeId, record: RecordView },
}

impl View for StoredEvent {
    type V = StoredEventView;

    open spec fn view(&self) -> StoredEventView {
        match self {
            StoredEvent::App(event) => StoredEventView::App(event@),
            StoredEvent::Agent { runtime, record } => StoredEventView::Agent {
                runtime: *runtime,
                record: record@,
            },
        }
    }
}

/// One entry of a journal. Its sequence is its place, counted from one.
#[derive(Debug, PartialEq, Eq)]
pub struct StoredEntry {
    pub occurred_at: i64,
    pub event: StoredEvent,
}

/// A journal entry by its values.
pub ghost struct StoredEntryView {
    pub occurred_at: i64,
    pub event: StoredEventView,
}

impl View for StoredEntry {
    type V = StoredEntryView;

    open spec fn view(&self) -> StoredEntryView {
        StoredEntryView { occurred_at: self.occurred_at, event: self.event@ }
    }
}

/// The journal of a session.
#[derive(Debug, PartialEq, Eq)]
pub struct Journal {
    pub entries: Vec<StoredEntry>,
}

impl View for Journal {
    type V = Seq<StoredEntryView>;

    open spec fn view(&self) -> Seq<StoredEntryView> {
        self.entries@.map_values(|entry: StoredEntry| entry@)
    }
}

/// What a request was accepted as.
#[derive(Debug, PartialEq, Eq)]
pub struct RequestRecord {
    pub input: InputId,
    pub text: String,
    pub reply_to: Option<QuestionId>,
    pub saved_at: SessionSeq,
}

/// What a request for a session was recorded as.
#[derive(Debug, PartialEq, Eq)]
pub struct CreationRecord {
    pub session: SessionId,
    pub workspace: WorkspaceId,
    pub title: String,
}

/// What an acceptance request was recorded as.
#[derive(Debug, PartialEq, Eq)]
pub struct AcceptanceRequestRecord {
    pub submission: AcceptanceSubmission,
    pub receipt: AcceptanceReceipt,
}

/// How far a projection of a journal has come, from its snapshot's end towards its start.
#[derive(Clone, Copy, Debug, PartialEq, Eq, Structural)]
pub struct ProjectionState {
    pub snapshot_through: SessionSeq,
    pub before: SessionSeq,
    pub complete: bool,
}

/// A result as it is stored, with the sources that it cites.
#[derive(Debug, PartialEq, Eq)]
pub struct StoredResult {
    pub result: ResultRef,
    pub outcome: OutcomeKind,
    pub summary: String,
    pub remaining: Vec<String>,
    pub evidence: Vec<EvidenceRef>,
}

/// A stored result by its values.
#[verifier::ext_equal]
pub ghost struct StoredResultView {
    pub result: ResultRef,
    pub outcome: OutcomeKind,
    pub summary: Seq<char>,
    pub remaining: Seq<Seq<char>>,
    pub evidence: Seq<EvidenceRef>,
}

/// Strings by their characters.
pub open spec fn texts(strings: Seq<String>) -> Seq<Seq<char>> {
    strings.map_values(|s: String| s@)
}

impl View for StoredResult {
    type V = StoredResultView;

    open spec fn view(&self) -> StoredResultView {
        StoredResultView {
            result: self.result,
            outcome: self.outcome,
            summary: self.summary@,
            remaining: texts(self.remaining@),
            evidence: self.evidence@,
        }
    }
}

impl StoredResult {
    /// What a list shows of this result.
    pub fn public(&self) -> (r: ResultSummary)
        ensures
            r.result == self.result,
            r.outcome == self.outcome,
            r.summary == self.summary,
            r.remaining@ == self.remaining@,
    {
        ResultSummary {
            result: self.result,
            outcome: self.outcome,
            summary: self.summary.clone(),
            remaining: copy_strings(&self.remaining),
        }
    }
}

/// A source as older stores hold it, with its whole body.
#[derive(Debug, PartialEq, Eq)]
pub enum StoredEvidenceSource {
    Public { kind: EvidenceSourceKind, title: String, body: String },
    /// The record exists; nothing of it is shown.
    Private,
}

/// A part of a source's body, by its byte offsets.
#[derive(Clone, Copy, Debug, PartialEq, Eq, Structural)]
pub struct EvidenceBodyChunk {
    pub start: u64,
    pub end: u64,
}

/// What is known of a source besides its body.
#[derive(Debug, PartialEq, Eq)]
pub enum StoredEvidenceMetadata {
    Public {
        kind: EvidenceSourceKind,
        title: String,
        byte_len: u64,
        chunks: Vec<EvidenceBodyChunk>,
    },
    Private,
}

/// What is known of a source, by its values.
pub ghost enum StoredEvidenceMetadataView {
    Public {
        kind: EvidenceSourceKind,
        title: Seq<char>,
        byte_len: u64,
        chunks: Seq<EvidenceBodyChunk>,
    },
    Private,
}

impl View for StoredEvidenceMetadata {
    type V = StoredEvidenceMetadataView;

    open spec fn view(&self) -> StoredEvidenceMetadataView {
        match self {
            StoredEvidenceMetadata::Public { kind, title, byte_len, chunks } =>
                StoredEvidenceMetadataView::Public {
                kind: *kind,
                title: title@,
                byte_len: *byte_len,
                chunks: chunks@,
            },
            StoredEvidenceMetadata::Private => StoredEvidenceMetadataView::Private,
        }
    }
}

/// An input that waits for the user's answer.
#[derive(Debug, PartialEq, Eq)]
pub struct WaitingRecord {
    pub workspace: WorkspaceId,
    pub session: SessionId,
    pub input: InputId,
    pub runtime: RuntimeId,
    pub question: QuestionId,
    pub text: String,
}

/// How far the collection of older attention items has come, from the last documents towards the
/// first.
#[derive(Clone, Copy, Debug, PartialEq, Eq, Structural)]
pub struct AttentionProjectionState {
    pub input_before: Option<DocumentKey>,
    pub inputs_complete: bool,
    pub write_before: Option<DocumentKey>,
    pub writes_complete: bool,
}

/// Whether a write has returned.
#[derive(Debug, PartialEq, Eq)]
pub enum WriteState {
    Pending,
    Finished(ToolOutcome),
}

/// A write that was begun and is not settled. Arguments are JSON text.
#[derive(Debug, PartialEq, Eq)]
pub struct WriteAttempt {
    pub session: SessionId,
    pub call: CallRef,
    pub job: Option<JobRef>,
    pub tool: String,
    pub arguments: String,
    pub state: WriteState,
}

/// How the user settled a write.
#[derive(Clone, Copy, Debug, PartialEq, Eq, Structural)]
pub struct StoredWriteResolution {
    pub session: SessionId,
    pub external_effect: ExternalEffect,
}

/// Proof that a commit of the agent core is stored.
#[derive(Debug, PartialEq, Eq)]
pub struct DurableReceipt {
    pub commit_id: String,
    pub revision: u64,
    pub through: u64,
}

impl Clone for DurableReceipt {
    fn clone(&self) -> (r: DurableReceipt)
        ensures
            r == *self,
    {
        DurableReceipt {
            commit_id: self.commit_id.clone(),
            revision: self.revision,
            through: self.through,
        }
    }
}

/// A receipt by its values.
pub ghost struct DurableReceiptView {
    pub commit_id: Seq<char>,
    pub revision: u64,
    pub through: u64,
}

impl View for DurableReceipt {
    type V = DurableReceiptView;

    open spec fn view(&self) -> DurableReceiptView {
        DurableReceiptView {
            commit_id: self.commit_id@,
            revision: self.revision,
            through: self.through,
        }
    }
}

/// A stored receipt by its values.
pub ghost struct StoredCoreReceiptView {
    pub digest: Seq<char>,
    pub receipt: DurableReceiptView,
}

impl View for StoredCoreReceipt {
    type V = StoredCoreReceiptView;

    open spec fn view(&self) -> StoredCoreReceiptView {
        StoredCoreReceiptView { digest: self.digest@, receipt: self.receipt@ }
    }
}

/// Receipts by their values.
pub open spec fn receipt_views(receipts: Seq<StoredCoreReceipt>) -> Seq<StoredCoreReceiptView> {
    receipts.map_values(|receipt: StoredCoreReceipt| receipt@)
}

/// A receipt with the digest of the commit that it was given for.
#[derive(Debug, PartialEq, Eq)]
pub struct StoredCoreReceipt {
    pub digest: String,
    pub receipt: DurableReceipt,
}

impl Clone for StoredCoreReceipt {
    fn clone(&self) -> (r: StoredCoreReceipt)
        ensures
            r == *self,
    {
        StoredCoreReceipt { digest: self.digest.clone(), receipt: self.receipt.clone() }
    }
}

/// Which runtime an agent call or record came from.
#[derive(Clone, Copy, Debug, PartialEq, Eq, Structural)]
pub struct Origin {
    pub number: u64,
    pub runtime: RuntimeId,
}

/// The state of an agent core: its snapshot, all its records, and the receipts of all commits.
#[derive(Debug, PartialEq, Eq)]
pub struct StoredCoreState {
    pub revision: u64,
    pub snapshot: CoreSnapshot,
    pub records: Vec<Record>,
    pub receipts: Vec<StoredCoreReceipt>,
    pub call_origins: Vec<Origin>,
    pub record_origins: Vec<Origin>,
}

/// A snapshot of an agent core: its encoded content and the last record that it covers.
#[derive(Debug, PartialEq, Eq)]
pub struct CoreSnapshot {
    pub encoded: String,
    pub through: u64,
}

impl Clone for CoreSnapshot {
    fn clone(&self) -> (r: CoreSnapshot)
        ensures
            r == *self,
    {
        CoreSnapshot { encoded: self.encoded.clone(), through: self.through }
    }
}

/// The state of an agent core by its values.
#[verifier::ext_equal]
pub ghost struct StoredCoreStateView {
    pub revision: u64,
    pub snapshot: CoreSnapshot,
    pub records: Seq<RecordView>,
    pub receipts: Seq<StoredCoreReceiptView>,
    pub call_origins: Seq<Origin>,
    pub record_origins: Seq<Origin>,
}

impl View for StoredCoreState {
    type V = StoredCoreStateView;

    open spec fn view(&self) -> StoredCoreStateView {
        StoredCoreStateView {
            revision: self.revision,
            snapshot: self.snapshot,
            records: crate::record::record_views(self.records@),
            receipts: receipt_views(self.receipts@),
            call_origins: self.call_origins@,
            record_origins: self.record_origins@,
        }
    }
}

/// All durable data of the application.
pub struct DataStore {
    pub workspaces: Vec<WorkspaceInfo>,
    pub sessions: Table<SavedSession>,
    pub journals: Table<Journal>,
    pub inputs: Table<InputView>,
    pub requests: Table<RequestRecord>,
    pub acceptance_requests: Table<AcceptanceRequestRecord>,
    pub acceptances: Table<AcceptanceRecord>,
    pub results: Table<StoredResult>,
    pub result_projections: Table<ProjectionState>,
    pub evidence_projections: Table<ProjectionState>,
    pub evidence_sources: Table<StoredEvidenceSource>,
    pub evidence_metadata: Table<StoredEvidenceMetadata>,
    pub evidence_bodies: Table<String>,
    pub waiting: Table<WaitingRecord>,
    pub unsettled: Table<UnresolvedWriteView>,
    pub attention_state: Option<AttentionProjectionState>,
    pub writes: Table<WriteAttempt>,
    pub write_resolutions: Table<StoredWriteResolution>,
    pub cores: Table<StoredCoreState>,
    pub core_calls: Table<RuntimeId>,
    pub core_records: Table<RuntimeId>,
    pub settings: Option<RuntimeSettings>,
    pub workspace_overrides: Table<RuntimeOverrides>,
    pub session_overrides: Table<RuntimeOverrides>,
    pub profiles: Option<Vec<Profile>>,
    pub creations: Table<CreationRecord>,
    /// The sessions whose first title may still be replaced.
    pub provisional: Table<bool>,
    /// The session that was selected last in each workspace.
    pub last_active: Table<SessionId>,
}

/// A workspace by its values.
pub ghost struct WorkspaceInfoView {
    pub id: WorkspaceId,
    pub root: Seq<u8>,
}

/// The catalogue of workspaces by its values.
pub open spec fn catalogue(workspaces: Seq<WorkspaceInfo>) -> Seq<WorkspaceInfoView> {
    workspaces.map_values(
        |workspace: WorkspaceInfo| WorkspaceInfoView { id: workspace.id, root: workspace.root@ },
    )
}

/// All durable data by its values.
#[verifier::ext_equal]
pub ghost struct StoreView {
    pub workspaces: Seq<WorkspaceInfoView>,
    pub sessions: Map<DocumentKey, SavedSessionView>,
    pub journals: Map<DocumentKey, Seq<StoredEntryView>>,
    pub inputs: Map<DocumentKey, InputView>,
    pub requests: Map<DocumentKey, RequestRecord>,
    pub acceptance_requests: Map<DocumentKey, AcceptanceRequestRecord>,
    pub acceptances: Map<DocumentKey, AcceptanceRecord>,
    pub results: Map<DocumentKey, StoredResultView>,
    pub result_projections: Map<DocumentKey, ProjectionState>,
    pub evidence_projections: Map<DocumentKey, ProjectionState>,
    pub evidence_sources: Map<DocumentKey, StoredEvidenceSource>,
    pub evidence_metadata: Map<DocumentKey, StoredEvidenceMetadataView>,
    pub evidence_bodies: Map<DocumentKey, Seq<char>>,
    pub waiting: Map<DocumentKey, WaitingRecord>,
    pub unsettled: Map<DocumentKey, UnresolvedWriteView>,
    pub attention_state: Option<AttentionProjectionState>,
    pub writes: Map<DocumentKey, WriteAttempt>,
    pub write_resolutions: Map<DocumentKey, StoredWriteResolution>,
    pub cores: Map<DocumentKey, StoredCoreStateView>,
    pub core_calls: Map<DocumentKey, RuntimeId>,
    pub core_records: Map<DocumentKey, RuntimeId>,
    pub settings: Option<RuntimeSettings>,
    pub workspace_overrides: Map<DocumentKey, RuntimeOverrides>,
    pub session_overrides: Map<DocumentKey, RuntimeOverrides>,
    pub profiles: Option<Seq<ProfileView>>,
    pub creations: Map<DocumentKey, CreationRecord>,
    pub provisional: Map<DocumentKey, bool>,
    pub last_active: Map<DocumentKey, SessionId>,
}

/// Profiles by their values.
pub open spec fn profile_views(profiles: Seq<Profile>) -> Seq<ProfileView> {
    profiles.map_values(|profile: Profile| profile@)
}

impl View for DataStore {
    type V = StoreView;

    open spec fn view(&self) -> StoreView {
        StoreView {
            workspaces: catalogue(self.workspaces@),
            sessions: self.sessions@.map_values(|saved: SavedSession| saved@),
            journals: self.journals@.map_values(|journal: Journal| journal@),
            inputs: self.inputs@,
            requests: self.requests@,
            acceptance_requests: self.acceptance_requests@,
            acceptances: self.acceptances@,
            results: self.results@.map_values(|result: StoredResult| result@),
            result_projections: self.result_projections@,
            evidence_projections: self.evidence_projections@,
            evidence_sources: self.evidence_sources@,
            evidence_metadata: self.evidence_metadata@.map_values(
                |metadata: StoredEvidenceMetadata| metadata@,
            ),
            evidence_bodies: self.evidence_bodies@.map_values(|body: String| body@),
            waiting: self.waiting@,
            unsettled: self.unsettled@,
            attention_state: self.attention_state,
            writes: self.writes@,
            write_resolutions: self.write_resolutions@,
            cores: self.cores@.map_values(|core: StoredCoreState| core@),
            core_calls: self.core_calls@,
            core_records: self.core_records@,
            settings: self.settings,
            workspace_overrides: self.workspace_overrides@,
            session_overrides: self.session_overrides@,
            profiles: match self.profiles {
                Some(profiles) => Some(profile_views(profiles@)),
                None => None,
            },
            creations: self.creations@,
            provisional: self.provisional@,
            last_active: self.last_active@,
        }
    }
}

impl DataStore {
    /// The store in a data directory, with what was read there; one without any data where nothing
    /// stands there. The directory must be named by an absolute path.
    pub fn open(data_dir: &FilePath, saved: Option<DataStore>) -> (r: Result<DataStore, StoreError>)
        ensures
            if absolute(data_dir@) {
                r matches Ok(store) && store@ == (match saved {
                    Some(saved) => saved@,
                    None => empty_store(),
                })
            } else {
                r matches Err(StoreError::RelativeRoot { path }) && path@ == data_dir@
            },
    {
        if !data_dir.is_absolute() {
            return Err(StoreError::RelativeRoot { path: data_dir.copy() });
        }
        match saved {
            Some(saved) => Ok(saved),
            None => Ok(DataStore::empty()),
        }
    }

    /// A store without any data.
    pub fn empty() -> (r: DataStore)
        ensures
            r@ == empty_store(),
    {
        let r = DataStore {
            workspaces: Vec::new(),
            sessions: Table::new(),
            journals: Table::new(),
            inputs: Table::new(),
            requests: Table::new(),
            acceptance_requests: Table::new(),
            acceptances: Table::new(),
            results: Table::new(),
            result_projections: Table::new(),
            evidence_projections: Table::new(),
            evidence_sources: Table::new(),
            evidence_metadata: Table::new(),
            evidence_bodies: Table::new(),
            waiting: Table::new(),
            unsettled: Table::new(),
            attention_state: None,
            writes: Table::new(),
            write_resolutions: Table::new(),
            cores: Table::new(),
            core_calls: Table::new(),
            core_records: Table::new(),
            settings: None,
            workspace_overrides: Table::new(),
            session_overrides: Table::new(),
            profiles: None,
            creations: Table::new(),
            provisional: Table::new(),
            last_active: Table::new(),
        };
        proof {
            assert(r@ =~= empty_store());
        }
        r
    }
}

/// A store without any data.
pub open spec fn empty_store() -> StoreView {
    StoreView {
        workspaces: Seq::empty(),
        sessions: Map::empty(),
        journals: Map::empty(),
        inputs: Map::empty(),
        requests: Map::empty(),
        acceptance_requests: Map::empty(),
        acceptances: Map::empty(),
        results: Map::empty(),
        result_projections: Map::empty(),
        evidence_projections: Map::empty(),
        evidence_sources: Map::empty(),
        evidence_metadata: Map::empty(),
        evidence_bodies: Map::empty(),
        waiting: Map::empty(),
        unsettled: Map::empty(),
        attention_state: None,
        writes: Map::empty(),
        write_resolutions: Map::empty(),
        cores: Map::empty(),
        core_calls: Map::empty(),
        core_records: Map::empty(),
        settings: None,
        workspace_overrides: Map::empty(),
        session_overrides: Map::empty(),
        profiles: None,
        creations: Map::empty(),
        provisional: Map::empty(),
        last_active: Map::empty(),
    }
}

} // verus!

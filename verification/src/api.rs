//! The values that a frontend exchanges with the application.

use vstd::prelude::*;

use crate::config::{copy_strings, ConfigProblem, ProfileId, RuntimeConfig, RuntimeConfigView};
use crate::error::Error;
use crate::ids::{
    AcceptanceId, AcceptanceRequestId, RequestId, RuntimeId, SessionId, WorkspaceId,
};
use crate::path::{joined, FilePath};
use crate::record::{copy_inputs, ExternalEffect, InputOutcome, OutcomeKind, ToolOutcome};
use crate::text::same_text;

verus! {

/// The number of an input inside its session.
#[derive(Clone, Copy, Debug, Default, PartialEq, Eq, PartialOrd, Ord, Hash, Structural)]
pub struct InputId(pub u64);

/// A position in the history of a session.
#[derive(Clone, Copy, Debug, Default, PartialEq, Eq, PartialOrd, Ord, Hash, Structural)]
pub struct SessionSeq(pub u64);

/// A job of a runtime.
#[derive(Clone, Copy, Debug, PartialEq, Eq, PartialOrd, Ord, Hash, Structural)]
pub struct JobRef {
    pub runtime: RuntimeId,
    pub id: u64,
}

/// A call of a runtime.
#[derive(Clone, Copy, Debug, PartialEq, Eq, PartialOrd, Ord, Hash, Structural)]
pub struct CallRef {
    pub runtime: RuntimeId,
    pub id: u64,
}

impl CallRef {
    /// Whether this call stands before `other`: by runtime, then by number.
    pub open spec fn precedes(self, other: CallRef) -> bool {
        self.runtime.0 < other.runtime.0 || (self.runtime == other.runtime && self.id < other.id)
    }

    /// The rank of this call: by runtime, then by number.
    pub open spec fn rank(self) -> int {
        self.runtime.0 * 0x1_0000_0000_0000_0000 + self.id
    }

    /// Whether this call stands before `other`.
    pub fn is_before(self, other: CallRef) -> (r: bool)
        ensures
            r == self.precedes(other),
            r == (self.rank() < other.rank()),
    {
        self.runtime.0 < other.runtime.0 || (self.runtime == other.runtime && self.id < other.id)
    }
}

/// A question that a runtime asked.
#[derive(Clone, Copy, Debug, PartialEq, Eq, PartialOrd, Ord, Hash, Structural)]
pub struct QuestionId {
    pub runtime: RuntimeId,
    pub record: u64,
    pub reply_to: InputId,
}

/// A text that the user submits, with its idempotency key.
#[derive(Debug, PartialEq, Eq)]
pub struct SubmitInput {
    pub request_id: RequestId,
    pub text: String,
    pub reply_to: Option<QuestionId>,
}

impl SubmitInput {
    /// A new standalone input under a fresh request.
    pub fn new(text: &str) -> (r: SubmitInput)
        ensures
            r.text@ == text@,
            r.reply_to is None,
            r.request_id.0 != 0,
    {
        SubmitInput { request_id: RequestId::new(), text: text.to_owned(), reply_to: None }
    }

    /// The same input as an answer to a question.
    pub fn answer(self, question: QuestionId) -> (r: SubmitInput)
        ensures
            r == (SubmitInput { reply_to: Some(question), ..self }),
    {
        SubmitInput { request_id: self.request_id, text: self.text, reply_to: Some(question) }
    }

    /// Whether two inputs have the same request, text and question.
    pub open spec fn agrees(self, other: SubmitInput) -> bool {
        &&& self.request_id == other.request_id
        &&& self.text@ == other.text@
        &&& self.reply_to == other.reply_to
    }

    /// Whether two inputs have the same request, text and question.
    pub fn same(&self, other: &SubmitInput) -> (r: bool)
        ensures
            r == self.agrees(*other),
    {
        self.request_id == other.request_id && same_text(self.text.as_str(), other.text.as_str())
            && same_question(self.reply_to, other.reply_to)
    }
}

/// Whether two optional questions are the same.
pub fn same_question(a: Option<QuestionId>, b: Option<QuestionId>) -> (r: bool)
    ensures
        r == (a == b),
{
    match (a, b) {
        (Some(x), Some(y)) => x == y,
        (None, None) => true,
        _ => false,
    }
}

impl Clone for SubmitInput {
    fn clone(&self) -> (r: SubmitInput)
        ensures
            r == *self,
    {
        SubmitInput {
            request_id: self.request_id,
            text: self.text.clone(),
            reply_to: self.reply_to,
        }
    }
}

/// Proof that an input is saved.
#[derive(Clone, Copy, Debug, PartialEq, Eq, Structural)]
pub struct SubmissionReceipt {
    pub input: InputId,
    pub saved_at: SessionSeq,
}

/// A workspace with its root directory.
#[derive(Debug, PartialEq, Eq)]
pub struct WorkspaceInfo {
    pub id: WorkspaceId,
    pub root: FilePath,
}

impl WorkspaceInfo {
    /// A copy of this value.
    pub fn copy(&self) -> (r: WorkspaceInfo)
        ensures
            r.id == self.id,
            r.root@ == self.root@,
    {
        WorkspaceInfo { id: self.id, root: self.root.copy() }
    }
}

/// A session as the user knows it.
#[derive(Debug, PartialEq, Eq)]
pub struct SessionInfo {
    pub id: SessionId,
    pub workspace: WorkspaceId,
    pub title: String,
    pub archived: bool,
}

impl Clone for SessionInfo {
    fn clone(&self) -> (r: SessionInfo)
        ensures
            r == *self,
    {
        SessionInfo {
            id: self.id,
            workspace: self.workspace,
            title: self.title.clone(),
            archived: self.archived,
        }
    }
}

/// A retry-safe request to create one session.
#[derive(Debug, PartialEq, Eq)]
pub struct CreateSessionRequest {
    pub request_id: RequestId,
    pub workspace: WorkspaceId,
    pub title: String,
    /// Whether the first input may replace the initial title once.
    pub provisional: bool,
}

/// What a workspace list shows of one session.
#[derive(Debug, PartialEq, Eq)]
pub struct SessionSummary {
    pub session: SessionInfo,
    pub has_draft: bool,
    pub draft_bytes: u64,
    pub persisted_runtime: Option<RuntimeId>,
    pub history_through: SessionSeq,
}

/// A durable condition that needs the user.
#[derive(Debug, PartialEq, Eq)]
pub enum AttentionItem {
    WaitingForUser {
        session: SessionId,
        inputs: Vec<InputId>,
        runtime: RuntimeId,
        question: QuestionId,
        text: String,
    },
    UnresolvedWrite { session: SessionId, call: CallRef, status: UnresolvedWriteStatus },
}

/// The state of a workspace for navigation.
#[derive(Debug, PartialEq, Eq)]
pub struct WorkspaceOverview {
    pub workspace: WorkspaceInfo,
    pub sessions: Vec<SessionSummary>,
    pub attention: Vec<AttentionItem>,
    pub unresolved_writes: Vec<UnresolvedWriteView>,
    /// Whether older attention items are still being collected.
    pub attention_projection_pending: bool,
}

/// The source-control baseline of a workspace change query.
#[derive(Debug, PartialEq, Eq)]
pub enum WorkspaceBaseline {
    NotGit,
    Git { head: Option<String> },
}

impl Clone for WorkspaceBaseline {
    fn clone(&self) -> (r: WorkspaceBaseline)
        ensures
            r == *self,
    {
        match self {
            WorkspaceBaseline::NotGit => WorkspaceBaseline::NotGit,
            WorkspaceBaseline::Git { head } => WorkspaceBaseline::Git { head: head.clone() },
        }
    }
}

/// One side of Git's two-column index and worktree status.
#[derive(Clone, Copy, Debug, PartialEq, Eq, Structural)]
pub enum GitFileState {
    Unchanged,
    Modified,
    Added,
    Deleted,
    Renamed,
    Copied,
    TypeChanged,
    Unmerged,
    Untracked,
    Unknown,
}

/// A file that differs from the baseline.
#[derive(Debug, PartialEq, Eq)]
pub struct WorkspaceChangedFile {
    pub path: String,
    pub in_index: bool,
    pub index: GitFileState,
    pub worktree: GitFileState,
}

/// Where the next page of changed files starts.
#[derive(Debug, PartialEq, Eq)]
pub struct WorkspaceChangeCursor {
    pub after: String,
    pub baseline: WorkspaceBaseline,
    pub root_identity: String,
}

/// A page of changed files.
#[derive(Debug, PartialEq, Eq)]
pub struct WorkspaceChangePage {
    pub baseline: WorkspaceBaseline,
    pub files: Vec<WorkspaceChangedFile>,
    pub next_cursor: Option<WorkspaceChangeCursor>,
}

/// What is read of a changed file.
#[derive(Clone, Copy, Debug, PartialEq, Eq, Structural)]
pub enum WorkspaceFileSource {
    DiffAgainstHead,
    WorkingTree,
}

/// What kind of content a changed file has.
#[derive(Clone, Copy, Debug, PartialEq, Eq, Structural)]
pub enum WorkspaceFileMedia {
    Text,
    Binary,
    Missing,
}

/// Byte-limited content of one changed file. `truncated` says that there is more of it.
#[derive(Debug, PartialEq, Eq)]
pub struct WorkspaceFileView {
    pub baseline: WorkspaceBaseline,
    pub path: String,
    pub source: WorkspaceFileSource,
    pub media: WorkspaceFileMedia,
    pub text: Option<String>,
    pub bytes_read: u64,
    pub total_bytes: Option<u64>,
    pub truncated: bool,
}

/// Where the next page of a changed file starts, bound to the content that was read.
#[derive(Debug, PartialEq, Eq)]
pub struct WorkspaceFileCursor {
    pub baseline: WorkspaceBaseline,
    pub path: String,
    pub source: WorkspaceFileSource,
    pub offset: u64,
    pub identity: String,
}

/// One byte-bounded page of a changed file.
#[derive(Debug, PartialEq, Eq)]
pub struct WorkspaceFilePage {
    pub baseline: WorkspaceBaseline,
    pub path: String,
    pub source: WorkspaceFileSource,
    pub media: WorkspaceFileMedia,
    pub text: Option<String>,
    pub offset: u64,
    pub bytes_read: u64,
    pub total_bytes: Option<u64>,
    pub next_cursor: Option<WorkspaceFileCursor>,
}

impl WorkspaceFilePage {
    /// The first page of a file as a view of the file: truncated where another page follows.
    pub fn into_view(self) -> (r: WorkspaceFileView)
        ensures
            r == (WorkspaceFileView {
                baseline: self.baseline,
                path: self.path,
                source: self.source,
                media: self.media,
                text: self.text,
                bytes_read: self.bytes_read,
                total_bytes: self.total_bytes,
                truncated: self.next_cursor is Some,
            }),
    {
        let truncated = self.next_cursor.is_some();
        WorkspaceFileView {
            baseline: self.baseline,
            path: self.path,
            source: self.source,
            media: self.media,
            text: self.text,
            bytes_read: self.bytes_read,
            total_bytes: self.total_bytes,
            truncated,
        }
    }
}

/// The state of a session's runtime.
#[derive(Debug, PartialEq, Eq)]
pub enum RuntimeState {
    Detached,
    Starting,
    Running { id: RuntimeId, config: Box<RuntimeConfig> },
    Closing { id: RuntimeId },
}

/// The state of an input.
#[derive(Debug, PartialEq, Eq)]
pub enum InputState {
    Queued { problem: Option<ConfigProblem> },
    Posting { runtime: RuntimeId },
    Accepted { runtime: RuntimeId },
    WaitingForUser { runtime: RuntimeId, question: QuestionId, text: String },
    RoutingFailed { runtime: RuntimeId, message: String },
    Finished { runtime: RuntimeId, outcome: InputOutcome },
    Rejected { message: String },
    Cancelled,
    Interrupted { runtime: RuntimeId },
}

impl InputState {
    /// Whether an input in this state is done with.
    pub open spec fn is_terminal(self) -> bool {
        self is Finished || self is Rejected || self is Cancelled || self is Interrupted
    }

    /// The runtime that an unfinished input has entered.
    pub open spec fn entered(self) -> Option<RuntimeId> {
        match self {
            InputState::Posting { runtime } => Some(runtime),
            InputState::Accepted { runtime } => Some(runtime),
            InputState::WaitingForUser { runtime, .. } => Some(runtime),
            InputState::RoutingFailed { runtime, .. } => Some(runtime),
            _ => None,
        }
    }

    /// Whether an input in this state is done with.
    pub fn terminal(&self) -> (r: bool)
        ensures
            r == self.is_terminal(),
    {
        match self {
            InputState::Finished { .. } => true,
            InputState::Rejected { .. } => true,
            InputState::Cancelled => true,
            InputState::Interrupted { .. } => true,
            _ => false,
        }
    }

    /// The runtime that an unfinished input has entered.
    pub fn entered_runtime(&self) -> (r: Option<RuntimeId>)
        ensures
            r == self.entered(),
    {
        match self {
            InputState::Posting { runtime } => Some(*runtime),
            InputState::Accepted { runtime } => Some(*runtime),
            InputState::WaitingForUser { runtime, .. } => Some(*runtime),
            InputState::RoutingFailed { runtime, .. } => Some(*runtime),
            _ => None,
        }
    }

    /// Whether this input waits for delivery.
    pub fn queued(&self) -> (r: bool)
        ensures
            r == (self is Queued),
    {
        match self {
            InputState::Queued { .. } => true,
            _ => false,
        }
    }
}

impl Clone for InputState {
    fn clone(&self) -> (r: InputState)
        ensures
            r == *self,
    {
        match self {
            InputState::Queued { problem } => InputState::Queued { problem: problem.clone() },
            InputState::Posting { runtime } => InputState::Posting { runtime: *runtime },
            InputState::Accepted { runtime } => InputState::Accepted { runtime: *runtime },
            InputState::WaitingForUser { runtime, question, text } => InputState::WaitingForUser {
                runtime: *runtime,
                question: *question,
                text: text.clone(),
            },
            InputState::RoutingFailed { runtime, message } => InputState::RoutingFailed {
                runtime: *runtime,
                message: message.clone(),
            },
            InputState::Finished { runtime, outcome } => InputState::Finished {
                runtime: *runtime,
                outcome: *outcome,
            },
            InputState::Rejected { message } => InputState::Rejected { message: message.clone() },
            InputState::Cancelled => InputState::Cancelled,
            InputState::Interrupted { runtime } => InputState::Interrupted { runtime: *runtime },
        }
    }
}

/// A saved input with its state.
#[derive(Debug, PartialEq, Eq)]
pub struct InputView {
    pub id: InputId,
    pub request_id: RequestId,
    pub text: String,
    pub reply_to: Option<QuestionId>,
    pub state: InputState,
}

impl Clone for InputView {
    fn clone(&self) -> (r: InputView)
        ensures
            r == *self,
    {
        InputView {
            id: self.id,
            request_id: self.request_id,
            text: self.text.clone(),
            reply_to: self.reply_to,
            state: self.state.clone(),
        }
    }
}

/// The state of a job.
#[derive(Debug, PartialEq, Eq)]
pub enum JobState {
    Ready,
    Running,
    Waiting(WaitReason),
    Paused,
    Finished { outcome: OutcomeKind, summary: String },
}

/// Who asked for a job.
#[derive(Clone, Copy, Debug, PartialEq, Eq, Structural)]
pub enum JobOwner {
    User,
    Job(JobRef),
    Routing,
}

/// What a job waits for.
#[derive(Debug, PartialEq, Eq)]
pub enum WaitReason {
    Tool(CallRef),
    Timer,
    Jobs(Vec<JobRef>),
    User,
    Job(JobRef),
    Result(JobRef),
    Inquiry,
    Coordination,
    Commit,
}

/// The latest report of a job.
#[derive(Debug, PartialEq, Eq)]
pub struct JobReport {
    pub summary: String,
}

/// A version of a job's result.
#[derive(Clone, Copy, Debug, PartialEq, Eq, PartialOrd, Ord, Hash, Structural)]
pub struct ResultRef {
    pub session: SessionId,
    pub job: JobRef,
    pub version: SessionSeq,
}

/// A result in a list.
#[derive(Debug, PartialEq, Eq)]
pub struct ResultSummary {
    pub result: ResultRef,
    pub outcome: OutcomeKind,
    pub summary: String,
    pub remaining: Vec<String>,
}

/// A record that a result cites.
#[derive(Clone, Copy, Debug, PartialEq, Eq, PartialOrd, Ord, Hash, Structural)]
pub struct EvidenceRef {
    pub session: SessionId,
    pub record: u64,
}

/// A result with the number of sources that it cites.
#[derive(Debug, PartialEq, Eq)]
pub struct ResultArtifact {
    pub result: ResultRef,
    pub outcome: OutcomeKind,
    pub summary: String,
    pub remaining: Vec<String>,
    pub evidence_count: usize,
}

/// What a cited source is.
#[derive(Clone, Copy, Debug, PartialEq, Eq, Structural)]
pub enum EvidenceSourceKind {
    ToolResult,
    PublishedReport,
    Reply,
}

/// Whether a cited source can be shown.
#[derive(Debug, PartialEq, Eq)]
pub enum EvidenceAvailability {
    Available { kind: EvidenceSourceKind, title: String },
    Private,
    Missing,
}

/// A cited source in a list.
#[derive(Debug, PartialEq, Eq)]
pub struct EvidenceSummary {
    pub source: EvidenceRef,
    pub availability: EvidenceAvailability,
}

/// Where the next page of a result's sources starts.
#[derive(Clone, Copy, Debug, PartialEq, Eq, Structural)]
pub struct EvidenceCursor {
    pub result: ResultRef,
    pub offset: usize,
}

impl EvidenceCursor {
    /// A cursor behind the first `offset` sources of a result.
    pub fn new(result: ResultRef, offset: usize) -> (r: EvidenceCursor)
        ensures
            r == (EvidenceCursor { result, offset }),
    {
        EvidenceCursor { result, offset }
    }

    /// The result that this cursor belongs to.
    pub fn result(self) -> (r: ResultRef)
        ensures
            r == self.result,
    {
        self.result
    }

    /// The number of sources before the page.
    pub fn offset(self) -> (r: usize)
        ensures
            r == self.offset,
    {
        self.offset
    }
}

/// A page of the sources that a result cites.
#[derive(Debug, PartialEq, Eq)]
pub struct EvidencePage {
    pub result: ResultRef,
    pub items: Vec<EvidenceSummary>,
    pub next_cursor: Option<EvidenceCursor>,
    /// Whether older sources are still being collected.
    pub projection_pending: bool,
}

/// One byte-bounded page of a source's body.
#[derive(Debug, PartialEq, Eq)]
pub struct EvidenceSourcePage {
    pub source: EvidenceRef,
    pub availability: EvidenceAvailability,
    pub text: Option<String>,
    pub offset: u64,
    pub next_offset: Option<u64>,
    pub total_bytes: Option<u64>,
    pub projection_pending: bool,
}

/// A page of results.
#[derive(Debug, PartialEq, Eq)]
pub struct ResultPage {
    pub items: Vec<ResultSummary>,
    pub older_cursor: Option<HistoryCursor>,
    pub snapshot_through: SessionSeq,
    /// Whether older results are still being collected.
    pub projection_pending: bool,
}

/// The user's decision on a result.
#[derive(Clone, Copy, Debug, PartialEq, Eq, Structural)]
pub enum AcceptanceDecision {
    Accepted,
    PartiallyAccepted,
    AcceptedWithRisk,
    Rejected,
}

/// A decision that the user submits, with its idempotency key.
#[derive(Debug, PartialEq, Eq)]
pub struct AcceptanceSubmission {
    pub request_id: AcceptanceRequestId,
    pub result: ResultRef,
    pub decision: AcceptanceDecision,
    pub reason: String,
    pub rework: Option<SubmitInput>,
}

impl AcceptanceSubmission {
    /// Whether two submissions have the same content.
    pub open spec fn agrees(self, other: AcceptanceSubmission) -> bool {
        &&& self.request_id == other.request_id
        &&& self.result == other.result
        &&& self.decision == other.decision
        &&& self.reason@ == other.reason@
        &&& match (self.rework, other.rework) {
            (Some(a), Some(b)) => a.agrees(b),
            (None, None) => true,
            _ => false,
        }
    }

    /// Whether two submissions have the same content.
    pub fn same(&self, other: &AcceptanceSubmission) -> (r: bool)
        ensures
            r == self.agrees(*other),
    {
        if self.request_id != other.request_id || self.result != other.result || self.decision
            != other.decision || !same_text(self.reason.as_str(), other.reason.as_str()) {
            return false;
        }
        match (&self.rework, &other.rework) {
            (Some(a), Some(b)) => a.same(b),
            (None, None) => true,
            _ => false,
        }
    }
}

impl Clone for AcceptanceSubmission {
    fn clone(&self) -> (r: AcceptanceSubmission)
        ensures
            r == *self,
    {
        AcceptanceSubmission {
            request_id: self.request_id,
            result: self.result,
            decision: self.decision,
            reason: self.reason.clone(),
            rework: self.rework.clone(),
        }
    }
}

/// A recorded decision.
#[derive(Debug, PartialEq, Eq)]
pub struct AcceptanceRecord {
    pub id: AcceptanceId,
    pub request_id: AcceptanceRequestId,
    pub result: ResultRef,
    pub decision: AcceptanceDecision,
    pub reason: String,
    pub saved_at: SessionSeq,
    pub rework: Option<SubmissionReceipt>,
}

impl Clone for AcceptanceRecord {
    fn clone(&self) -> (r: AcceptanceRecord)
        ensures
            r == *self,
    {
        AcceptanceRecord {
            id: self.id,
            request_id: self.request_id,
            result: self.result,
            decision: self.decision,
            reason: self.reason.clone(),
            saved_at: self.saved_at,
            rework: self.rework,
        }
    }
}

/// Proof that a decision is saved.
#[derive(Clone, Copy, Debug, PartialEq, Eq, Structural)]
pub struct AcceptanceReceipt {
    pub id: AcceptanceId,
    pub saved_at: SessionSeq,
    pub rework: Option<SubmissionReceipt>,
}

/// Where the next page of older decisions starts.
#[derive(Clone, Copy, Debug, PartialEq, Eq, Structural)]
pub struct AcceptanceCursor {
    pub result: ResultRef,
    pub before: SessionSeq,
}

impl AcceptanceCursor {
    /// A cursor before a position.
    pub fn new(result: ResultRef, before: SessionSeq) -> (r: AcceptanceCursor)
        ensures
            r == (AcceptanceCursor { result, before }),
    {
        AcceptanceCursor { result, before }
    }

    /// The result that this cursor belongs to.
    pub fn result(self) -> (r: ResultRef)
        ensures
            r == self.result,
    {
        self.result
    }

    /// The position that the page ends before.
    pub fn before(self) -> (r: SessionSeq)
        ensures
            r == self.before,
    {
        self.before
    }
}

/// A page of decisions.
#[derive(Debug, PartialEq, Eq)]
pub struct AcceptancePage {
    pub items: Vec<AcceptanceRecord>,
    pub older_cursor: Option<AcceptanceCursor>,
}

/// A job as it is shown.
#[derive(Debug, PartialEq, Eq)]
pub struct JobView {
    pub id: JobRef,
    pub owner: JobOwner,
    pub inputs: Vec<InputId>,
    pub goal: String,
    pub scope: String,
    pub done_when: String,
    pub state: JobState,
    pub report: Option<JobReport>,
}

/// What a running call does.
#[derive(Debug, PartialEq, Eq)]
pub enum ActivityKind {
    Coordinate,
    Work,
    Compact,
    Tool { name: String },
}

/// A running call as it is shown.
#[derive(Debug, PartialEq, Eq)]
pub struct ActivityView {
    pub call: CallRef,
    pub job: Option<JobRef>,
    pub kind: ActivityKind,
    pub progress: Option<String>,
}

/// A write whose effect is not settled. Arguments are JSON text.
#[derive(Debug, PartialEq, Eq)]
pub struct UnresolvedWriteView {
    pub workspace: WorkspaceId,
    pub session: SessionId,
    pub call: CallRef,
    pub job: Option<JobRef>,
    pub status: UnresolvedWriteStatus,
    pub tool: String,
    pub arguments: String,
    pub outcome: Option<ToolOutcome>,
}

impl Clone for UnresolvedWriteView {
    fn clone(&self) -> (r: UnresolvedWriteView)
        ensures
            r == *self,
    {
        UnresolvedWriteView {
            workspace: self.workspace,
            session: self.session,
            call: self.call,
            job: self.job,
            status: self.status,
            tool: self.tool.clone(),
            arguments: self.arguments.clone(),
            outcome: self.outcome.clone(),
        }
    }
}

/// Whether an unsettled write has returned.
#[derive(Clone, Copy, Debug, PartialEq, Eq, Structural)]
pub enum UnresolvedWriteStatus {
    Pending,
    Finished,
}

/// A problem of a session that a frontend can act on.
#[derive(Debug, PartialEq, Eq)]
pub enum AppProblem {
    Configuration(ConfigProblem),
    LoginRequired(ProfileId),
    ProfileBusy(ProfileId),
    Provider(String),
    Storage(String),
    Tools(String),
    Agent(String),
}

impl Clone for AppProblem {
    fn clone(&self) -> (r: AppProblem)
        ensures
            r == *self,
    {
        match self {
            AppProblem::Configuration(problem) => AppProblem::Configuration(problem.clone()),
            AppProblem::LoginRequired(profile) => AppProblem::LoginRequired(profile.clone()),
            AppProblem::ProfileBusy(profile) => AppProblem::ProfileBusy(profile.clone()),
            AppProblem::Provider(message) => AppProblem::Provider(message.clone()),
            AppProblem::Storage(message) => AppProblem::Storage(message.clone()),
            AppProblem::Tools(message) => AppProblem::Tools(message.clone()),
            AppProblem::Agent(message) => AppProblem::Agent(message.clone()),
        }
    }
}

/// The user's finding on an unsettled write.
#[derive(Debug, PartialEq, Eq)]
pub struct WriteResolution {
    pub external_effect: ExternalEffect,
    pub evidence: String,
}

impl Clone for WriteResolution {
    fn clone(&self) -> (r: WriteResolution)
        ensures
            r == *self,
    {
        WriteResolution { external_effect: self.external_effect, evidence: self.evidence.clone() }
    }
}

/// The state of a session as a frontend sees it.
#[derive(Debug, PartialEq, Eq)]
pub struct SessionView {
    pub session: SessionInfo,
    pub runtime: RuntimeState,
    pub draft: String,
    pub inputs: Vec<InputView>,
    pub jobs: Vec<JobView>,
    pub activity: Vec<ActivityView>,
    pub history_through: SessionSeq,
    pub problem: Option<AppProblem>,
}

/// One event of a history page.
#[derive(Debug, PartialEq, Eq)]
pub struct HistoryEntry {
    pub sequence: SessionSeq,
    pub occurred_at: i64,
    pub event: SessionEvent,
}

/// A page of history in ascending order.
#[derive(Debug, PartialEq, Eq)]
pub struct HistoryPage {
    pub items: Vec<HistoryEntry>,
    pub next_cursor: SessionSeq,
    pub has_more: bool,
}

/// Where the next page of older history starts, in a fixed snapshot of the journal.
#[derive(Clone, Copy, Debug, PartialEq, Eq, Structural)]
pub struct HistoryCursor {
    pub session: SessionId,
    pub before: SessionSeq,
    pub through: SessionSeq,
}

impl HistoryCursor {
    /// A cursor before a position of a snapshot.
    pub fn new(session: SessionId, before: SessionSeq, through: SessionSeq) -> (r: HistoryCursor)
        ensures
            r == (HistoryCursor { session, before, through }),
    {
        HistoryCursor { session, before, through }
    }

    /// The session that this cursor belongs to.
    pub fn session(self) -> (r: SessionId)
        ensures
            r == self.session,
    {
        self.session
    }

    /// The position that the page ends before.
    pub fn before(self) -> (r: SessionSeq)
        ensures
            r == self.before,
    {
        self.before
    }

    /// The last position of the snapshot.
    pub fn snapshot_through(self) -> (r: SessionSeq)
        ensures
            r == self.through,
    {
        self.through
    }
}

/// A page from the recent end of history, in ascending order.
#[derive(Debug, PartialEq, Eq)]
pub struct RecentHistoryPage {
    pub items: Vec<HistoryEntry>,
    pub older_cursor: Option<HistoryCursor>,
    pub snapshot_through: SessionSeq,
}

/// A fact in the history of a session.
#[derive(Debug, PartialEq, Eq)]
pub enum SessionEvent {
    InputSubmitted { input: InputId, request_id: RequestId, text: String, reply_to: Option<QuestionId> },
    InputAccepted { input: InputId, runtime: RuntimeId },
    InputRejected { input: InputId, message: String },
    InputCancelled { input: InputId },
    RuntimeStarted { runtime: RuntimeId, config: Box<RuntimeConfig> },
    RuntimeReconfigured { runtime: RuntimeId, config: Box<RuntimeConfig> },
    RuntimeClosed { runtime: RuntimeId },
    Reply { job: JobRef, inputs: Vec<InputId>, text: String },
    QuestionAsked { question: QuestionId, inputs: Vec<InputId>, text: String },
    RoutingFailed { runtime: RuntimeId, inputs: Vec<InputId>, message: String },
    JobFinished { job: JobRef, outcome: OutcomeKind, summary: String, remaining: Vec<String> },
    AcceptanceRecorded { acceptance: AcceptanceId, result: ResultRef, decision: AcceptanceDecision, reason: String },
    InputFinished { runtime: RuntimeId, input: InputId, outcome: InputOutcome },
    ToolFinished { call: CallRef, job: JobRef, tool: String, outcome: ToolOutcome },
    Interrupted { runtime: RuntimeId, inputs: Vec<InputId> },
    WriteResolved { call: CallRef, external_effect: ExternalEffect, evidence: String },
}

/// A session event by its values.
pub ghost enum SessionEventView {
    InputSubmitted { input: InputId, request_id: RequestId, text: String, reply_to: Option<QuestionId> },
    InputAccepted { input: InputId, runtime: RuntimeId },
    InputRejected { input: InputId, message: String },
    InputCancelled { input: InputId },
    RuntimeStarted { runtime: RuntimeId, config: RuntimeConfigView },
    RuntimeReconfigured { runtime: RuntimeId, config: RuntimeConfigView },
    RuntimeClosed { runtime: RuntimeId },
    Reply { job: JobRef, inputs: Seq<InputId>, text: String },
    QuestionAsked { question: QuestionId, inputs: Seq<InputId>, text: String },
    RoutingFailed { runtime: RuntimeId, inputs: Seq<InputId>, message: String },
    JobFinished { job: JobRef, outcome: OutcomeKind, summary: String, remaining: Seq<String> },
    AcceptanceRecorded { acceptance: AcceptanceId, result: ResultRef, decision: AcceptanceDecision, reason: String },
    InputFinished { runtime: RuntimeId, input: InputId, outcome: InputOutcome },
    ToolFinished { call: CallRef, job: JobRef, tool: String, outcome: ToolOutcome },
    Interrupted { runtime: RuntimeId, inputs: Seq<InputId> },
    WriteResolved { call: CallRef, external_effect: ExternalEffect, evidence: String },
}

impl View for SessionEvent {
    type V = SessionEventView;

    open spec fn view(&self) -> SessionEventView {
        match self {
            SessionEvent::InputSubmitted { input, request_id, text, reply_to } => SessionEventView::InputSubmitted {
                input: *input,
                request_id: *request_id,
                text: *text,
                reply_to: *reply_to,
            },
            SessionEvent::InputAccepted { input, runtime } => SessionEventView::InputAccepted {
                input: *input,
                runtime: *runtime,
            },
            SessionEvent::InputRejected { input, message } => SessionEventView::InputRejected {
                input: *input,
                message: *message,
            },
            SessionEvent::InputCancelled { input } => SessionEventView::InputCancelled {
                input: *input,
            },
            SessionEvent::RuntimeStarted { runtime, config } => SessionEventView::RuntimeStarted {
                runtime: *runtime,
                config: (*config)@,
            },
            SessionEvent::RuntimeReconfigured { runtime, config } => SessionEventView::RuntimeReconfigured {
                runtime: *runtime,
                config: (*config)@,
            },
            SessionEvent::RuntimeClosed { runtime } => SessionEventView::RuntimeClosed {
                runtime: *runtime,
            },
            SessionEvent::Reply { job, inputs, text } => SessionEventView::Reply {
                job: *job,
                inputs: inputs@,
                text: *text,
            },
            SessionEvent::QuestionAsked { question, inputs, text } => SessionEventView::QuestionAsked {
                question: *question,
                inputs: inputs@,
                text: *text,
            },
            SessionEvent::RoutingFailed { runtime, inputs, message } => SessionEventView::RoutingFailed {
                runtime: *runtime,
                inputs: inputs@,
                message: *message,
            },
            SessionEvent::JobFinished { job, outcome, summary, remaining } => SessionEventView::JobFinished {
                job: *job,
                outcome: *outcome,
                summary: *summary,
                remaining: remaining@,
            },
            SessionEvent::AcceptanceRecorded { acceptance, result, decision, reason } => SessionEventView::AcceptanceRecorded {
                acceptance: *acceptance,
                result: *result,
                decision: *decision,
                reason: *reason,
            },
            SessionEvent::InputFinished { runtime, input, outcome } => SessionEventView::InputFinished {
                runtime: *runtime,
                input: *input,
                outcome: *outcome,
            },
            SessionEvent::ToolFinished { call, job, tool, outcome } => SessionEventView::ToolFinished {
                call: *call,
                job: *job,
                tool: *tool,
                outcome: *outcome,
            },
            SessionEvent::Interrupted { runtime, inputs } => SessionEventView::Interrupted {
                runtime: *runtime,
                inputs: inputs@,
            },
            SessionEvent::WriteResolved { call, external_effect, evidence } => SessionEventView::WriteResolved {
                call: *call,
                external_effect: *external_effect,
                evidence: *evidence,
            },
        }
    }
}

impl SessionEvent {
    /// A copy of this event.
    pub fn copy(&self) -> (r: SessionEvent)
        ensures
            r@ == self@,
    {
        match self {
            SessionEvent::InputSubmitted { input, request_id, text, reply_to } => SessionEvent::InputSubmitted {
                input: *input,
                request_id: *request_id,
                text: text.clone(),
                reply_to: *reply_to,
            },
            SessionEvent::InputAccepted { input, runtime } => SessionEvent::InputAccepted {
                input: *input,
                runtime: *runtime,
            },
            SessionEvent::InputRejected { input, message } => SessionEvent::InputRejected {
                input: *input,
                message: message.clone(),
            },
            SessionEvent::InputCancelled { input } => SessionEvent::InputCancelled {
                input: *input,
            },
            SessionEvent::RuntimeStarted { runtime, config } => SessionEvent::RuntimeStarted {
                runtime: *runtime,
                config: Box::new(config.copy()),
            },
            SessionEvent::RuntimeReconfigured { runtime, config } => SessionEvent::RuntimeReconfigured {
                runtime: *runtime,
                config: Box::new(config.copy()),
            },
            SessionEvent::RuntimeClosed { runtime } => SessionEvent::RuntimeClosed {
                runtime: *runtime,
            },
            SessionEvent::Reply { job, inputs, text } => SessionEvent::Reply {
                job: *job,
                inputs: copy_inputs(inputs),
                text: text.clone(),
            },
            SessionEvent::QuestionAsked { question, inputs, text } => SessionEvent::QuestionAsked {
                question: *question,
                inputs: copy_inputs(inputs),
                text: text.clone(),
            },
            SessionEvent::RoutingFailed { runtime, inputs, message } => SessionEvent::RoutingFailed {
                runtime: *runtime,
                inputs: copy_inputs(inputs),
                message: message.clone(),
            },
            SessionEvent::JobFinished { job, outcome, summary, remaining } => SessionEvent::JobFinished {
                job: *job,
                outcome: *outcome,
                summary: summary.clone(),
                remaining: copy_strings(remaining),
            },
            SessionEvent::AcceptanceRecorded { acceptance, result, decision, reason } => SessionEvent::AcceptanceRecorded {
                acceptance: *acceptance,
                result: *result,
                decision: *decision,
                reason: reason.clone(),
            },
            SessionEvent::InputFinished { runtime, input, outcome } => SessionEvent::InputFinished {
                runtime: *runtime,
                input: *input,
                outcome: *outcome,
            },
            SessionEvent::ToolFinished { call, job, tool, outcome } => SessionEvent::ToolFinished {
                call: *call,
                job: *job,
                tool: tool.clone(),
                outcome: outcome.clone(),
            },
            SessionEvent::Interrupted { runtime, inputs } => SessionEvent::Interrupted {
                runtime: *runtime,
                inputs: copy_inputs(inputs),
            },
            SessionEvent::WriteResolved { call, external_effect, evidence } => SessionEvent::WriteResolved {
                call: *call,
                external_effect: *external_effect,
                evidence: evidence.clone(),
            },
        }
    }
}

/// What the user does with a job.
#[derive(Clone, Copy, Debug, PartialEq, Eq, Structural)]
pub enum JobControl {
    Pause,
    Resume,
    Cancel,
}

/// Whether a command changed anything.
#[derive(Clone, Copy, Debug, PartialEq, Eq, Structural)]
pub enum CommandReceipt {
    Applied,
    Unchanged,
}

/// Why a session is not released.
#[derive(Clone, Copy, Debug, PartialEq, Eq, Structural)]
pub enum SessionRetentionReason {
    ReleaseInProgress,
    Starting,
    ActiveWork,
    PersistenceInFlight,
    UnresolvedWrites,
}

/// What came of an attempt to release a session.
#[derive(Clone, Copy, Debug, PartialEq, Eq, Structural)]
pub enum SessionReleaseStatus {
    Released,
    NotOpen,
    Retained(SessionRetentionReason),
}

/// The result of one attempt to release a session.
#[derive(Clone, Copy, Debug, PartialEq, Eq, Structural)]
pub struct SessionReleaseReceipt {
    pub session: SessionId,
    pub status: SessionReleaseStatus,
}

/// What a closed runtime leaves behind.
#[derive(Debug, PartialEq, Eq)]
pub struct CloseReport {
    pub unresolved_writes: Vec<UnresolvedWriteView>,
}

/// What a closed application leaves behind.
#[derive(Debug, PartialEq, Eq)]
pub struct AppShutdownReport {
    pub unresolved_writes: Vec<UnresolvedWriteView>,
}

/// Where the application keeps its data.
#[derive(Debug, PartialEq, Eq)]
pub struct AppOptions {
    pub data_dir: FilePath,
}

/// The state of a login.
#[derive(Debug, PartialEq, Eq)]
pub enum LoginState {
    Connecting,
    DeviceCode { verification_uri: String, user_code: String },
    Succeeded,
    Failed { message: String },
    Cancelled,
}

/// The data directory that the environment selects: an explicit one, else `bone` in the user's
/// data home, else `.local/share/bone` in the home directory.
pub open spec fn platform_data_dir(
    explicit: Option<FilePath>,
    data_home: Option<FilePath>,
    home: Option<FilePath>,
) -> Option<Seq<u8>> {
    match explicit {
        Some(path) => Some(path@),
        None => match data_home {
            Some(path) => Some(joined(path@, vstd::utf8::encode_utf8("bone"@))),
            None => match home {
                Some(path) => Some(
                    joined(path@, vstd::utf8::encode_utf8(".local/share/bone"@)),
                ),
                None => None,
            },
        },
    }
}

impl AppOptions {
    /// Options with the given data directory.
    pub fn new(data_dir: FilePath) -> (r: AppOptions)
        ensures
            r.data_dir == data_dir,
    {
        AppOptions { data_dir }
    }

    /// Options with the data directory that the environment selects: the values of
    /// `BONE_DATA_DIR`, `XDG_DATA_HOME` and `HOME`.
    pub fn platform_default(
        explicit: Option<FilePath>,
        data_home: Option<FilePath>,
        home: Option<FilePath>,
    ) -> (r: Result<AppOptions, Error>)
        ensures
            match r {
                Ok(options) => platform_data_dir(explicit, data_home, home) == Some(
                    options.data_dir@,
                ),
                Err(error) => {
                    &&& platform_data_dir(explicit, data_home, home) is None
                    &&& error matches Error::InvalidState(message)
                    &&& message@ == "cannot determine platform data directory; set BONE_DATA_DIR"@
                },
            },
    {
        match explicit {
            Some(path) => Ok(AppOptions::new(path)),
            None => match data_home {
                Some(path) => Ok(AppOptions::new(path.join(&FilePath::from_text("bone")))),
                None => match home {
                    Some(path) => Ok(
                        AppOptions::new(path.join(&FilePath::from_text(".local/share/bone"))),
                    ),
                    None => Err(
                        Error::InvalidState(
                            "cannot determine platform data directory; set BONE_DATA_DIR".to_owned(),
                        ),
                    ),
                },
            },
        }
    }
}

/// The view of a session that nothing is known of but its own data.
pub fn default_view(info: SessionInfo) -> (r: SessionView)
    ensures
        r.session == info,
        r.runtime is Detached,
        r.draft@ == Seq::<char>::empty(),
        r.inputs@ == Seq::<InputView>::empty(),
        r.jobs@ == Seq::<JobView>::empty(),
        r.activity@ == Seq::<ActivityView>::empty(),
        r.history_through == SessionSeq(0),
        r.problem is None,
{
    SessionView {
        session: info,
        runtime: RuntimeState::Detached,
        draft: String::new(),
        inputs: Vec::new(),
        jobs: Vec::new(),
        activity: Vec::new(),
        history_through: SessionSeq(0),
        problem: None,
    }
}

} // verus!

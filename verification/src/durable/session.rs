//! Records of logical sessions: what they hold and when they are valid.

use vstd::prelude::*;
use vstd::utf8::{encode_utf8, is_char_boundary};

use super::error::{RecordError, SessionStoreError};
use super::time::UnixMillis;
use super::workspace::{CanonicalPath, WorkspaceContext};
use crate::config::ModelSelection;
use crate::ids::{SessionId, WorkspaceId};
use crate::path::absolute;
use crate::text::{blank, byte_count, byte_len, is_blank};

verus! {

/// The longest title.
pub const MAX_TITLE_BYTES: usize = 512;

/// The longest draft.
pub const MAX_DRAFT_BYTES: usize = 1048576;

/// The text of a draft, and where its cursor stands.
#[derive(Debug, Default, PartialEq, Eq)]
pub struct SessionDraft {
    pub text: String,
    pub cursor_byte_offset: usize,
}

impl Clone for SessionDraft {
    fn clone(&self) -> (r: SessionDraft)
        ensures
            r == *self,
    {
        SessionDraft { text: self.text.clone(), cursor_byte_offset: self.cursor_byte_offset }
    }
}

impl SessionDraft {
    /// What is wrong with this draft.
    pub open spec fn problem(self) -> Option<RecordError> {
        if byte_count(self.text@) > MAX_DRAFT_BYTES {
            Some(
                RecordError::ValueTooLong {
                    field: "session draft",
                    maximum_bytes: MAX_DRAFT_BYTES,
                },
            )
        } else if self.cursor_byte_offset > byte_count(self.text@) || !is_char_boundary(
            encode_utf8(self.text@),
            self.cursor_byte_offset as int,
        ) {
            Some(RecordError::InvalidDraftCursor)
        } else {
            None
        }
    }

    /// A draft, refused unless it is valid.
    pub fn new(text: &str, cursor_byte_offset: usize) -> (r: Result<SessionDraft, RecordError>)
        ensures
            match r {
                Ok(draft) => {
                    &&& draft.text@ == text@
                    &&& draft.cursor_byte_offset == cursor_byte_offset
                    &&& draft.problem() is None
                },
                Err(error) => exists|draft: SessionDraft|
                    draft.text@ == text@ && draft.cursor_byte_offset == cursor_byte_offset
                        && #[trigger] draft.problem() == Some(error),
            },
    {
        let draft = SessionDraft { text: text.to_owned(), cursor_byte_offset };
        match draft.validate() {
            Ok(_) => Ok(draft),
            Err(error) => Err(error),
        }
    }

    /// A draft without text.
    pub fn empty() -> (r: SessionDraft)
        ensures
            r.text@ == Seq::<char>::empty(),
            r.cursor_byte_offset == 0,
    {
        SessionDraft { text: String::new(), cursor_byte_offset: 0 }
    }

    /// Checks this draft.
    pub fn validate(&self) -> (r: Result<(), RecordError>)
        ensures
            r == (match self.problem() {
                Some(error) => Err::<(), RecordError>(error),
                None => Ok(()),
            }),
    {
        let length: usize = byte_len(self.text.as_str());
        if length > MAX_DRAFT_BYTES {
            return Err(
                RecordError::ValueTooLong {
                    field: "session draft",
                    maximum_bytes: MAX_DRAFT_BYTES,
                },
            );
        }
        if self.cursor_byte_offset > length || !self.text.as_str().is_char_boundary(
            self.cursor_byte_offset,
        ) {
            return Err(RecordError::InvalidDraftCursor);
        }
        Ok(())
    }
}

/// Whether a session is shown.
#[derive(Clone, Copy, Debug, PartialEq, Eq, Structural)]
pub enum SessionLifecycle {
    Active,
    Archived,
    Deleted,
}

/// What a session's execution was last known to do.
#[derive(Clone, Copy, Debug, PartialEq, Eq, Structural)]
pub enum SessionExecution {
    Draft,
    QueuedForSetup,
    QueuedForRuntime,
    Opening,
    Ready,
    Working,
    WaitingForUser,
    Stopping,
    Complete,
    Interrupted,
    Offline,
}

/// Whether a runtime was last known to be attached.
#[derive(Clone, Copy, Debug, PartialEq, Eq, Structural)]
pub enum RuntimeAttachment {
    Detached,
    Attaching,
    Attached,
}

/// Whether the durable state can be edited here.
#[derive(Clone, Copy, Debug, PartialEq, Eq, Structural)]
pub enum SessionAvailability {
    Local,
    ReadOnlyElsewhere,
    Offline,
    Corrupt,
}

/// A flag of a session.
#[derive(Clone, Copy, Debug, PartialEq, Eq, PartialOrd, Ord, Structural)]
pub enum SessionAttention {
    Unread,
    UnresolvedEffect,
    ConfigPending,
    RecoveryNeeded,
}

/// A set of flags.
#[derive(Clone, Copy, Debug, PartialEq, Eq, Structural)]
pub struct AttentionFlags {
    pub unread: bool,
    pub unresolved_effect: bool,
    pub config_pending: bool,
    pub recovery_needed: bool,
}

impl AttentionFlags {
    /// No flag.
    pub open spec fn none() -> AttentionFlags {
        AttentionFlags {
            unread: false,
            unresolved_effect: false,
            config_pending: false,
            recovery_needed: false,
        }
    }

    /// Whether a flag is set.
    pub open spec fn has(self, flag: SessionAttention) -> bool {
        match flag {
            SessionAttention::Unread => self.unread,
            SessionAttention::UnresolvedEffect => self.unresolved_effect,
            SessionAttention::ConfigPending => self.config_pending,
            SessionAttention::RecoveryNeeded => self.recovery_needed,
        }
    }

    /// Whether a flag is set.
    pub fn contains(&self, flag: SessionAttention) -> (r: bool)
        ensures
            r == self.has(flag),
    {
        match flag {
            SessionAttention::Unread => self.unread,
            SessionAttention::UnresolvedEffect => self.unresolved_effect,
            SessionAttention::ConfigPending => self.config_pending,
            SessionAttention::RecoveryNeeded => self.recovery_needed,
        }
    }

    /// Sets a flag.
    pub fn insert(&mut self, flag: SessionAttention)
        ensures
            forall|other: SessionAttention| #[trigger]
                final(self).has(other) == (old(self).has(other) || other == flag),
    {
        match flag {
            SessionAttention::Unread => {
                self.unread = true;
            },
            SessionAttention::UnresolvedEffect => {
                self.unresolved_effect = true;
            },
            SessionAttention::ConfigPending => {
                self.config_pending = true;
            },
            SessionAttention::RecoveryNeeded => {
                self.recovery_needed = true;
            },
        }
    }
}

/// The state of a session: each part by itself.
#[derive(Clone, Copy, Debug, PartialEq, Eq, Structural)]
pub struct SessionStatus {
    pub lifecycle: SessionLifecycle,
    pub execution: SessionExecution,
    pub attachment: RuntimeAttachment,
    pub availability: SessionAvailability,
    pub attention: AttentionFlags,
}

impl SessionStatus {
    /// The state of a new session.
    pub open spec fn initial() -> SessionStatus {
        SessionStatus {
            lifecycle: SessionLifecycle::Active,
            execution: SessionExecution::Draft,
            attachment: RuntimeAttachment::Detached,
            availability: SessionAvailability::Local,
            attention: AttentionFlags::none(),
        }
    }
}

impl Default for SessionStatus {
    fn default() -> (r: SessionStatus)
        ensures
            r == SessionStatus::initial(),
    {
        SessionStatus {
            lifecycle: SessionLifecycle::Active,
            execution: SessionExecution::Draft,
            attachment: RuntimeAttachment::Detached,
            availability: SessionAvailability::Local,
            attention: AttentionFlags {
                unread: false,
                unresolved_effect: false,
                config_pending: false,
                recovery_needed: false,
            },
        }
    }
}

/// What a user sees of a session.
#[derive(Debug, PartialEq, Eq)]
pub struct SessionMetadata {
    pub title: String,
    pub created_at: UnixMillis,
    pub updated_at: UnixMillis,
    pub last_opened_at: UnixMillis,
    /// The model of this session; without one the workspace's and then the user's applies.
    pub solver_model_override: Option<ModelSelection>,
}

impl Clone for SessionMetadata {
    fn clone(&self) -> (r: SessionMetadata)
        ensures
            r == *self,
    {
        SessionMetadata {
            title: self.title.clone(),
            created_at: self.created_at,
            updated_at: self.updated_at,
            last_opened_at: self.last_opened_at,
            solver_model_override: self.solver_model_override.clone(),
        }
    }
}

/// What is wrong with a title.
pub open spec fn title_problem(title: Seq<char>) -> Option<RecordError> {
    if is_blank(title) {
        Some(RecordError::EmptyTitle)
    } else if byte_count(title) > MAX_TITLE_BYTES {
        Some(RecordError::ValueTooLong { field: "session title", maximum_bytes: MAX_TITLE_BYTES })
    } else {
        None
    }
}

impl SessionMetadata {
    /// What is wrong with this metadata, the first thing that is reported.
    pub open spec fn problem(self) -> Option<RecordError> {
        if title_problem(self.title@) is Some {
            title_problem(self.title@)
        } else if self.solver_model_override is Some && self.solver_model_override->0.problem()
            is Some {
            Some(RecordError::InvalidModelOverride)
        } else if self.created_at.milliseconds < 0 || self.updated_at.milliseconds < 0
            || self.last_opened_at.milliseconds < 0 {
            Some(RecordError::InvalidTimestamp)
        } else if self.updated_at.milliseconds < self.created_at.milliseconds
            || self.last_opened_at.milliseconds < self.created_at.milliseconds {
            Some(RecordError::NonMonotonicTimestamp)
        } else {
            None
        }
    }

    /// The metadata of a new session.
    pub fn new(title: String, now: UnixMillis) -> (r: Result<SessionMetadata, RecordError>)
        ensures
            ({
                let metadata = SessionMetadata {
                    title,
                    created_at: now,
                    updated_at: now,
                    last_opened_at: now,
                    solver_model_override: None,
                };
                r == (match metadata.problem() {
                    Some(error) => Err::<SessionMetadata, RecordError>(error),
                    None => Ok(metadata),
                })
            }),
    {
        let metadata = SessionMetadata {
            title,
            created_at: now,
            updated_at: now,
            last_opened_at: now,
            solver_model_override: None,
        };
        match metadata.validate() {
            Ok(_) => Ok(metadata),
            Err(error) => Err(error),
        }
    }

    /// Checks this metadata.
    pub fn validate(&self) -> (r: Result<(), RecordError>)
        ensures
            r == (match self.problem() {
                Some(error) => Err::<(), RecordError>(error),
                None => Ok(()),
            }),
    {
        if blank(self.title.as_str()) {
            return Err(RecordError::EmptyTitle);
        }
        if byte_len(self.title.as_str()) > MAX_TITLE_BYTES {
            return Err(
                RecordError::ValueTooLong {
                    field: "session title",
                    maximum_bytes: MAX_TITLE_BYTES,
                },
            );
        }
        match &self.solver_model_override {
            Some(selection) => match selection.validate() {
                Ok(_) => {},
                Err(_) => {
                    return Err(RecordError::InvalidModelOverride);
                },
            },
            None => {},
        }
        if self.created_at.as_millis() < 0 || self.updated_at.as_millis() < 0
            || self.last_opened_at.as_millis() < 0 {
            return Err(RecordError::InvalidTimestamp);
        }
        if self.updated_at.as_millis() < self.created_at.as_millis()
            || self.last_opened_at.as_millis() < self.created_at.as_millis() {
            return Err(RecordError::NonMonotonicTimestamp);
        }
        Ok(())
    }
}

/// One logical conversation of a workspace.
#[derive(Debug, PartialEq, Eq)]
pub struct SessionRecord {
    pub id: SessionId,
    pub workspace_id: WorkspaceId,
    pub canonical_workspace_path: CanonicalPath,
    pub metadata: SessionMetadata,
    pub draft: SessionDraft,
    pub status: SessionStatus,
}

/// A session record by its values.
#[verifier::ext_equal]
pub ghost struct SessionRecordView {
    pub id: SessionId,
    pub workspace_id: WorkspaceId,
    pub canonical_workspace_path: Seq<u8>,
    pub metadata: SessionMetadata,
    pub draft: SessionDraft,
    pub status: SessionStatus,
}

impl View for SessionRecord {
    type V = SessionRecordView;

    open spec fn view(&self) -> SessionRecordView {
        SessionRecordView {
            id: self.id,
            workspace_id: self.workspace_id,
            canonical_workspace_path: self.canonical_workspace_path@,
            metadata: self.metadata,
            draft: self.draft,
            status: self.status,
        }
    }
}

impl SessionRecordView {
    /// What is wrong with this record, the first thing that is reported.
    pub open spec fn problem(self) -> Option<RecordError> {
        if self.id.0 == 0 {
            Some(RecordError::NilSessionId)
        } else if self.workspace_id.0 == 0 {
            Some(RecordError::NilWorkspaceId)
        } else if !absolute(self.canonical_workspace_path) {
            Some(RecordError::NonAbsoluteWorkspacePath)
        } else if self.metadata.problem() is Some {
            self.metadata.problem()
        } else {
            self.draft.problem()
        }
    }
}

/// Whether this is the record of a new session.
pub open spec fn starts_record(
    workspace: WorkspaceContext,
    id: SessionId,
    title: String,
    now: UnixMillis,
    r: Result<SessionRecord, RecordError>,
) -> bool {
    &&& match r {
        Ok(record) => {
            &&& record@.problem() is None
            &&& record.id == id
            &&& record.workspace_id == workspace.id
            &&& record@.canonical_workspace_path == workspace.canonical_root@
            &&& record.metadata == (SessionMetadata {
                title,
                created_at: now,
                updated_at: now,
                last_opened_at: now,
                solver_model_override: None,
            })
            &&& record.draft.text@ == Seq::<char>::empty()
            &&& record.draft.cursor_byte_offset == 0
            &&& record.status == SessionStatus::initial()
        },
        Err(error) => new_session_problem(workspace, id, title@, now) == Some(error),
    }
    &&& r is Err <==> new_session_problem(workspace, id, title@, now) is Some
}

impl SessionRecord {
    /// A new session of a workspace, under a fresh identity and with the time of the clock.
    pub fn new(workspace: &WorkspaceContext, title: String) -> (r: Result<SessionRecord, RecordError>)
        ensures
            match r {
                Ok(record) => {
                    &&& record@.problem() is None
                    &&& record.id.0 != 0
                    &&& record.workspace_id == workspace.id
                    &&& record@.canonical_workspace_path == workspace.canonical_root@
                    &&& record.metadata == (SessionMetadata {
                        title,
                        created_at: record.metadata.created_at,
                        updated_at: record.metadata.created_at,
                        last_opened_at: record.metadata.created_at,
                        solver_model_override: None,
                    })
                    &&& record.draft.text@ == Seq::<char>::empty()
                    &&& record.draft.cursor_byte_offset == 0
                    &&& record.status == SessionStatus::initial()
                },
                Err(error) => {
                    ||| error == RecordError::ClockBeforeUnixEpoch
                    ||| error == RecordError::ClockOutOfRange
                    ||| exists|id: SessionId, now: UnixMillis|
                        id.0 != 0 && now.milliseconds >= 0 && #[trigger] new_session_problem(
                            *workspace,
                            id,
                            title@,
                            now,
                        ) == Some(error)
                },
            },
    {
        match UnixMillis::now() {
            Ok(now) => SessionRecord::new_at(workspace, SessionId::new(), title, now),
            Err(error) => Err(error),
        }
    }

    /// A new session of a workspace.
    pub fn new_at(workspace: &WorkspaceContext, id: SessionId, title: String, now: UnixMillis) -> (r: Result<
        SessionRecord,
        RecordError,
    >)
        ensures
            starts_record(*workspace, id, title, now, r),
    {
        let metadata = match SessionMetadata::new(title, now) {
            Ok(metadata) => metadata,
            Err(error) => {
                return Err(error);
            },
        };
        let record = SessionRecord {
            id,
            workspace_id: workspace.id(),
            canonical_workspace_path: workspace.canonical_path().copy(),
            metadata,
            draft: SessionDraft::empty(),
            status: SessionStatus::default(),
        };
        proof {
            lemma_empty_draft(record.draft);
        }
        match record.validate() {
            Ok(_) => Ok(record),
            Err(error) => Err(error),
        }
    }

    /// Checks this record.
    pub fn validate(&self) -> (r: Result<(), RecordError>)
        ensures
            r == (match self@.problem() {
                Some(error) => Err::<(), RecordError>(error),
                None => Ok(()),
            }),
    {
        if self.id.is_nil() {
            return Err(RecordError::NilSessionId);
        }
        if self.workspace_id.is_nil() {
            return Err(RecordError::NilWorkspaceId);
        }
        if !self.canonical_workspace_path.as_path().is_absolute() {
            return Err(RecordError::NonAbsoluteWorkspacePath);
        }
        match self.metadata.validate() {
            Ok(_) => self.draft.validate(),
            Err(error) => Err(error),
        }
    }

    /// A copy of this record.
    pub fn copy(&self) -> (r: SessionRecord)
        ensures
            r@ == self@,
    {
        SessionRecord {
            id: self.id,
            workspace_id: self.workspace_id,
            canonical_workspace_path: self.canonical_workspace_path.copy(),
            metadata: self.metadata.clone(),
            draft: self.draft.clone(),
            status: self.status,
        }
    }
}

/// What is wrong with a new session, the first thing that is reported: its metadata comes first.
pub open spec fn new_session_problem(
    workspace: WorkspaceContext,
    id: SessionId,
    title: Seq<char>,
    now: UnixMillis,
) -> Option<RecordError> {
    if title_problem(title) is Some {
        title_problem(title)
    } else if now.milliseconds < 0 {
        Some(RecordError::InvalidTimestamp)
    } else if id.0 == 0 {
        Some(RecordError::NilSessionId)
    } else if workspace.id.0 == 0 {
        Some(RecordError::NilWorkspaceId)
    } else if !absolute(workspace.canonical_root@) {
        Some(RecordError::NonAbsoluteWorkspacePath)
    } else {
        None
    }
}

/// An empty draft is valid.
proof fn lemma_empty_draft(draft: SessionDraft)
    requires
        draft.text@ == Seq::<char>::empty(),
        draft.cursor_byte_offset == 0,
    ensures
        draft.problem() is None,
{
    assert(encode_utf8(draft.text@) =~= Seq::<u8>::empty());
    vstd::utf8::is_char_boundary_start_end_of_seq(encode_utf8(draft.text@));
}

impl WorkspaceContext {
    /// Why a record cannot belong to this workspace, the first thing that is reported.
    pub open spec fn foreign(self, record: SessionRecordView) -> Option<SessionStoreError> {
        if record.problem() is Some {
            Some(SessionStoreError::Record(record.problem()->0))
        } else if record.workspace_id != self.id {
            Some(
                SessionStoreError::WorkspaceMismatch {
                    session_id: record.id,
                    expected_workspace: self.id,
                    actual_workspace: record.workspace_id,
                },
            )
        } else if record.canonical_workspace_path != self.canonical_root@ {
            Some(
                SessionStoreError::ImmutableField {
                    session_id: record.id,
                    field: "canonical_workspace_path",
                },
            )
        } else {
            None
        }
    }

    /// Checks that a record belongs to this workspace.
    pub fn validate_record_for_workspace(&self, record: &SessionRecord) -> (r: Result<
        (),
        SessionStoreError,
    >)
        ensures
            r == (match self.foreign(record@) {
                Some(error) => Err::<(), SessionStoreError>(error),
                None => Ok(()),
            }),
    {
        match record.validate() {
            Ok(_) => {},
            Err(error) => {
                return Err(SessionStoreError::Record(error));
            },
        }
        if record.workspace_id != self.id {
            return Err(
                SessionStoreError::WorkspaceMismatch {
                    session_id: record.id,
                    expected_workspace: self.id,
                    actual_workspace: record.workspace_id,
                },
            );
        }
        if !record.canonical_workspace_path.path.same(&self.canonical_root.path) {
            return Err(
                SessionStoreError::ImmutableField {
                    session_id: record.id,
                    field: "canonical_workspace_path",
                },
            );
        }
        Ok(())
    }

    /// Why a record that stands under a key cannot be used.
    pub open spec fn unusable(self, key_id: SessionId, record: SessionRecordView) -> Option<
        SessionStoreError,
    > {
        if record.id != key_id {
            Some(SessionStoreError::RecordKeyMismatch { key_id, record_id: record.id })
        } else {
            self.foreign(record)
        }
    }

    /// Checks a record that stands under a key.
    pub fn hydrate_for_id(&self, key_id: SessionId, record: &SessionRecord) -> (r: Result<
        (),
        SessionStoreError,
    >)
        ensures
            r == (match self.unusable(key_id, record@) {
                Some(error) => Err::<(), SessionStoreError>(error),
                None => Ok(()),
            }),
    {
        if record.id != key_id {
            return Err(SessionStoreError::RecordKeyMismatch { key_id, record_id: record.id });
        }
        self.validate_record_for_workspace(record)
    }
}

/// Why a record cannot take the place of another, for what must never change.
pub open spec fn immutable_problem(current: SessionRecordView, next: SessionRecordView) -> Option<
    SessionStoreError,
> {
    if current.id != next.id {
        Some(SessionStoreError::ImmutableField { session_id: current.id, field: "id" })
    } else if current.workspace_id != next.workspace_id {
        Some(
            SessionStoreError::WorkspaceMismatch {
                session_id: current.id,
                expected_workspace: current.workspace_id,
                actual_workspace: next.workspace_id,
            },
        )
    } else if current.canonical_workspace_path != next.canonical_workspace_path {
        Some(
            SessionStoreError::ImmutableField {
                session_id: current.id,
                field: "canonical_workspace_path",
            },
        )
    } else if current.metadata.created_at != next.metadata.created_at {
        Some(
            SessionStoreError::ImmutableField {
                session_id: current.id,
                field: "metadata.created_at",
            },
        )
    } else {
        None
    }
}

/// Checks that nothing changes that must never change.
pub fn assert_immutable(current: &SessionRecord, next: &SessionRecord) -> (r: Result<
    (),
    SessionStoreError,
>)
    ensures
        r == (match immutable_problem(current@, next@) {
            Some(error) => Err::<(), SessionStoreError>(error),
            None => Ok(()),
        }),
{
    if current.id != next.id {
        return Err(SessionStoreError::ImmutableField { session_id: current.id, field: "id" });
    }
    if current.workspace_id != next.workspace_id {
        return Err(
            SessionStoreError::WorkspaceMismatch {
                session_id: current.id,
                expected_workspace: current.workspace_id,
                actual_workspace: next.workspace_id,
            },
        );
    }
    if !current.canonical_workspace_path.path.same(&next.canonical_workspace_path.path) {
        return Err(
            SessionStoreError::ImmutableField {
                session_id: current.id,
                field: "canonical_workspace_path",
            },
        );
    }
    if current.metadata.created_at != next.metadata.created_at {
        return Err(
            SessionStoreError::ImmutableField {
                session_id: current.id,
                field: "metadata.created_at",
            },
        );
    }
    Ok(())
}

/// Why a record cannot take the place of another in a workspace, the first thing that is
/// reported.
pub open spec fn replace_problem(
    workspace: WorkspaceContext,
    current: SessionRecordView,
    next: SessionRecordView,
) -> Option<SessionStoreError> {
    if workspace.foreign(next) is Some {
        workspace.foreign(next)
    } else if immutable_problem(current, next) is Some {
        immutable_problem(current, next)
    } else if next.metadata.last_opened_at.milliseconds
        < current.metadata.last_opened_at.milliseconds {
        Some(SessionStoreError::Record(RecordError::NonMonotonicTimestamp))
    } else {
        None
    }
}

/// Checks that a record can take the place of another in a workspace.
pub fn validate_replace(
    workspace: &WorkspaceContext,
    current: &SessionRecord,
    next: &SessionRecord,
) -> (r: Result<(), SessionStoreError>)
    ensures
        r == (match replace_problem(*workspace, current@, next@) {
            Some(error) => Err::<(), SessionStoreError>(error),
            None => Ok(()),
        }),
{
    match workspace.validate_record_for_workspace(next) {
        Ok(_) => {},
        Err(error) => {
            return Err(error);
        },
    }
    match assert_immutable(current, next) {
        Ok(_) => {},
        Err(error) => {
            return Err(error);
        },
    }
    if next.metadata.last_opened_at.as_millis() < current.metadata.last_opened_at.as_millis() {
        return Err(SessionStoreError::Record(RecordError::NonMonotonicTimestamp));
    }
    Ok(())
}

/// The later of two times.
pub open spec fn later(a: UnixMillis, b: UnixMillis) -> UnixMillis {
    if a.milliseconds > b.milliseconds {
        a
    } else {
        b
    }
}

/// A record as it is stored in place of another: updated now, and never before the other was.
pub open spec fn updated(current: SessionRecordView, next: SessionRecordView, now: UnixMillis) -> SessionRecordView {
    SessionRecordView {
        metadata: SessionMetadata {
            updated_at: later(now, current.metadata.updated_at),
            ..next.metadata
        },
        ..next
    }
}

/// Why a record cannot be stored in place of another, the first thing that is reported.
pub open spec fn prepare_problem(
    workspace: WorkspaceContext,
    current: SessionRecordView,
    next: SessionRecordView,
    now: UnixMillis,
) -> Option<SessionStoreError> {
    if replace_problem(workspace, current, next) is Some {
        replace_problem(workspace, current, next)
    } else {
        match updated(current, next, now).problem() {
            Some(error) => Some(SessionStoreError::Record(error)),
            None => None,
        }
    }
}

/// Prepares a record to be stored in place of another.
pub fn prepare_replace(
    workspace: &WorkspaceContext,
    current: &SessionRecord,
    next: SessionRecord,
    now: UnixMillis,
) -> (r: Result<SessionRecord, SessionStoreError>)
    ensures
        match prepare_problem(*workspace, current@, next@, now) {
            Some(error) => r matches Err(found) && found == error,
            None => r matches Ok(record) && record@ == updated(current@, next@, now),
        },
{
    match validate_replace(workspace, current, &next) {
        Ok(_) => {},
        Err(error) => {
            return Err(error);
        },
    }
    let mut next = next;
    let ghost before = next@;
    next.metadata.updated_at = if now.as_millis() > current.metadata.updated_at.as_millis() {
        now
    } else {
        current.metadata.updated_at
    };
    proof {
        assert(next@ =~= updated(current@, before, now));
    }
    match next.validate() {
        Ok(_) => Ok(next),
        Err(error) => Err(SessionStoreError::Record(error)),
    }
}

/// A stored record never changes its identity, its workspace or the time of its creation, and its
/// other times never move backwards.
pub proof fn law_replacement_keeps_identity(
    workspace: WorkspaceContext,
    current: SessionRecordView,
    next: SessionRecordView,
    now: UnixMillis,
)
    requires
        prepare_problem(workspace, current, next, now) is None,
    ensures
        ({
            let stored = updated(current, next, now);
            &&& stored.id == current.id
            &&& stored.workspace_id == current.workspace_id
            &&& stored.canonical_workspace_path == current.canonical_workspace_path
            &&& stored.metadata.created_at == current.metadata.created_at
            &&& stored.metadata.updated_at.milliseconds >= current.metadata.updated_at.milliseconds
            &&& stored.metadata.last_opened_at.milliseconds
                >= current.metadata.last_opened_at.milliseconds
            &&& stored.problem() is None
        }),
{
}

} // verus!

//! The errors of durable workspace and session facts.

use vstd::prelude::*;

use super::journal::JournalSequence;
use super::storage::StorageError;
use crate::ids::{hyphenated, SessionId, WorkspaceId};
use crate::path::FilePath;
use crate::text::{decimal, decimal_string};

verus! {

/// What is wrong with the metadata or the state of a session.
#[derive(Clone, Copy, Debug, PartialEq, Eq)]
pub enum RecordError {
    EmptyTitle,
    ValueTooLong { field: &'static str, maximum_bytes: usize },
    InvalidDraftCursor,
    InvalidModelOverride,
    InvalidTimestamp,
    NonMonotonicTimestamp,
    NonAbsoluteWorkspacePath,
    NilSessionId,
    NilWorkspaceId,
    ClockBeforeUnixEpoch,
    ClockOutOfRange,
}

/// The report of a value that is too long.
pub open spec fn too_long_text(field: Seq<char>, maximum_bytes: usize) -> Seq<char> {
    field + " exceeds the "@ + decimal(maximum_bytes as nat) + "-byte limit"@
}

/// The report of a value that is too long.
pub fn too_long(field: &str, maximum_bytes: usize) -> (r: String)
    ensures
        r@ == too_long_text(field@, maximum_bytes),
{
    let mut r = field.to_owned();
    r.push_str(" exceeds the ");
    r.push_str(decimal_string(maximum_bytes as u64).as_str());
    r.push_str("-byte limit");
    r
}

impl RecordError {
    /// What this error says.
    pub open spec fn text(self) -> Seq<char> {
        match self {
            RecordError::EmptyTitle => "session title must not be empty"@,
            RecordError::ValueTooLong { field, maximum_bytes } => too_long_text(
                field@,
                maximum_bytes,
            ),
            RecordError::InvalidDraftCursor =>
                "draft cursor must be a UTF-8 character boundary within the draft"@,
            RecordError::InvalidModelOverride => "session solver model override is invalid"@,
            RecordError::InvalidTimestamp => "session timestamp must not be before the Unix epoch"@,
            RecordError::NonMonotonicTimestamp => "session timestamps must not move backwards"@,
            RecordError::NonAbsoluteWorkspacePath =>
                "session canonical workspace path must be absolute"@,
            RecordError::NilSessionId => "session ID must not be nil"@,
            RecordError::NilWorkspaceId => "workspace ID must not be nil"@,
            RecordError::ClockBeforeUnixEpoch => "system clock is before the Unix epoch"@,
            RecordError::ClockOutOfRange =>
                "system clock cannot be represented as Unix milliseconds"@,
        }
    }

    /// What this error says.
    pub fn message(self) -> (r: String)
        ensures
            r@ == self.text(),
    {
        match self {
            RecordError::EmptyTitle => "session title must not be empty".to_owned(),
            RecordError::ValueTooLong { field, maximum_bytes } => too_long(field, maximum_bytes),
            RecordError::InvalidDraftCursor =>
                "draft cursor must be a UTF-8 character boundary within the draft".to_owned(),
            RecordError::InvalidModelOverride =>
                "session solver model override is invalid".to_owned(),
            RecordError::InvalidTimestamp =>
                "session timestamp must not be before the Unix epoch".to_owned(),
            RecordError::NonMonotonicTimestamp =>
                "session timestamps must not move backwards".to_owned(),
            RecordError::NonAbsoluteWorkspacePath =>
                "session canonical workspace path must be absolute".to_owned(),
            RecordError::NilSessionId => "session ID must not be nil".to_owned(),
            RecordError::NilWorkspaceId => "workspace ID must not be nil".to_owned(),
            RecordError::ClockBeforeUnixEpoch => "system clock is before the Unix epoch".to_owned(),
            RecordError::ClockOutOfRange =>
                "system clock cannot be represented as Unix milliseconds".to_owned(),
        }
    }
}

/// Failures of resolving the directory that defines a workspace.
#[derive(Debug, PartialEq, Eq)]
pub enum WorkspaceError {
    /// The root could not be resolved.
    Canonicalize { path: FilePath, message: String },
    NotDirectory { path: FilePath },
    NonAbsoluteCanonicalPath { path: FilePath },
    /// The registry cannot be used.
    Registry(RegistryError),
}

/// Failures of the map from canonical roots to workspaces.
#[derive(Debug, PartialEq, Eq)]
pub enum RegistryError {
    UnsupportedFormat { version: u32 },
    InvalidWorkspaceId { key: String },
    TooManyWorkspaces { maximum_entries: usize },
    /// The file of the registry cannot be used.
    Storage(StorageError),
}

/// Failures of the sessions of a workspace.
#[derive(Debug, PartialEq, Eq)]
pub enum SessionStoreError {
    Record(RecordError),
    NotFound(SessionId),
    /// A record stands under the key of another session.
    RecordKeyMismatch { key_id: SessionId, record_id: SessionId },
    DuplicateSessionId(SessionId),
    /// No free identity was found.
    IdAllocationExhausted,
    WorkspaceMismatch {
        session_id: SessionId,
        expected_workspace: WorkspaceId,
        actual_workspace: WorkspaceId,
    },
    /// The session was changed before it could be saved.
    RevisionConflict { session_id: SessionId },
    ImmutableField { session_id: SessionId, field: &'static str },
    InvalidTurn { message: String },
}

impl SessionStoreError {
    /// What this error says.
    pub open spec fn text(self) -> Seq<char> {
        match self {
            SessionStoreError::Record(error) => error.text(),
            SessionStoreError::NotFound(id) => "session does not exist: "@ + hyphenated(id.0),
            SessionStoreError::RecordKeyMismatch { key_id, record_id } => "session document key "@
                + hyphenated(key_id.0) + " does not match stored record ID "@ + hyphenated(
                record_id.0,
            ),
            SessionStoreError::DuplicateSessionId(id) =>
                "workspace session list contains duplicate stored session ID "@ + hyphenated(id.0),
            SessionStoreError::IdAllocationExhausted =>
                "could not allocate a unique session ID after several attempts"@,
            SessionStoreError::WorkspaceMismatch {
                session_id,
                expected_workspace,
                actual_workspace,
            } => "session "@ + hyphenated(session_id.0) + " belongs to workspace "@ + hyphenated(
                actual_workspace.0,
            ) + ", not this workspace "@ + hyphenated(expected_workspace.0),
            SessionStoreError::RevisionConflict { session_id } => "session "@ + hyphenated(
                session_id.0,
            ) + " changed before it could be saved"@,
            SessionStoreError::ImmutableField { session_id, field } => "session "@ + hyphenated(
                session_id.0,
            ) + " attempted to change immutable field "@ + field@,
            SessionStoreError::InvalidTurn { message } =>
                "session turn cannot be persisted: "@ + message@,
        }
    }

    /// What this error says.
    pub fn message(&self) -> (r: String)
        ensures
            r@ == self.text(),
    {
        match self {
            SessionStoreError::Record(error) => error.message(),
            SessionStoreError::NotFound(id) => {
                let mut r = "session does not exist: ".to_owned();
                r.push_str(id.text().as_str());
                r
            },
            SessionStoreError::RecordKeyMismatch { key_id, record_id } => {
                let mut r = "session document key ".to_owned();
                r.push_str(key_id.text().as_str());
                r.push_str(" does not match stored record ID ");
                r.push_str(record_id.text().as_str());
                r
            },
            SessionStoreError::DuplicateSessionId(id) => {
                let mut r =
                    "workspace session list contains duplicate stored session ID ".to_owned();
                r.push_str(id.text().as_str());
                r
            },
            SessionStoreError::IdAllocationExhausted =>
                "could not allocate a unique session ID after several attempts".to_owned(),
            SessionStoreError::WorkspaceMismatch {
                session_id,
                expected_workspace,
                actual_workspace,
            } => {
                let mut r = "session ".to_owned();
                r.push_str(session_id.text().as_str());
                r.push_str(" belongs to workspace ");
                r.push_str(actual_workspace.text().as_str());
                r.push_str(", not this workspace ");
                r.push_str(expected_workspace.text().as_str());
                r
            },
            SessionStoreError::RevisionConflict { session_id } => {
                let mut r = "session ".to_owned();
                r.push_str(session_id.text().as_str());
                r.push_str(" changed before it could be saved");
                r
            },
            SessionStoreError::ImmutableField { session_id, field } => {
                let mut r = "session ".to_owned();
                r.push_str(session_id.text().as_str());
                r.push_str(" attempted to change immutable field ");
                r.push_str(*field);
                r
            },
            SessionStoreError::InvalidTurn { message } => {
                let mut r = "session turn cannot be persisted: ".to_owned();
                r.push_str(message.as_str());
                r
            },
        }
    }
}

/// Failures of taking the one writer of a session.
#[derive(Debug, PartialEq, Eq)]
pub enum SessionLeaseError {
    NotFound(SessionId),
    /// Another process writes to the session.
    HeldElsewhere { session_id: SessionId },
    Session(SessionStoreError),
}

/// Failures of a session's journal.
#[derive(Debug, PartialEq, Eq)]
pub enum JournalError {
    /// The journal belongs to a session that does not exist.
    SessionNotFound(SessionId),
    InvalidEntry { message: String },
    /// The journal's tail has to be repaired before anything is appended.
    NeedsRecovery { session_id: SessionId, path: FilePath },
    /// Somebody else appended in the meantime.
    SequenceConflict {
        session_id: SessionId,
        expected_next: JournalSequence,
        actual_next: JournalSequence,
    },
    /// The file of the journal cannot be used.
    Storage(StorageError),
}

} // verus!

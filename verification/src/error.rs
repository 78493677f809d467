//! The errors of the application.

use vstd::prelude::*;

use crate::config::{ConfigProblem, ProfileId};
use crate::ids::{RuntimeId, SessionId};
use crate::path::FilePath;

verus! {

/// What is wrong with the credentials of a profile.
#[derive(Clone, Copy, Debug, PartialEq, Eq, Structural)]
pub enum CredentialProblemKind {
    Missing,
    EndpointMismatch,
    Unavailable,
}

/// A problem with the credentials of a profile.
#[derive(Debug, PartialEq, Eq)]
pub struct CredentialProblem {
    pub profile: ProfileId,
    pub kind: CredentialProblemKind,
}

/// Failures that a frontend can act on.
#[derive(Debug, PartialEq, Eq)]
pub enum Error {
    /// The application is shutting down.
    Closed,
    WorkspaceNotFound,
    SessionNotFound,
    /// The session is open in another process.
    SessionBusy(SessionId),
    /// A request was reused with different input.
    RequestConflict,
    /// The runtime is no longer current.
    StaleRuntime(RuntimeId),
    /// A workspace write is still executing.
    WriteInProgress,
    InvalidState(String),
    /// The runtime configuration is incomplete.
    Configuration(ConfigProblem),
    LoginRequired(ProfileId),
    Credential(CredentialProblem),
    /// The schema version of a configuration file is not supported.
    ConfigVersion { expected: u32, actual: u32 },
    /// A configuration file is invalid.
    ConfigFile(String),
    /// A configuration file was changed by somebody else.
    ConfigConflict(FilePath),
    /// A project configuration is not trusted.
    ProjectConfigUntrusted(FilePath),
    /// The profile is still in use.
    ProfileBusy(ProfileId),
    /// The credentials were saved, but running sessions did not reload them.
    CredentialsSaved { profile: ProfileId, message: String },
    Provider(String),
    Storage(String),
    Tools(String),
    Agent(String),
}

impl Error {
    /// Whether this error says that a request is invalid, in these words.
    pub open spec fn is_invalid(self, message: Seq<char>) -> bool {
        self matches Error::InvalidState(text) && text@ == message
    }

    /// An invalid request.
    pub fn invalid(message: &str) -> (r: Error)
        ensures
            r.is_invalid(message@),
    {
        Error::InvalidState(message.to_owned())
    }

    /// Whether this error says that the agent failed, in these words.
    pub open spec fn is_agent(self, message: Seq<char>) -> bool {
        self matches Error::Agent(text) && text@ == message
    }

    /// A failure of the agent.
    pub fn agent(message: &str) -> (r: Error)
        ensures
            r.is_agent(message@),
    {
        Error::Agent(message.to_owned())
    }
}

/// Failures of the durable store.
#[derive(Debug, PartialEq, Eq)]
pub enum StoreError {
    /// Another process holds the store.
    Busy,
    /// What is stored contradicts itself.
    Corrupt { message: &'static str },
    /// A document has another revision than the operation expects.
    RevisionConflict,
    /// A revision or a sequence has no successor.
    RevisionExhausted,
    ConfigVersion { expected: u32, actual: u32 },
    ConfigFile { message: String },
    ConfigConflict { path: FilePath },
    ProjectConfigUntrusted { path: FilePath },
    /// The store has a schema that is not supported.
    UnsupportedSchema,
    /// A root directory is not an absolute path.
    RelativeRoot { path: FilePath },
    /// What stands at a path must not be used as storage.
    UnsafeStorage { path: FilePath, reason: &'static str },
    /// The storage itself failed.
    Io { message: String },
}

impl StoreError {
    /// The message of this error.
    pub open spec fn text(self) -> Seq<char> {
        match self {
            StoreError::Busy => "the store is busy"@,
            StoreError::Corrupt { message } => message@,
            StoreError::RevisionConflict => "the document was changed"@,
            StoreError::RevisionExhausted => "the revision is exhausted"@,
            StoreError::ConfigVersion { .. } => "unsupported configuration schema version"@,
            StoreError::ConfigFile { message } => message@,
            StoreError::ConfigConflict { .. } => "the configuration file was changed"@,
            StoreError::ProjectConfigUntrusted { .. } => "the project configuration is not trusted"@,
            StoreError::UnsupportedSchema => "the schema of the store is not supported"@,
            StoreError::RelativeRoot { .. } => "the root directory must be an absolute path"@,
            StoreError::UnsafeStorage { reason, .. } => reason@,
            StoreError::Io { message } => message@,
        }
    }

    /// The message of this error.
    pub fn message(&self) -> (r: String)
        ensures
            r@ == self.text(),
    {
        match self {
            StoreError::Busy => "the store is busy".to_owned(),
            StoreError::Corrupt { message } => (*message).to_owned(),
            StoreError::RevisionConflict => "the document was changed".to_owned(),
            StoreError::RevisionExhausted => "the revision is exhausted".to_owned(),
            StoreError::ConfigVersion { .. } => "unsupported configuration schema version".to_owned(),
            StoreError::ConfigFile { message } => message.clone(),
            StoreError::ConfigConflict { .. } => "the configuration file was changed".to_owned(),
            StoreError::ProjectConfigUntrusted { .. } =>
                "the project configuration is not trusted".to_owned(),
            StoreError::UnsupportedSchema => "the schema of the store is not supported".to_owned(),
            StoreError::RelativeRoot { .. } => "the root directory must be an absolute path".to_owned(),
            StoreError::UnsafeStorage { reason, .. } => (*reason).to_owned(),
            StoreError::Io { message } => message.clone(),
        }
    }

    /// Whether the application reports this error as `shown`: configuration errors by their kind,
    /// every other one as a storage failure.
    pub open spec fn becomes(self, shown: Error) -> bool {
        match self {
            StoreError::ConfigVersion { expected, actual } => shown == (Error::ConfigVersion {
                expected,
                actual,
            }),
            StoreError::ConfigFile { message } => shown == Error::ConfigFile(message),
            StoreError::ConfigConflict { path } => shown == Error::ConfigConflict(path),
            StoreError::ProjectConfigUntrusted { path } => shown == Error::ProjectConfigUntrusted(
                path,
            ),
            _ => shown matches Error::Storage(message) && message@ == self.text(),
        }
    }

    /// This error as one of the application: configuration errors by their kind, every other one
    /// as a storage failure.
    pub fn into_error(self) -> (r: Error)
        ensures
            self.becomes(r),
    {
        match self {
            StoreError::ConfigVersion { expected, actual } => Error::ConfigVersion {
                expected,
                actual,
            },
            StoreError::ConfigFile { message } => Error::ConfigFile(message),
            StoreError::ConfigConflict { path } => Error::ConfigConflict(path),
            StoreError::ProjectConfigUntrusted { path } => Error::ProjectConfigUntrusted(path),
            StoreError::Busy => Error::Storage(StoreError::Busy.message()),
            StoreError::Corrupt { message } => Error::Storage(
                StoreError::Corrupt { message }.message(),
            ),
            StoreError::RevisionConflict => Error::Storage(StoreError::RevisionConflict.message()),
            StoreError::RevisionExhausted => Error::Storage(
                StoreError::RevisionExhausted.message(),
            ),
            StoreError::UnsupportedSchema => Error::Storage(StoreError::UnsupportedSchema.message()),
            StoreError::RelativeRoot { path } => Error::Storage(
                StoreError::RelativeRoot { path }.message(),
            ),
            StoreError::UnsafeStorage { path, reason } => Error::Storage(
                StoreError::UnsafeStorage { path, reason }.message(),
            ),
            StoreError::Io { message } => Error::Storage(message),
        }
    }
}

} // verus!

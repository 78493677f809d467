//! Keys of the document families.

use vstd::prelude::*;

use crate::api::{CallRef, EvidenceRef, InputId, ResultRef, SessionSeq};
use crate::document::DocumentKey;
use crate::ids::{AcceptanceRequestId, RequestId, SessionId, WorkspaceId};

verus! {

/// The key of a session's documents.
pub open spec fn session_key(session: SessionId) -> DocumentKey {
    DocumentKey { owner: session.0, item: 0, number: 0, part: 0 }
}

/// The key of a session's documents.
pub fn make_session_key(session: SessionId) -> (key: DocumentKey)
    ensures
        key == session_key(session),
{
    DocumentKey { owner: session.0, item: 0, number: 0, part: 0 }
}

/// The key of a workspace's documents.
pub open spec fn workspace_key(workspace: WorkspaceId) -> DocumentKey {
    DocumentKey { owner: workspace.0, item: 0, number: 0, part: 0 }
}

/// The key of a workspace's documents.
pub fn make_workspace_key(workspace: WorkspaceId) -> (key: DocumentKey)
    ensures
        key == workspace_key(workspace),
{
    DocumentKey { owner: workspace.0, item: 0, number: 0, part: 0 }
}

/// The key of an input.
pub open spec fn input_key(session: SessionId, input: InputId) -> DocumentKey {
    DocumentKey { owner: session.0, item: 0, number: input.0, part: 0 }
}

/// The key of an input.
pub fn make_input_key(session: SessionId, input: InputId) -> (key: DocumentKey)
    ensures
        key == input_key(session, input),
{
    DocumentKey { owner: session.0, item: 0, number: input.0, part: 0 }
}

/// The key of a request.
pub open spec fn request_key(session: SessionId, request: RequestId) -> DocumentKey {
    DocumentKey { owner: session.0, item: request.0, number: 0, part: 0 }
}

/// The key of a request.
pub fn make_request_key(session: SessionId, request: RequestId) -> (key: DocumentKey)
    ensures
        key == request_key(session, request),
{
    DocumentKey { owner: session.0, item: request.0, number: 0, part: 0 }
}

/// The key of a request for a session.
pub open spec fn creation_key(request: RequestId) -> DocumentKey {
    DocumentKey { owner: request.0, item: 0, number: 0, part: 0 }
}

/// The key of a request for a session.
pub fn make_creation_key(request: RequestId) -> (key: DocumentKey)
    ensures
        key == creation_key(request),
{
    DocumentKey { owner: request.0, item: 0, number: 0, part: 0 }
}

/// The key of an acceptance request.
pub open spec fn acceptance_request_key(session: SessionId, request: AcceptanceRequestId) -> DocumentKey {
    DocumentKey { owner: session.0, item: request.0, number: 0, part: 0 }
}

/// The key of an acceptance request.
pub fn make_acceptance_request_key(session: SessionId, request: AcceptanceRequestId) -> (key: DocumentKey)
    ensures
        key == acceptance_request_key(session, request),
{
    DocumentKey { owner: session.0, item: request.0, number: 0, part: 0 }
}

/// The key of a recorded acceptance: its result's version, then its own position.
pub open spec fn acceptance_key(result: ResultRef, saved_at: SessionSeq) -> DocumentKey {
    DocumentKey { owner: result.session.0, item: result.version.0 as u128, number: saved_at.0, part: 0 }
}

/// The key of a recorded acceptance: its result's version, then its own position.
pub fn make_acceptance_key(result: ResultRef, saved_at: SessionSeq) -> (key: DocumentKey)
    ensures
        key == acceptance_key(result, saved_at),
{
    DocumentKey { owner: result.session.0, item: result.version.0 as u128, number: saved_at.0, part: 0 }
}

/// The key of a result.
pub open spec fn result_key(session: SessionId, version: SessionSeq) -> DocumentKey {
    DocumentKey { owner: session.0, item: 0, number: version.0, part: 0 }
}

/// The key of a result.
pub fn make_result_key(session: SessionId, version: SessionSeq) -> (key: DocumentKey)
    ensures
        key == result_key(session, version),
{
    DocumentKey { owner: session.0, item: 0, number: version.0, part: 0 }
}

/// The key of a source.
pub open spec fn evidence_key(source: EvidenceRef) -> DocumentKey {
    DocumentKey { owner: source.session.0, item: 0, number: source.record, part: 0 }
}

/// The key of a source.
pub fn make_evidence_key(source: EvidenceRef) -> (key: DocumentKey)
    ensures
        key == evidence_key(source),
{
    DocumentKey { owner: source.session.0, item: 0, number: source.record, part: 0 }
}

/// The key of a part of a source's body.
pub open spec fn evidence_body_key(source: EvidenceRef, index: u64) -> DocumentKey {
    DocumentKey { owner: source.session.0, item: 0, number: source.record, part: index }
}

/// The key of a part of a source's body.
pub fn make_evidence_body_key(source: EvidenceRef, index: u64) -> (key: DocumentKey)
    ensures
        key == evidence_body_key(source, index),
{
    DocumentKey { owner: source.session.0, item: 0, number: source.record, part: index }
}

/// The key of a waiting input among the attention items of its workspace.
pub open spec fn waiting_key(workspace: WorkspaceId, session: SessionId, input: InputId) -> DocumentKey {
    DocumentKey { owner: workspace.0, item: session.0, number: input.0, part: 0 }
}

/// The key of a waiting input among the attention items of its workspace.
pub fn make_waiting_key(workspace: WorkspaceId, session: SessionId, input: InputId) -> (key: DocumentKey)
    ensures
        key == waiting_key(workspace, session, input),
{
    DocumentKey { owner: workspace.0, item: session.0, number: input.0, part: 0 }
}

/// The key of a write.
pub open spec fn write_key(workspace: WorkspaceId, call: CallRef) -> DocumentKey {
    DocumentKey { owner: workspace.0, item: call.runtime.0, number: call.id, part: 0 }
}

/// The key of a write.
pub fn make_write_key(workspace: WorkspaceId, call: CallRef) -> (key: DocumentKey)
    ensures
        key == write_key(workspace, call),
{
    DocumentKey { owner: workspace.0, item: call.runtime.0, number: call.id, part: 0 }
}

/// The key of a call or record of a session's agent core.
pub open spec fn core_key(session: SessionId, number: u64) -> DocumentKey {
    DocumentKey { owner: session.0, item: 0, number: number, part: 0 }
}

/// The key of a call or record of a session's agent core.
pub fn make_core_key(session: SessionId, number: u64) -> (key: DocumentKey)
    ensures
        key == core_key(session, number),
{
    DocumentKey { owner: session.0, item: 0, number: number, part: 0 }
}

} // verus!

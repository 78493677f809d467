use bone_app::api::{
    AcceptanceDecision, AcceptanceSubmission, AttentionItem, CallRef, CreateSessionRequest,
    EvidenceAvailability, EvidenceRef, InputId, InputState, QuestionId, ResultRef, SessionEvent,
    SessionSeq, SubmitInput, WorkspaceInfo, WriteResolution,
};
use bone_app::config::{
    AgentLimits, ConfigChange, ConfigScope, ModelSelection, ProfileId, ToolLimits,
};
use bone_app::document::KeyRange;
use bone_app::error::StoreError;
use bone_app::file_config::AdapterDefaults;
use bone_app::ids::{AcceptanceId, AcceptanceRequestId, RequestId, RuntimeId, SessionId, WorkspaceId};
use bone_app::path::FilePath;
use bone_app::persistence::acceptance::AcceptanceError;
use bone_app::persistence::addresses::{session_from_input_key, Address};
use bone_app::persistence::chunks::{
    read_core_chunks, split_pieces, write_core_chunks, CoreDocument, CORE_CHUNK_BYTES,
};
use bone_app::persistence::core_state::{
    settle_uncertain_commit, DurableCommit, DurableError,
};
use bone_app::persistence::inputs::AcceptError;
use bone_app::persistence::writes::ResolveWriteResult;
use bone_app::persistence::{CoreSnapshot, DataStore, StoredEvent};
use bone_app::record::{
    ExternalEffect, InputOutcome, OutcomeKind, Record, RecordBody, ToolOutcome,
};

fn store() -> DataStore {
    DataStore::open(&FilePath::from_text("/data"), None).unwrap()
}

fn audit(seq: u64, message: String) -> Record {
    Record {
        seq,
        body: RecordBody::Audit { message },
    }
}

fn core_commit(id: &str, revision: u64, from: u64, through: u64) -> DurableCommit {
    DurableCommit {
        commit_id: id.into(),
        expected_revision: revision,
        snapshot: CoreSnapshot {
            encoded: "{}".into(),
            through,
        },
        records: (from..=through)
            .map(|seq| audit(seq, format!("record {seq}")))
            .collect(),
    }
}

fn encoded(commit: &DurableCommit) -> Vec<u8> {
    format!("{commit:?}").into_bytes()
}

fn session_in(store: &mut DataStore, workspace: WorkspaceId) -> SessionId {
    store
        .create_session(workspace, "session".to_string())
        .unwrap()
        .info
        .id
}

fn defaults() -> AdapterDefaults {
    AdapterDefaults {
        limits: AgentLimits {
            context_bytes: 262_144,
            item_bytes: 65_536,
            tool_output_bytes: 65_536,
            tool_timeout: 60_000_000_000,
            encoded: String::new(),
            valid: true,
        },
        tools: ToolLimits {
            max_output_bytes: 65_536,
            max_patch_bytes: 65_536,
            max_bash_timeout: 120_000_000_000,
            encoded: String::new(),
            valid: true,
        },
    }
}

#[test]
fn core_commit_is_atomic_idempotent_and_session_scoped() {
    let mut store = store();
    let session = SessionId::new();
    let first = core_commit("first", 0, 1, 2);
    let receipt = store
        .commit_core(session, &first, &encoded(&first))
        .unwrap();
    assert_eq!(receipt.revision, 1);
    let second = core_commit("second", 1, 3, 3);
    store
        .commit_core(session, &second, &encoded(&second))
        .unwrap();
    assert_eq!(
        store.commit_core(session, &first, &encoded(&first)).unwrap(),
        receipt
    );
    let mut changed = first;
    changed.expected_revision = 100;
    assert!(matches!(
        store.commit_core(session, &changed, &encoded(&changed)),
        Err(DurableError::Invalid(_))
    ));
    let conflict = core_commit("conflict", 0, 4, 4);
    assert!(matches!(
        store.commit_core(session, &conflict, &encoded(&conflict)),
        Err(DurableError::Conflict)
    ));
    let gap = core_commit("gap", 2, 5, 5);
    assert!(matches!(
        store.commit_core(session, &gap, &encoded(&gap)),
        Err(DurableError::Invalid(_))
    ));
    let restored = store.load_core_restore(session).unwrap();
    assert_eq!(restored.revision, 2);
    assert_eq!(restored.records.len(), 3);
    assert_eq!(restored.snapshot.through, 3);
    assert!(store.load_core_restore(SessionId::new()).is_none());
    let reopened = DataStore::open(&FilePath::from_text("/data"), Some(store)).unwrap();
    assert_eq!(reopened.load_core_restore(session).unwrap().records.len(), 3);
}

#[test]
fn cumulative_core_history_and_snapshot_can_exceed_document_limit() {
    let mut store = store();
    let session = SessionId::new();
    for seq in 1..=2 {
        let mut commit = core_commit(&format!("commit-{seq}"), seq - 1, seq, seq);
        commit.records[0] = audit(seq, "🦴".repeat(5 * 1024 * 1024 / 4));
        let bytes = encoded(&commit);
        let receipt = store.commit_core(session, &commit, &bytes).unwrap();
        assert_eq!(store.commit_core(session, &commit, &bytes).unwrap(), receipt);
    }
    let mut snapshot = core_commit("snapshot", 2, 3, 2);
    snapshot.snapshot.encoded = "s".repeat(9 * 1024 * 1024);
    store
        .commit_core(session, &snapshot, &encoded(&snapshot))
        .unwrap();
    let mut store = DataStore::open(&FilePath::from_text("/data"), Some(store)).unwrap();
    let restored = store.load_core_restore(session).unwrap();
    assert_eq!(restored.revision, 3);
    assert_eq!(restored.records.len(), 2);
    assert!(restored.snapshot.encoded.len() > 8 * 1024 * 1024);
    let next = core_commit("continue", 3, 3, 3);
    store.commit_core(session, &next, &encoded(&next)).unwrap();
}

#[test]
fn failed_chunk_write_rolls_back_state_and_receipt() {
    let mut store = store();
    let session = SessionId::new();
    let first = core_commit("first", 0, 1, 1);
    store.commit_core(session, &first, &encoded(&first)).unwrap();
    let mut next = core_commit("next", 1, 2, 2);
    next.records[0] = audit(2, "x".repeat(2 * CORE_CHUNK_BYTES));
    assert!(matches!(
        store.commit_core_failed(session, &next, &encoded(&next), "disk full".to_string()),
        Err(DurableError::Storage(_))
    ));
    assert_eq!(
        store
            .commit_core_failed(session, &first, &encoded(&first), "disk full".to_string())
            .unwrap()
            .revision,
        1
    );
    assert!(matches!(
        settle_uncertain_commit(None, "next", "digest", "disk full".to_string()),
        Err(DurableError::Storage(_))
    ));
    let restored = store.load_core_restore(session).unwrap();
    assert_eq!(restored.revision, 1);
    assert_eq!(restored.records.len(), 1);
    let receipt = store.commit_core(session, &next, &encoded(&next)).unwrap();
    assert_eq!(receipt.revision, 2);
    assert_eq!(
        store.commit_core(session, &next, &encoded(&next)).unwrap(),
        receipt
    );
}

#[test]
fn recovery_commit_before_runtime_registration_is_projected_once() {
    let mut store = store();
    let session = session_in(&mut store, WorkspaceId::new());
    let original = RuntimeId::new();
    let recovering = RuntimeId::new();
    let (_, input) = store
        .accept_input(session, &SubmitInput::new("unfinished work"), 1)
        .unwrap();
    store
        .update_input(
            session,
            input.id,
            InputState::Interrupted { runtime: original },
            None,
            2,
        )
        .unwrap();
    let first = core_commit("original", 0, 1, 1);
    store
        .commit_core_in_runtime(session, original, &first, &encoded(&first))
        .unwrap();
    store
        .save_agent_record(session, original, &first.records[0], &vec![], 3)
        .unwrap();
    assert_eq!(store.core_projection_through(session).unwrap(), 1);

    let mut recovery = core_commit("restore", 1, 2, 2);
    recovery.records[0] = Record {
        seq: 2,
        body: RecordBody::InputFinished {
            input: input.id,
            outcome: InputOutcome::Failed,
        },
    };
    store
        .commit_core_in_runtime(session, recovering, &recovery, &encoded(&recovery))
        .unwrap();
    assert!(store.session(session).unwrap().runtime.is_none());
    assert_eq!(store.core_projection_through(session).unwrap(), 1);

    let mut store = DataStore::open(&FilePath::from_text("/data"), Some(store)).unwrap();
    let (_, inputs) = store.recover_session(session, 4).unwrap();
    assert!(matches!(
        inputs[0].state,
        InputState::Finished { runtime, outcome: InputOutcome::Failed } if runtime == recovering
    ));
    assert_eq!(store.core_projection_through(session).unwrap(), 2);
    store.recover_session(session, 5).unwrap();
    let journal = store
        .journals
        .get(&bone_app::persistence::keys::make_session_key(session))
        .unwrap();
    assert_eq!(
        journal
            .entries
            .iter()
            .filter(|entry| matches!(
                &entry.event,
                StoredEvent::Agent { runtime, record } if *runtime == recovering && record.seq == 2
            ))
            .count(),
        1
    );
}

#[test]
fn concurrent_core_commit_retries_append_once() {
    let mut store = store();
    let session = SessionId::new();
    let same = core_commit("same", 0, 1, 1);
    let first = store.commit_core(session, &same, &encoded(&same)).unwrap();
    let second = store.commit_core(session, &same, &encoded(&same)).unwrap();
    assert_eq!(first, second);
    assert_eq!(store.load_core_restore(session).unwrap().records.len(), 1);
}

#[test]
fn core_call_provenance_survives_runtime_change_and_rejects_collision() {
    let mut store = store();
    let session = SessionId::new();
    let original = RuntimeId::new();
    let next = RuntimeId::new();
    let call_started = |seq| Record {
        seq,
        body: RecordBody::CallStarted { call: 7 },
    };
    let mut first = core_commit("first", 0, 1, 1);
    first.records[0] = call_started(1);
    store
        .commit_core_in_runtime(session, original, &first, &encoded(&first))
        .unwrap();
    let restore = core_commit("restore", 1, 2, 1);
    store
        .commit_core_in_runtime(session, next, &restore, &encoded(&restore))
        .unwrap();
    assert_eq!(
        store.core_call_origin(session, 7),
        Some(CallRef {
            runtime: original,
            id: 7
        })
    );
    let mut collision = core_commit("collision", 2, 2, 2);
    collision.records[0] = call_started(2);
    assert!(matches!(
        store.commit_core_in_runtime(session, next, &collision, &encoded(&collision)),
        Err(DurableError::Invalid(_))
    ));
}

#[test]
fn concurrent_config_field_updates_do_not_overwrite_each_other() {
    let mut store = store();
    let selection =
        |model: &str| ModelSelection::new(ProfileId::new("test").unwrap(), model).unwrap();
    store.update_config(
        ConfigScope::User,
        ConfigChange::Worker(Some(selection("worker"))),
        defaults(),
    );
    store.update_config(
        ConfigScope::User,
        ConfigChange::Coordinator(Some(selection("coordinator"))),
        defaults(),
    );
    let saved = store.config(ConfigScope::User, defaults());
    assert_eq!(saved.worker, Some(selection("worker")));
    assert_eq!(saved.coordinator, Some(selection("coordinator")));
}

#[test]
fn maximum_bash_streams_fit_in_one_write_record() {
    let mut store = store();
    let workspace = store.workspace(FilePath::from_text("/work"));
    let session = session_in(&mut store, workspace.id);
    let call = CallRef {
        runtime: RuntimeId::new(),
        id: 1,
    };
    store
        .begin_write(
            workspace.id,
            session,
            call,
            "bash".to_string(),
            "x".repeat(1024 * 1024 - 1024),
        )
        .unwrap();
    store
        .finish_write(
            workspace.id,
            call,
            ToolOutcome {
                result: Ok("\0".repeat(1024 * 1024)),
                external_effect: ExternalEffect::Applied,
            },
        )
        .unwrap();
}

#[test]
fn resolved_attempts_leave_the_hot_write_prefix() {
    let mut store = store();
    let workspace = store.workspace(FilePath::from_text("/work"));
    let session = session_in(&mut store, workspace.id);
    let call = CallRef {
        runtime: RuntimeId::new(),
        id: 1,
    };
    store
        .begin_write(
            workspace.id,
            session,
            call,
            "bash".to_string(),
            "{\"command\":\"touch marker\"}".to_string(),
        )
        .unwrap();
    assert_eq!(store.unresolved_writes(workspace.id, None).len(), 1);
    let resolution = || WriteResolution {
        external_effect: ExternalEffect::Applied,
        evidence: "marker exists".into(),
    };
    assert_eq!(
        store.resolve_write(workspace.id, session, call, resolution(), 5),
        ResolveWriteResult::Applied
    );
    assert!(store
        .writes
        .select(&KeyRange::owned_by(workspace.id.as_uuid()))
        .is_empty());
    assert_eq!(
        store.resolved_write_effect(workspace.id, session, call),
        Some(ExternalEffect::Applied)
    );
    assert_eq!(
        store.resolve_write(workspace.id, session, call, resolution(), 6),
        ResolveWriteResult::AlreadyResolved(ExternalEffect::Applied)
    );
    assert_eq!(
        store.resolve_write(
            workspace.id,
            session,
            call,
            WriteResolution {
                external_effect: ExternalEffect::NotApplied,
                evidence: "it does not".into()
            },
            7
        ),
        ResolveWriteResult::Conflicts(ExternalEffect::Applied)
    );
    assert_eq!(
        store.begin_write(
            workspace.id,
            session,
            call,
            "bash".to_string(),
            "{}".to_string()
        ),
        Ok(false)
    );
}

#[test]
fn a_request_is_accepted_once() {
    let mut store = store();
    let session = session_in(&mut store, WorkspaceId::new());
    let input = SubmitInput::new("hello");
    let (first, view) = store.accept_input(session, &input, 1).unwrap();
    assert_eq!(first.input, InputId(1));
    assert_eq!(first.saved_at, SessionSeq(1));
    assert_eq!(view.text, "hello");
    let (second, _) = store.accept_input(session, &input, 2).unwrap();
    assert_eq!(first, second);
    let mut other = SubmitInput::new("something else");
    other.request_id = input.request_id;
    assert!(matches!(
        store.accept_input(session, &other, 3),
        Err(AcceptError::Conflict)
    ));
    assert!(matches!(
        store.accept_input(SessionId::new(), &SubmitInput::new("x"), 3),
        Err(AcceptError::NotFound)
    ));
    assert_eq!(store.history_through(session), SessionSeq(1));
    let third = store
        .accept_input(session, &SubmitInput::new("again"), 4)
        .unwrap()
        .0;
    assert_eq!(third.input, InputId(2));
}

#[test]
fn history_is_paged_in_both_directions() {
    let mut store = store();
    let session = session_in(&mut store, WorkspaceId::new());
    for index in 0..5 {
        store
            .accept_input(session, &SubmitInput::new(&format!("input {index}")), index)
            .unwrap();
    }
    let page = store.history(session, SessionSeq(0), 2);
    assert_eq!(page.items.len(), 2);
    assert_eq!(page.items[0].sequence, SessionSeq(1));
    assert_eq!(page.next_cursor, SessionSeq(2));
    assert!(page.has_more);
    let recent = store.recent_history(session, None, 2);
    assert_eq!(recent.items.len(), 2);
    assert_eq!(recent.items[1].sequence, SessionSeq(5));
    assert_eq!(recent.snapshot_through, SessionSeq(5));
    store
        .accept_input(session, &SubmitInput::new("later"), 9)
        .unwrap();
    let older = store.recent_history(session, recent.older_cursor, 10);
    assert_eq!(older.items.len(), 3);
    assert_eq!(older.items[2].sequence, SessionSeq(3));
    assert_eq!(older.snapshot_through, SessionSeq(5));
    assert!(older.older_cursor.is_none());
}

fn with_result(store: &mut DataStore) -> (SessionId, ResultRef) {
    let workspace = store.workspace(FilePath::from_text("/work"));
    let session = session_in(store, workspace.id);
    let runtime = RuntimeId::new();
    let mut commit = core_commit("work", 0, 1, 2);
    commit.records[0] = Record {
        seq: 1,
        body: RecordBody::Published {
            summary: "a finding".into(),
        },
    };
    commit.records[1] = Record {
        seq: 2,
        body: RecordBody::Outcome {
            job: 1,
            kind: OutcomeKind::Completed,
            summary: "done".into(),
            remaining: vec!["docs".into()],
            evidence: vec![1],
        },
    };
    let bytes = encoded(&commit);
    store
        .commit_core_in_runtime(session, runtime, &commit, &bytes)
        .unwrap();
    for record in &commit.records {
        store
            .save_agent_record(session, runtime, record, &vec![], 10)
            .unwrap();
    }
    let page = store.results(session, None, 10).unwrap();
    assert_eq!(page.items.len(), 1);
    assert_eq!(page.items[0].summary, "done");
    assert_eq!(page.items[0].remaining, vec!["docs".to_string()]);
    (session, page.items[0].result)
}

#[test]
fn a_completed_job_is_a_result_with_its_sources() {
    let mut store = store();
    let (session, result) = with_result(&mut store);
    let artifact = store.result_artifact(result).unwrap().unwrap();
    assert_eq!(artifact.evidence_count, 1);
    let page = store.result_evidence(result, None, 10).unwrap().unwrap();
    assert_eq!(page.items.len(), 1);
    assert_eq!(
        page.items[0].source,
        EvidenceRef { session, record: 1 }
    );
    assert!(matches!(
        page.items[0].availability,
        EvidenceAvailability::Available { .. }
    ));
    let source = store
        .evidence_source_page_record(EvidenceRef { session, record: 1 }, 0, 4)
        .unwrap()
        .unwrap();
    assert_eq!(source.text.as_deref(), Some("a fi"));
    assert_eq!(source.next_offset, Some(4));
    let rest = store
        .evidence_source_page_record(EvidenceRef { session, record: 1 }, 4, 100)
        .unwrap()
        .unwrap();
    assert_eq!(rest.text.as_deref(), Some("nding"));
    assert_eq!(rest.next_offset, None);
}

#[test]
fn a_decision_on_a_result_is_recorded_once() {
    let mut store = store();
    let (session, result) = with_result(&mut store);
    let submission = AcceptanceSubmission {
        request_id: AcceptanceRequestId::new(),
        result,
        decision: AcceptanceDecision::Rejected,
        reason: "tests are missing".into(),
        rework: Some(SubmitInput::new("add tests")),
    };
    let (receipt, rework) = store
        .record_acceptance_as(AcceptanceId::new(), &submission, 20)
        .unwrap();
    assert_eq!(rework.unwrap().text, "add tests");
    let (again, _) = store
        .record_acceptance_as(AcceptanceId::new(), &submission, 21)
        .unwrap();
    assert_eq!(receipt, again);
    let page = store.acceptances(result, None, 10).unwrap();
    assert_eq!(page.items.len(), 1);
    let mut other = submission.clone();
    other.reason = "changed".into();
    assert!(matches!(
        store.record_acceptance(&other, 22),
        Err(AcceptanceError::Conflict)
    ));
    let missing = AcceptanceSubmission {
        request_id: AcceptanceRequestId::new(),
        result: ResultRef {
            session,
            version: SessionSeq(99),
            ..result
        },
        decision: AcceptanceDecision::Accepted,
        reason: String::new(),
        rework: None,
    };
    assert!(matches!(
        store.record_acceptance(&missing, 23),
        Err(AcceptanceError::ResultNotFound)
    ));
}

#[test]
fn a_question_is_shown_in_the_overview_until_it_is_answered() {
    let mut store = store();
    let workspace = store.workspace(FilePath::from_text("/work"));
    let session = session_in(&mut store, workspace.id);
    let (receipt, _) = store
        .accept_input(session, &SubmitInput::new("do it"), 1)
        .unwrap();
    let runtime = RuntimeId::new();
    let question = QuestionId {
        runtime,
        record: 3,
        reply_to: receipt.input,
    };
    store
        .update_input(
            session,
            receipt.input,
            InputState::WaitingForUser {
                runtime,
                question,
                text: "which file?".into(),
            },
            None,
            2,
        )
        .unwrap();
    let info = || WorkspaceInfo {
        id: workspace.id,
        root: workspace.root.copy(),
    };
    let overview = store.workspace_overview(info()).unwrap();
    assert_eq!(overview.sessions.len(), 1);
    assert_eq!(overview.attention.len(), 1);
    assert!(matches!(
        &overview.attention[0],
        AttentionItem::WaitingForUser { text, .. } if text == "which file?"
    ));
    store
        .update_input(
            session,
            receipt.input,
            InputState::Accepted { runtime },
            Some(SessionEvent::InputAccepted {
                input: receipt.input,
                runtime,
            }),
            3,
        )
        .unwrap();
    assert!(store.workspace_overview(info()).unwrap().attention.is_empty());
}

#[test]
fn a_lost_runtime_interrupts_its_inputs() {
    let mut store = store();
    let session = session_in(&mut store, WorkspaceId::new());
    let (receipt, _) = store
        .accept_input(session, &SubmitInput::new("x"), 1)
        .unwrap();
    let error = store.update_input(session, InputId(9), InputState::Cancelled, None, 1);
    assert_eq!(
        error,
        Err(StoreError::Corrupt {
            message: "input does not exist"
        })
    );
    store
        .cancel_inputs(session, &vec![receipt.input], 2)
        .unwrap();
    assert!(matches!(
        store.input(session, receipt.input).unwrap().state,
        InputState::Cancelled
    ));
}

#[test]
fn a_session_request_finds_its_session_again() {
    let mut store = store();
    let workspace = store.workspace(FilePath::from_text("/work"));
    let request = |title: &str, id| CreateSessionRequest {
        request_id: id,
        workspace: workspace.id,
        title: title.to_string(),
        provisional: true,
    };
    let id = RequestId::new();
    let first = store
        .create_session_idempotent(request("New conversation", id))
        .unwrap()
        .unwrap();
    let second = store
        .create_session_idempotent(request("New conversation", id))
        .unwrap()
        .unwrap();
    assert_eq!(first.info.id, second.info.id);
    assert!(store
        .create_session_idempotent(request("Another title", id))
        .unwrap()
        .is_none());
    let renamed = store
        .rename_session_if_provisional(first.info.id, "Fix the tests".to_string())
        .unwrap()
        .unwrap();
    assert_eq!(renamed.title, "Fix the tests");
    assert!(store
        .rename_session_if_provisional(first.info.id, "Once more".to_string())
        .unwrap()
        .is_none());
    assert_eq!(store.last_active_session(workspace.id), None);
    assert!(store.set_last_active_session(workspace.id, first.info.id));
    assert_eq!(store.last_active_session(workspace.id), Some(first.info.id));
    assert!(!store.set_last_active_session(WorkspaceId::new(), first.info.id));
}

#[test]
fn documents_have_fixed_addresses() {
    let session = SessionId::from_uuid(0x1234_5678_9abc_def0_1234_5678_9abc_def0);
    assert_eq!(
        Address::Input(session, InputId(42)).to_text(),
        "input/12345678-9abc-def0-1234-56789abcdef0/00000000000000000042"
    );
    assert_eq!(
        Address::EvidenceBody(EvidenceRef { session, record: 7 }, 3).to_text(),
        "evidence-body/12345678-9abc-def0-1234-56789abcdef0/7:000003"
    );
    assert_eq!(
        Address::Config(ConfigScope::User).to_text(),
        "config/user"
    );
    let address = Address::Input(session, InputId(1)).to_text();
    assert_eq!(session_from_input_key(&address), Ok(session));
    assert_eq!(
        session_from_input_key("output/x"),
        Err(StoreError::Corrupt {
            message: "input document has an invalid key"
        })
    );
    assert_eq!(
        session_from_input_key("input"),
        Err(StoreError::Corrupt {
            message: "input document key has no session"
        })
    );
    assert_eq!(
        session_from_input_key("input/not-a-uuid/1"),
        Err(StoreError::Corrupt {
            message: "input document key has an invalid session"
        })
    );
}

#[test]
fn text_is_split_at_characters_and_joined_again() {
    let pieces = split_pieces("aé🦴b", 4);
    assert_eq!(pieces, vec!["aé", "🦴", "b"]);
    let text = "x".repeat(CORE_CHUNK_BYTES + 5);
    let (manifest, chunks) = write_core_chunks(&text);
    assert_eq!(manifest.chunks, 2);
    let read: Vec<Option<String>> = chunks.into_iter().map(Some).collect();
    assert_eq!(read_core_chunks(manifest, &read).unwrap(), text);
    let missing = vec![None, None];
    assert!(read_core_chunks(manifest, &missing).is_err());
    assert!(read_core_chunks(
        CoreDocument {
            version: 2,
            chunks: 0,
            byte_len: 0
        },
        &vec![]
    )
    .is_err());
}

#[test]
fn a_relative_data_directory_is_refused() {
    assert!(matches!(
        DataStore::open(&FilePath::from_text("data"), None),
        Err(StoreError::RelativeRoot { .. })
    ));
}

#[test]
fn evidence_pages_join_to_the_whole_body() {
    let mut store = store();
    let workspace = store.workspace(FilePath::from_text("/work"));
    let session = session_in(&mut store, workspace.id);
    let runtime = RuntimeId::new();
    let body = "aé🦴".repeat(20_000);
    let mut commit = core_commit("work", 0, 1, 1);
    commit.records[0] = Record {
        seq: 1,
        body: RecordBody::Published {
            summary: body.clone(),
        },
    };
    let bytes = encoded(&commit);
    store
        .commit_core_in_runtime(session, runtime, &commit, &bytes)
        .unwrap();
    store
        .save_agent_record(session, runtime, &commit.records[0], &vec![], 10)
        .unwrap();
    let source = EvidenceRef { session, record: 1 };
    for max_bytes in [700, 7_000] {
        let mut text = String::new();
        let mut offset = 0;
        loop {
            let page = store
                .evidence_source_page_record(source, offset, max_bytes)
                .unwrap()
                .unwrap();
            assert_eq!(page.offset, offset);
            text.push_str(page.text.as_deref().unwrap());
            match page.next_offset {
                Some(next) => offset = next,
                None => break,
            }
        }
        assert_eq!(text, body);
    }
    for (max_bytes, expected) in [
        (1_000, "invalid evidence body manifest"),
        (
            65_536,
            "evidence page budget cannot contain the next UTF-8 character",
        ),
    ] {
        match store.evidence_source_page_record(source, 0, max_bytes) {
            Err(StoreError::Corrupt { message }) => assert_eq!(message, expected),
            _ => panic!("a page of {} bytes was given", max_bytes),
        }
    }
    assert!(store
        .evidence_source_page_record(source, 2, 100)
        .is_err());
    assert!(store
        .evidence_source_page_record(source, body.len() as u64 + 1, 100)
        .is_err());
}

#[test]
fn tool_results_are_shown_in_indented_form() {
    let mut store = store();
    let workspace = store.workspace(FilePath::from_text("/work"));
    let session = session_in(&mut store, workspace.id);
    let runtime = RuntimeId::new();
    let mut commit = core_commit("work", 0, 1, 2);
    commit.records[0] = Record {
        seq: 1,
        body: RecordBody::CallStarted { call: 4 },
    };
    commit.records[1] = Record {
        seq: 2,
        body: RecordBody::ToolFinished {
            job: 1,
            call: 4,
            tool: "read".into(),
            outcome: ToolOutcome {
                result: Ok("{\"lines\":[1]}".into()),
                external_effect: ExternalEffect::NotApplied,
            },
        },
    };
    let bytes = encoded(&commit);
    store
        .commit_core_in_runtime(session, runtime, &commit, &bytes)
        .unwrap();
    for record in &commit.records {
        store
            .save_agent_record(session, runtime, record, &vec![], 10)
            .unwrap();
    }
    let page = store
        .evidence_source_page_record(EvidenceRef { session, record: 2 }, 0, 1000)
        .unwrap()
        .unwrap();
    assert_eq!(
        page.text.as_deref(),
        Some("{\n  \"lines\": [\n    1\n  ]\n}")
    );
}

#[test]
fn a_pending_write_survives_recovery() {
    let mut store = store();
    let workspace = store.workspace(FilePath::from_text("/work"));
    let session = session_in(&mut store, workspace.id);
    let call = CallRef {
        runtime: RuntimeId::new(),
        id: 3,
    };
    assert_eq!(
        store.begin_write(
            workspace.id,
            session,
            call,
            "bash".to_string(),
            "{}".to_string()
        ),
        Ok(true)
    );
    store.recover_session(session, 5).unwrap();
    let left = store.unresolved_writes(workspace.id, Some(session));
    assert_eq!(left.len(), 1);
    assert_eq!(left[0].call, call);
}

#[test]
fn collected_attention_stays_collected() {
    let mut store = store();
    let workspace = store.workspace(FilePath::from_text("/work"));
    let session = session_in(&mut store, workspace.id);
    for number in 0..200 {
        store
            .accept_input(session, &SubmitInput::new(&format!("input {number}")), 1)
            .unwrap();
    }
    assert_eq!(store.backfill_attention_projection(), Ok(true));
    assert_eq!(store.backfill_attention_projection(), Ok(false));
    assert_eq!(store.backfill_attention_projection(), Ok(false));
    assert_eq!(store.inputs(session).len(), 200);
}

#[test]
fn what_the_user_sets_is_read_back_and_stays_in_its_scope() {
    let mut store = store();
    let session = SessionId::new();
    let mut tools = defaults().tools;
    tools.max_output_bytes = 1_024;
    store.update_config(
        ConfigScope::User,
        ConfigChange::Tools(Some(tools.clone())),
        defaults(),
    );
    assert_eq!(
        store.config(ConfigScope::User, defaults()).tools,
        Some(tools)
    );
    assert_eq!(
        store.config(ConfigScope::Session(session), defaults()).tools,
        None
    );
    store.update_config(ConfigScope::User, ConfigChange::Tools(None), defaults());
    assert_eq!(
        store.config(ConfigScope::User, defaults()).tools,
        Some(defaults().tools)
    );
}

#[test]
fn listings_are_ordered_by_what_they_list() {
    let mut store = store();
    let workspace = store.workspace(FilePath::from_text("/work"));
    let mut ids: Vec<SessionId> = (0..5).map(|_| session_in(&mut store, workspace.id)).collect();
    ids.sort();
    let listed: Vec<SessionId> = store
        .sessions(workspace.id)
        .iter()
        .map(|info| info.id)
        .collect();
    assert_eq!(listed, ids);
}

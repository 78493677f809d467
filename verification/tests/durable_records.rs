use bone_app::durable::error::{
    JournalError, RecordError, RegistryError, SessionLeaseError, SessionStoreError,
    WorkspaceError,
};
use bone_app::durable::journal::{
    entry_line, journal_lines, JournalEntry, JournalFact, JournalRead, JournalSequence,
    LineProblem, SessionJournal, TurnOutcome, JOURNAL_FORMAT_VERSION,
};
use bone_app::durable::keys::DurableKey;
use bone_app::durable::registry::{RegistryDocument, RegistryEntry, RegistryFile, WorkspaceRegistry};
use bone_app::durable::repository::{list, ListedDocument, SessionStore};
use bone_app::durable::session::{
    SessionDraft, SessionExecution, SessionRecord, SessionStatus,
};
use bone_app::durable::storage::{
    check_document_size, framed_document, lock_path, private_file_path, validate_open_file,
    validate_private_directory, StorageError,
};
use bone_app::durable::time::UnixMillis;
use bone_app::durable::workspace::{
    absolute_display_path, decode_os_path, encode_os_path, hex_decode, hex_encode, CanonicalPath,
    WorkspaceContext,
};
use bone_app::ids::{SessionId, WorkspaceId};
use bone_app::path::FilePath;
use bone_app::safe_file::{EntryFacts, EntryKind};

fn path(text: &str) -> FilePath {
    FilePath::from_text(text)
}

fn time(milliseconds: i64) -> UnixMillis {
    UnixMillis::from_millis(milliseconds).unwrap()
}

fn context() -> WorkspaceContext {
    WorkspaceContext::from_canonical(
        WorkspaceId::new(),
        CanonicalPath::new(path("/work/project")).unwrap(),
        path("/work/project"),
    )
    .unwrap()
}

fn journal() -> SessionJournal {
    SessionJournal::open(SessionId::new(), path("/data/session.jsonl"))
}

fn empty_read() -> JournalRead {
    JournalRead {
        entries: vec![],
        recovery_issue: None,
    }
}

fn turn(number: u64) -> JournalFact {
    JournalFact::UserTurnAccepted {
        turn: number,
        text: "inspect the failing test".into(),
        effective_config_revision: "cfg-1".into(),
        solver_model: "solver-a".into(),
    }
}

fn reply(text: &str) -> JournalFact {
    JournalFact::AssistantReply { text: text.into() }
}

fn interrupted(reason: &str) -> JournalFact {
    JournalFact::RuntimeInterrupted {
        reason: reason.into(),
    }
}

#[test]
fn synced_entries_round_trip_in_order() {
    let journal = journal();
    let first = journal.append(&empty_read(), turn(1), time(5)).unwrap();
    assert_eq!(first.sequence, JournalSequence::first());
    assert_eq!(first.format_version, JOURNAL_FORMAT_VERSION);
    let read = journal.read(&vec![Ok(first)], None).unwrap();
    let second = journal
        .append(&read, reply("I found the failing assertion."), time(6))
        .unwrap();
    assert_eq!(second.sequence.value(), 2);
    let first = journal.append(&empty_read(), turn(1), time(5)).unwrap();
    let reopened = SessionJournal::open(journal.session_id(), journal.path().copy());
    let again = reopened
        .read(
            &vec![
                Ok(first),
                Ok(JournalEntry::new(
                    second.sequence,
                    reply("I found the failing assertion."),
                    time(6),
                )
                .unwrap()),
            ],
            None,
        )
        .unwrap();
    assert!(again.is_recoverable());
    assert_eq!(again.entries.len(), 2);
    assert_eq!(again.entries[0], journal.append(&empty_read(), turn(1), time(5)).unwrap());
    assert_eq!(again.entries[1], second);
}

#[test]
fn version_one_history_remains_readable_after_atomic_turn_upgrade() {
    let legacy = || JournalEntry {
        format_version: 1,
        sequence: JournalSequence::first(),
        occurred_at: time(1),
        fact: JournalFact::UserMessageAccepted {
            text: "legacy saved message".into(),
            effective_config_revision: Some("cfg-1".into()),
            solver_model: Some("solver-a".into()),
        },
    };
    let read = journal().read(&vec![Ok(legacy())], None).unwrap();
    assert!(read.is_recoverable());
    assert_eq!(read.entries, vec![legacy()]);
}

#[test]
fn atomic_turn_rejects_an_invalid_turn_before_any_file_append() {
    assert!(matches!(
        journal().append(&empty_read(), turn(0), time(1)),
        Err(JournalError::InvalidEntry { .. })
    ));
}

#[test]
fn stale_expected_sequence_never_overwrites_or_reorders_facts() {
    let journal = journal();
    let first = journal
        .append(&empty_read(), interrupted("process exited"), time(1))
        .unwrap();
    let read = journal.read(&vec![Ok(first)], None).unwrap();
    let error = journal
        .append_if_next(&read, JournalSequence::first(), reply("late"), time(2))
        .unwrap_err();
    assert!(matches!(error, JournalError::SequenceConflict { .. }));
    assert_eq!(read.entries.len(), 1);
}

#[test]
fn partial_tail_is_visible_and_blocks_a_further_append() {
    let journal = journal();
    let first = journal
        .append(&empty_read(), interrupted("connection lost"), time(1))
        .unwrap();
    let mut bytes = entry_line(b"{}".to_vec()).unwrap();
    bytes.extend_from_slice(b"{\"format_version\":1");
    let lines = journal_lines(&bytes);
    assert_eq!(lines.lines.len(), 1);
    assert_eq!(lines.problem, Some(LineProblem::Unterminated));

    let read = journal.read(&vec![Ok(first)], lines.problem).unwrap();
    assert_eq!(read.entries.len(), 1);
    assert!(read.recovery_issue.is_some());
    assert!(matches!(
        journal.append(&read, reply("unsafe"), time(2)),
        Err(JournalError::NeedsRecovery { .. })
    ));
}

#[test]
fn concurrent_appenders_receive_a_linear_sequence() {
    let journal = journal();
    let mut read = empty_read();
    let mut sequences = vec![];
    for index in 0..8 {
        let entry = journal
            .append(
                &read,
                JournalFact::UserMessageAccepted {
                    text: format!("message {index}"),
                    effective_config_revision: None,
                    solver_model: None,
                },
                time(index),
            )
            .unwrap();
        sequences.push(entry.sequence.value());
        read.entries.push(entry);
    }
    assert_eq!(sequences, (1..=8).collect::<Vec<_>>());
    assert_eq!(read.entries.len(), 8);
}

#[test]
fn invalid_facts_are_rejected_before_any_file_append() {
    assert!(matches!(
        journal().append(
            &empty_read(),
            JournalFact::UserMessageAccepted {
                text: " ".into(),
                effective_config_revision: None,
                solver_model: None,
            },
            time(1)
        ),
        Err(JournalError::InvalidEntry { .. })
    ));
}

#[test]
fn a_gap_in_the_positions_needs_recovery() {
    let journal = journal();
    let entry = |number| JournalEntry::new(JournalSequence { number }, reply("hello"), time(1)).unwrap();
    let read = journal.read(&vec![Ok(entry(1)), Ok(entry(3))], None).unwrap();
    assert_eq!(read.entries.len(), 1);
    assert_eq!(read.recovery_issue.as_ref().unwrap().line, 2);
    let broken = journal
        .read(&vec![Err("not an entry".to_string())], None)
        .unwrap();
    assert!(!broken.is_recoverable());
    assert_eq!(
        JournalFact::TurnFinished {
            turn: 1,
            outcome: TurnOutcome::Completed
        }
        .validate(),
        Ok(())
    );
}

fn file(document: RegistryDocument) -> Option<RegistryFile> {
    Some(RegistryFile {
        size: 100,
        document,
    })
}

#[test]
fn the_registry_is_written_within_its_limit() {
    let registry = WorkspaceRegistry::open_in(&path("/data"), None).unwrap();
    assert_eq!(registry.write_document(b"{}".to_vec()).unwrap(), b"{}\n");
    assert!(matches!(
        registry.write_document(vec![b' '; 1024 * 1024]),
        Err(RegistryError::Storage(StorageError::DocumentTooLarge {
            maximum_bytes: 1_048_576,
            ..
        }))
    ));
}

#[test]
fn registry_entries_stand_by_their_keys() {
    let mut registry = WorkspaceRegistry::open_in(&path("/data"), None).unwrap();
    for root in ["/work/c", "/work/a", "/work", "/work/b", "/other"] {
        let canonical = CanonicalPath::new(path(root)).unwrap();
        let id = registry.resolve_or_create_canonical(&canonical).unwrap();
        assert_eq!(registry.lookup_canonical(&canonical), Some(id));
    }
    let keys: Vec<String> = registry
        .document
        .workspaces
        .iter()
        .map(|entry| entry.key.clone())
        .collect();
    let mut sorted = keys.clone();
    sorted.sort();
    assert_eq!(keys, sorted);
    assert_eq!(keys.len(), 5);
}

#[test]
fn values_that_are_too_long_are_named() {
    let error = SessionDraft {
        text: "x".repeat(1024 * 1024 + 1),
        cursor_byte_offset: 0,
    }
    .validate()
    .unwrap_err();
    match error {
        RecordError::ValueTooLong {
            field,
            maximum_bytes,
        } => {
            assert_eq!(field, "session draft");
            assert_eq!(
                error.message(),
                format!("session draft exceeds the {maximum_bytes}-byte limit")
            );
        }
        other => panic!("{other:?}"),
    }
}

#[test]
fn discovery_rejects_file_roots() {
    let mut registry = WorkspaceRegistry::open_in(&path("/data"), None).unwrap();
    assert!(matches!(
        WorkspaceContext::discover(
            path("/work/not-a-directory"),
            path("/work/not-a-directory"),
            false,
            &mut registry
        ),
        Err(WorkspaceError::NotDirectory { path: found }) if found == path("/work/not-a-directory")
    ));
    assert!(registry.document.workspaces.is_empty());
    assert!(matches!(
        WorkspaceContext::discovered(
            WorkspaceId::new(),
            path("/work/not-a-directory"),
            path("/work/not-a-directory"),
            false
        ),
        Err(WorkspaceError::NotDirectory { .. })
    ));
}

#[test]
fn registry_persists_workspace_ids_across_reopen() {
    let canonical = CanonicalPath::new(path("/work/project")).unwrap();
    let mut initial = WorkspaceRegistry::open(path("/data/workspaces.json"), None).unwrap();
    let id = initial.resolve_or_create_canonical(&canonical).unwrap();
    let mut reopened =
        WorkspaceRegistry::open(path("/data/workspaces.json"), file(initial.document)).unwrap();
    assert_eq!(reopened.lookup_canonical(&canonical), Some(id));
    assert_eq!(reopened.resolve_or_create_canonical(&canonical).unwrap(), id);
}

#[test]
fn registry_assigns_distinct_ids_to_distinct_canonical_roots() {
    let mut registry = WorkspaceRegistry::open_in(&path("/data"), None).unwrap();
    let left = CanonicalPath::new(path("/work/left")).unwrap();
    let right = CanonicalPath::new(path("/work/right")).unwrap();
    assert_ne!(
        registry.resolve_or_create_canonical(&left).unwrap(),
        registry.resolve_or_create_canonical(&right).unwrap()
    );
}

#[test]
fn registry_rejects_bad_document_without_allocating_a_new_id() {
    let document = RegistryDocument {
        format_version: 99,
        workspaces: vec![],
    };
    assert!(WorkspaceRegistry::open(path("/data/workspaces.json"), file(document)).is_err());
    let nil = RegistryDocument {
        format_version: RegistryDocument::empty().format_version,
        workspaces: vec![RegistryEntry {
            key: encode_os_path(&path("/work/project")),
            id: WorkspaceId::from_uuid(0),
        }],
    };
    assert!(WorkspaceRegistry::open(path("/data/workspaces.json"), file(nil)).is_err());
    let large = RegistryFile {
        size: 1024 * 1024 + 1,
        document: RegistryDocument::empty(),
    };
    assert!(matches!(
        WorkspaceRegistry::open(path("/data/workspaces.json"), Some(large)),
        Err(RegistryError::Storage(StorageError::DocumentTooLarge { .. }))
    ));
    assert!(matches!(
        WorkspaceRegistry::open(path("/data/.."), None),
        Err(RegistryError::Storage(StorageError::MissingFileName { .. }))
    ));
    assert!(matches!(
        WorkspaceRegistry::open(path("/"), None),
        Err(RegistryError::Storage(StorageError::MissingParent { .. }))
    ));
    assert!(matches!(
        WorkspaceRegistry::open_in(&path("data"), None),
        Err(RegistryError::Storage(StorageError::RelativePath { .. }))
    ));
}

#[test]
fn state_root_never_creates_a_workspace_dot_directory() {
    let registry = WorkspaceRegistry::open_in(&path("/data"), None).unwrap();
    assert_eq!(registry.path(), &path("/data/workspaces.json"));
}

#[test]
fn canonical_path_json_round_trips_losslessly() {
    let canonical = CanonicalPath::new(path("/tmp/bone workspace")).unwrap();
    let encoded = canonical.storage_encoding();
    let decoded = CanonicalPath::new(decode_os_path(&encoded).unwrap()).unwrap();
    assert_eq!(decoded, canonical);
    assert!(encoded.contains("unix:"));
    assert_eq!(encoded, "unix:2f746d702f626f6e6520776f726b7370616365");
}

#[test]
fn discovery_uses_exact_directory_and_preserves_display_path() {
    let mut registry = WorkspaceRegistry::open_in(&path("/data"), None).unwrap();
    let canonical = CanonicalPath::new(path("/private/work/nested")).unwrap();
    assert_eq!(
        canonical.copy().into_path_buf(),
        path("/private/work/nested")
    );
    let context = WorkspaceContext::discover(
        path("/work/nested"),
        path("/private/work/nested"),
        true,
        &mut registry,
    )
    .unwrap();
    assert_eq!(registry.lookup_canonical(&canonical), Some(context.id()));
    assert_eq!(context.display_root(), &path("/work/nested"));
    assert_eq!(context.canonical_root(), &path("/private/work/nested"));
    assert_eq!(
        absolute_display_path(&path("nested"), &path("/work")),
        path("/work/nested")
    );
    assert_eq!(
        absolute_display_path(&path("/elsewhere"), &path("/work")),
        path("/elsewhere")
    );
}

#[test]
fn symlink_spellings_resolve_to_one_workspace_id() {
    let mut registry = WorkspaceRegistry::open_in(&path("/data"), None).unwrap();
    let direct = WorkspaceContext::discover(
        path("/work/project"),
        path("/work/project"),
        true,
        &mut registry,
    )
    .unwrap();
    let through_link = WorkspaceContext::discover(
        path("/links/workspace-link"),
        path("/work/project"),
        true,
        &mut registry,
    )
    .unwrap();
    assert_eq!(direct.id(), through_link.id());
    assert_eq!(through_link.display_root(), &path("/links/workspace-link"));
}

#[test]
fn relative_canonical_paths_are_refused() {
    assert!(matches!(
        CanonicalPath::new(path("relative")),
        Err(WorkspaceError::NonAbsoluteCanonicalPath { .. })
    ));
}

#[test]
fn hexadecimal_text_is_read_back() {
    assert_eq!(hex_encode(&[0, 171, 255]), "00abff");
    assert_eq!(hex_decode(b"00abff").unwrap(), vec![0, 171, 255]);
    assert!(hex_decode(b"0").is_err());
    assert!(hex_decode(b"zz").is_err());
    assert!(decode_os_path("plain text").is_err());
}

fn sessions() -> SessionStore {
    SessionStore::new(context())
}

#[test]
fn writer_keeps_its_revision_private_and_updates_its_own_record() {
    let mut sessions = sessions();
    let mut writer = sessions
        .create_writer("New conversation".to_string(), time(1))
        .unwrap();
    let id = writer.session_id();
    writer
        .rename(&mut sessions, "Renamed".to_string(), time(2))
        .unwrap();
    assert_eq!(writer.record().metadata.title, "Renamed");
    assert_eq!(&sessions.get(id).unwrap().unwrap(), writer.record());
}

#[test]
fn held_writer_is_reported_without_exposing_a_second_mutation_path() {
    let mut sessions = sessions();
    let writer = sessions
        .create_writer("First conversation".to_string(), time(1))
        .unwrap();
    assert!(matches!(
        sessions.try_open_writer(writer.session_id()),
        Err(SessionLeaseError::HeldElsewhere { .. })
    ));
    let id = writer.session_id();
    sessions.release(writer);
    assert!(sessions.try_open_writer(id).is_ok());
    assert!(matches!(
        sessions.try_open_writer(SessionId::new()),
        Err(SessionLeaseError::NotFound(_))
    ));
}

#[test]
fn writer_appends_facts_and_readers_remain_lease_free() {
    let mut sessions = sessions();
    let writer = sessions
        .create_writer("First conversation".to_string(), time(1))
        .unwrap();
    let id = writer.session_id();
    writer
        .append(&mut sessions, interrupted("test shutdown"), time(2))
        .unwrap();
    assert_eq!(sessions.journal(id).unwrap().len(), 1);
}

#[test]
fn accepted_turn_rolls_back_the_summary_when_the_fact_is_invalid() {
    let mut sessions = sessions();
    let mut writer = sessions
        .create_writer("First conversation".to_string(), time(1))
        .unwrap();
    let before = writer.record().copy();
    let mut next = before.copy();
    next.draft = SessionDraft::empty();
    next.status.execution = SessionExecution::QueuedForRuntime;
    assert!(writer
        .accept_turn(
            &mut sessions,
            next,
            JournalFact::UserTurnAccepted {
                turn: 0,
                text: "hello".into(),
                effective_config_revision: "fingerprint".into(),
                solver_model: "model".into(),
            },
            time(2)
        )
        .is_err());
    assert_eq!(writer.record(), &before);
    assert!(sessions.journal(before.id).unwrap().is_empty());
}

#[test]
fn listing_reports_a_key_payload_mismatch_without_hiding_healthy_sessions() {
    let context = context();
    let healthy = SessionRecord::new(&context, "Healthy conversation".to_string()).unwrap();
    let mismatched_key = SessionId::new();
    let mismatched = SessionRecord::new(&context, "Mismatched conversation".to_string()).unwrap();
    let key = |id| DurableKey::SessionDocument(context.id(), id).to_text();
    let listing = list(
        &context,
        &vec![
            ListedDocument {
                key: key(healthy.id),
                snapshot: Ok(Some(healthy.copy())),
            },
            ListedDocument {
                key: key(mismatched_key),
                snapshot: Ok(Some(mismatched)),
            },
        ],
    );
    assert_eq!(listing.records, vec![healthy]);
    assert_eq!(listing.issues.len(), 1);
    assert_eq!(listing.issues[0].session_id, Some(mismatched_key));
    assert!(listing.issues[0].message.contains("does not match"));
}

#[test]
fn listing_reports_one_decode_error_and_returns_the_healthy_session() {
    let context = context();
    let healthy = SessionRecord::new(&context, "Healthy conversation".to_string()).unwrap();
    let damaged_id = SessionId::new();
    let listing = list(
        &context,
        &vec![
            ListedDocument {
                key: DurableKey::SessionDocument(context.id(), healthy.id).to_text(),
                snapshot: Ok(Some(healthy.copy())),
            },
            ListedDocument {
                key: DurableKey::SessionDocument(context.id(), damaged_id).to_text(),
                snapshot: Err("could not decode the document".to_string()),
            },
            ListedDocument {
                key: "elsewhere".to_string(),
                snapshot: Ok(None),
            },
        ],
    );
    assert_eq!(listing.records, vec![healthy]);
    assert_eq!(listing.issues.len(), 2);
    assert_eq!(listing.issues[0].session_id, Some(damaged_id));
    assert!(listing.issues[0].message.contains("decode"));
    assert_eq!(listing.issues[1].session_id, None);
}

#[test]
fn records_are_checked() {
    let context = context();
    assert!(matches!(
        SessionRecord::new_at(&context, SessionId::new(), " ".to_string(), time(1)),
        Err(RecordError::EmptyTitle)
    ));
    assert!(SessionDraft::new("héllo", 2).is_err());
    assert!(SessionDraft::new("héllo", 3).is_ok());
    assert!(SessionDraft::new("hello", 6).is_err());
    assert_eq!(SessionStatus::default().execution, SessionExecution::Draft);
    assert_eq!(
        UnixMillis::from_millis(-1),
        Err(RecordError::InvalidTimestamp)
    );
    assert_eq!(
        UnixMillis::from_clock(None),
        Err(RecordError::ClockBeforeUnixEpoch)
    );
    assert_eq!(
        UnixMillis::from_clock(Some(u128::MAX)),
        Err(RecordError::ClockOutOfRange)
    );
    assert!(UnixMillis::now().unwrap().as_millis() > 1_600_000_000_000);
}

#[test]
fn a_record_keeps_its_identity_when_it_is_replaced() {
    let mut sessions = sessions();
    let mut writer = sessions
        .create_writer("First".to_string(), time(1))
        .unwrap();
    let mut next = writer.record().copy();
    next.id = SessionId::new();
    assert!(writer.replace(&mut sessions, next, time(2)).is_err());
    let next = writer.record().copy();
    writer.replace(&mut sessions, next, time(9)).unwrap();
    assert_eq!(writer.record().metadata.updated_at, time(9));
    writer
        .mark_opened(&mut sessions, time(10), time(11))
        .unwrap();
    assert_eq!(writer.record().metadata.last_opened_at, time(10));
    let gone = SessionStoreError::NotFound(writer.session_id());
    assert!(gone.message().contains(&writer.session_id().text()));
}

#[test]
fn addresses_are_part_of_the_format() {
    let workspace = WorkspaceId::from_uuid(1);
    let session = SessionId::from_uuid(2);
    assert_eq!(
        DurableKey::SessionJournal(workspace, session).to_text(),
        "workspace/00000000-0000-0000-0000-000000000001/session/00000000-0000-0000-0000-000000000002/events"
    );
    assert_eq!(
        DurableKey::WorkspaceSettings(workspace).to_text(),
        "workspace/00000000-0000-0000-0000-000000000001/settings"
    );
    assert_eq!(
        DurableKey::SessionWriterLease(session).to_text(),
        "session-00000000-0000-0000-0000-000000000002"
    );
    assert_eq!(DurableKey::GlobalSettings.namespace(), "settings");
    assert_eq!(DurableKey::GlobalSettings.to_text(), "global");
    assert_eq!(DurableKey::WorkspaceRegistry.namespace(), "state");
    assert_eq!(DurableKey::WorkspaceRegistry.to_text(), "workspace-registry");
}

#[test]
fn registry_rejects_symlink_documents() {
    let facts = |kind, mode, links| EntryFacts {
        kind,
        owner: 1000,
        links,
        mode,
    };
    let document = path("/data/workspaces.json");
    assert!(matches!(
        bone_app::durable::storage::validate_existing_file(
            &document,
            facts(EntryKind::Symlink, 0o600, 1)
        ),
        Err(StorageError::UnsafeStorage { .. })
    ));
    assert!(validate_open_file(&document, facts(EntryKind::File, 0o100600, 1)).is_ok());
    assert!(matches!(
        validate_open_file(&document, facts(EntryKind::File, 0o100640, 1)),
        Err(StorageError::UnsafeStorage { reason, .. })
            if reason == "storage file must not grant group or other access"
    ));
    assert!(matches!(
        validate_open_file(&document, facts(EntryKind::File, 0o100600, 2)),
        Err(StorageError::UnsafeStorage { reason, .. })
            if reason == "storage file must not have hard links"
    ));
    assert!(validate_private_directory(&path("/data"), facts(EntryKind::Directory, 0o40700, 3)).is_ok());
    assert!(validate_private_directory(&path("/data"), facts(EntryKind::Directory, 0o40755, 3)).is_err());
}

#[test]
fn documents_are_bounded_and_framed() {
    let document = path("/data/workspaces.json");
    assert_eq!(lock_path(&document), path("/data/workspaces.json.lock"));
    assert_eq!(
        framed_document(&document, b"{}".to_vec(), 3).unwrap(),
        b"{}\n".to_vec()
    );
    assert!(matches!(
        framed_document(&document, b"{}".to_vec(), 2),
        Err(StorageError::DocumentTooLarge {
            maximum_bytes: 2,
            ..
        })
    ));
    assert!(check_document_size(&document, 10, 10).is_ok());
    assert!(check_document_size(&document, 11, 10).is_err());
    assert_eq!(private_file_path(&document).unwrap(), document);
    assert_eq!(
        private_file_path(&path("/data//./sessions.json/")).unwrap(),
        path("/data/sessions.json")
    );
    assert!(matches!(
        private_file_path(&path("relative")),
        Err(StorageError::RelativePath { .. })
    ));
    assert!(matches!(
        private_file_path(&path("/")),
        Err(StorageError::MissingParent { .. })
    ));
}

#[test]
fn a_journal_file_is_read_within_its_limit() {
    let journal = SessionJournal::open(SessionId::new(), path("/data/journal.jsonl"));
    let missing = journal.lines(None).unwrap();
    assert!(missing.lines.is_empty());
    assert!(missing.problem.is_none());
    let found = journal.lines(Some(b"one\ntwo\n".to_vec())).unwrap();
    assert_eq!(found.lines, vec![b"one".to_vec(), b"two".to_vec()]);
    assert!(matches!(
        journal.lines(Some(vec![b'\n'; 64 * 1024 * 1024 + 1])),
        Err(JournalError::Storage(StorageError::DocumentTooLarge {
            maximum_bytes: 67_108_864,
            ..
        }))
    ));
}

#[test]
fn an_appended_fact_is_read_back_behind_the_others() {
    let journal = SessionJournal::open(SessionId::new(), path("/data/journal.jsonl"));
    let now = UnixMillis::from_millis(10).unwrap();
    let fact = || reply("hello");
    let mut decoded: Vec<Result<JournalEntry, String>> = vec![];
    for expected in 1..=3 {
        let read = journal.read(&decoded, None).unwrap();
        let entry = journal
            .append_inner(&read, None, fact(), now)
            .unwrap();
        assert_eq!(entry.sequence.value(), expected);
        assert_eq!(entry.format_version, 2);
        decoded.push(Ok(entry));
        assert_eq!(
            journal.read(&decoded, None).unwrap().entries.len() as u64,
            expected
        );
    }
    let read = journal.read(&decoded, None).unwrap();
    assert!(matches!(
        journal.append_inner(&read, Some(JournalSequence::first()), fact(), now),
        Err(JournalError::SequenceConflict { .. })
    ));
    let damaged = journal
        .read(&decoded, Some(LineProblem::Unterminated))
        .unwrap();
    assert!(matches!(
        journal.append_inner(&damaged, None, fact(), now),
        Err(JournalError::NeedsRecovery { .. })
    ));
}

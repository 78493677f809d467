use bone_app::api::{
    default_view, RuntimeState, SessionInfo, SessionSeq, WorkspaceBaseline, WorkspaceFileMedia,
    WorkspaceFilePage, WorkspaceFileSource,
};
use bone_app::config::{EndpointConfig, ModelSelection, Profile, ProfileId, Protocol};
use bone_app::credentials::{endpoint_fingerprint, profile_description, CredentialError};
use bone_app::durable::repository::{list, ListedDocument, SessionStore};
use bone_app::durable::session::{
    AttentionFlags, SessionAttention, SessionDraft, SessionExecution, SessionRecord,
};
use bone_app::durable::time::UnixMillis;
use bone_app::durable::workspace::{CanonicalPath, WorkspaceContext};
use bone_app::durable::keys::DurableKey;
use bone_app::error::{CredentialProblemKind, Error, StoreError};
use bone_app::ids::{
    AcceptanceId, AcceptanceRequestId, IdError, RequestId, RuntimeId, SessionId, WorkspaceId,
};
use bone_app::path::FilePath;
use bone_app::providers::{
    chatgpt_error, connect_chatgpt, is_subscription, login_target, logout_source, set_api_key,
    EndpointSource, ProviderConnectError,
};
use bone_app::record::ExternalEffect;
use bone_app::safe_file::{validate_regular_file, EntryFacts, EntryKind, UnsafeEntry};
use bone_app::session::agent::{
    needs_settlement, uncertain, AgentCall, AgentView, CallKind, CallStatus,
};
use bone_app::session::lifecycle::closed_status;

use bone_app::startup::{
    DraftAction, DraftDisposition, DraftSearch, OpenOutcome, NEW_CONVERSATION_TITLE,
};
use bone_app::text::{
    any_control, blank, byte_len, decimal_string, padded_string, same_text, starts_with, trimmed,
};

fn endpoint(protocol: Protocol, base_url: Option<&str>) -> EndpointConfig {
    EndpointConfig {
        protocol,
        base_url: base_url.map(str::to_owned),
        valid: true,
    }
}

fn work_profile() -> Profile {
    Profile::new(
        ProfileId::new("work").unwrap(),
        "Work",
        endpoint(Protocol::OpenAiResponses, None),
    )
    .unwrap()
}

fn context() -> WorkspaceContext {
    WorkspaceContext::from_canonical(
        WorkspaceId::new(),
        CanonicalPath::new(FilePath::from_text("/work")).unwrap(),
        FilePath::from_text("/work"),
    )
    .unwrap()
}

fn time(milliseconds: i64) -> UnixMillis {
    UnixMillis::from_millis(milliseconds).unwrap()
}

#[test]
fn injected_store_boots_a_durable_draft_without_model_or_oauth() {
    let mut sessions = SessionStore::new(context());
    let (mut search, action) = DraftSearch::new();
    assert_eq!(action, DraftAction::List);
    let listing = list(sessions.workspace(), &vec![]);
    assert_eq!(search.listed(&listing), DraftAction::Create);
    let writer = sessions
        .create_writer(NEW_CONVERSATION_TITLE.to_string(), time(1))
        .unwrap();
    let disposition = DraftDisposition::Created;
    assert_eq!(disposition, DraftDisposition::Created);
    assert_eq!(writer.record().metadata.title, NEW_CONVERSATION_TITLE);
}

#[test]
fn startup_tries_the_newest_conversation_first() {
    let context = context();
    let record = |opened: i64| {
        SessionRecord::new_at(
            &context,
            SessionId::new(),
            format!("opened at {opened}"),
            time(opened),
        )
        .unwrap()
    };
    let older = record(1);
    let newer = record(2);
    let listed = |record: &SessionRecord| ListedDocument {
        key: DurableKey::SessionDocument(context.id(), record.id).to_text(),
        snapshot: Ok(Some(record.copy())),
    };
    let listing = list(&context, &vec![listed(&older), listed(&newer)]);
    let (mut search, _) = DraftSearch::new();
    assert_eq!(search.listed(&listing), DraftAction::Open(newer.id));
    assert_eq!(
        search.failed(OpenOutcome::HeldElsewhere),
        DraftAction::Open(older.id)
    );
    assert_eq!(search.failed(OpenOutcome::Changed), DraftAction::List);
    for _ in 0..7 {
        search.listed(&listing);
    }
    assert_eq!(search.failed(OpenOutcome::Changed), DraftAction::GiveUp);
}

#[test]
fn missing_cache_requires_explicit_login_without_starting_network() {
    assert_eq!(
        connect_chatgpt(false),
        Err(ProviderConnectError::LoginRequired(ProfileId::chatgpt()))
    );
    assert_eq!(connect_chatgpt(true), Ok(()));
}

#[test]
fn logins_and_keys_belong_to_different_profiles() {
    let subscription = Profile::chatgpt();
    let work = work_profile();
    assert!(is_subscription(&subscription));
    assert!(!is_subscription(&work));
    assert!(login_target(&subscription).is_ok());
    assert!(login_target(&work).is_err());
    assert!(set_api_key(&work).is_ok());
    assert!(set_api_key(&subscription).is_err());
    assert_eq!(logout_source(&work), Ok(EndpointSource::ApiKey));
    assert_eq!(
        logout_source(&subscription),
        Ok(EndpointSource::Subscription)
    );
    assert!(matches!(
        chatgpt_error(CredentialError::Unavailable),
        ProviderConnectError::Credential(problem)
            if problem.kind == CredentialProblemKind::Unavailable
    ));
    assert_eq!(
        profile_description(&work.endpoint),
        "openai-responses"
    );
}

#[test]
fn fingerprints_are_digests_of_the_place() {
    assert_eq!(
        endpoint_fingerprint(&endpoint(Protocol::OpenAiResponses, None)).unwrap(),
        "48a2ff6b42e01f0a85f859ef0fbce090454f8463199359c984814e110cad7a75"
    );
    assert_eq!(
        endpoint_fingerprint(&endpoint(
            Protocol::OpenAiResponses,
            Some("https://example.test/v1/")
        ))
        .unwrap(),
        "94f7e9a2d5382444ed05cff9358fdc4a5cc1050eb4e29c7b16ea63c7aa2f740c"
    );
    assert!(endpoint_fingerprint(&endpoint(Protocol::OpenAiResponses, Some("no url"))).is_err());
}

#[test]
fn identities_have_a_text() {
    let id = SessionId::from_uuid(0x1234_5678_9abc_def0_1234_5678_9abc_def0);
    assert_eq!(id.text(), "12345678-9abc-def0-1234-56789abcdef0");
    assert_eq!(SessionId::parse_str(&id.text()), Ok(id));
    assert_eq!(SessionId::parse_str("nonsense"), Err(IdError::NotUuid));
    assert_eq!(
        WorkspaceId::parse_str("12345678-9abc-def0-1234-56789abcdef0"),
        Ok(WorkspaceId::from_uuid(id.as_uuid()))
    );
    assert!(!SessionId::new().is_nil());
    assert!(WorkspaceId::from_uuid(0).is_nil());
    assert_ne!(RequestId::new(), RequestId::default());
    assert_ne!(RuntimeId::new().as_uuid(), 0);
    assert_eq!(AcceptanceId::from_uuid(5).as_uuid(), 5);
    assert_eq!(
        AcceptanceRequestId::from_uuid(1).text(),
        "00000000-0000-0000-0000-000000000001"
    );
}

#[test]
fn calls_without_a_known_effect_await_settlement() {
    let call = |id, status| AgentCall {
        id,
        job: None,
        kind: CallKind::Tool,
        tool: Some("bash".into()),
        status,
        progress: None,
    };
    let view = AgentView {
        inputs: vec![],
        jobs: vec![],
        calls: vec![
            call(1, CallStatus::Active),
            call(
                2,
                CallStatus::Finished {
                    external_effect: ExternalEffect::Unknown,
                },
            ),
            call(
                3,
                CallStatus::Finished {
                    external_effect: ExternalEffect::Applied,
                },
            ),
        ],
        records: vec![],
    };
    let unsettled: Vec<u64> = view
        .calls
        .iter()
        .filter(|call| uncertain(call))
        .map(|call| call.id)
        .collect();
    assert_eq!(unsettled, vec![2]);
    assert!(needs_settlement(&view, 2));
    assert!(!needs_settlement(&view, 3));
    assert_eq!(
        closed_status(&vec![]),
        bone_app::api::SessionReleaseStatus::Released
    );
}

#[test]
fn a_writer_changes_every_part_of_its_record() {
    let mut sessions = SessionStore::new(context());
    let mut writer = sessions
        .create_writer("First".to_string(), time(1))
        .unwrap();
    writer
        .update_draft(&mut sessions, SessionDraft::new("text", 4).unwrap(), time(2))
        .unwrap();
    assert_eq!(writer.record().draft.text, "text");
    let mut status = writer.record().status;
    status.execution = SessionExecution::Ready;
    status.attention.insert(SessionAttention::Unread);
    writer
        .update_status(&mut sessions, status, time(3))
        .unwrap();
    assert!(writer
        .record()
        .status
        .attention
        .contains(SessionAttention::Unread));
    assert_ne!(
        writer.record().status.attention,
        AttentionFlags {
            unread: false,
            unresolved_effect: false,
            config_pending: false,
            recovery_needed: false
        }
    );
    writer
        .set_solver_model_override(
            &mut sessions,
            Some(ModelSelection::new(ProfileId::chatgpt(), "solver").unwrap()),
            time(4),
        )
        .unwrap();
    assert_eq!(
        writer
            .record()
            .metadata
            .solver_model_override
            .as_ref()
            .unwrap()
            .model,
        "solver"
    );
    assert_eq!(
        &sessions.get(writer.session_id()).unwrap().unwrap(),
        writer.record()
    );
}

#[test]
fn a_file_page_is_truncated_where_another_follows() {
    let page = WorkspaceFilePage {
        baseline: WorkspaceBaseline::NotGit,
        path: "src/lib.rs".into(),
        source: WorkspaceFileSource::DiffAgainstHead,
        media: WorkspaceFileMedia::Text,
        text: Some("+line".into()),
        offset: 0,
        bytes_read: 5,
        total_bytes: Some(5),
        next_cursor: None,
    };
    let view = page.into_view();
    assert!(!view.truncated);
    assert_eq!(view.bytes_read, 5);
    let info = SessionInfo {
        id: SessionId::new(),
        workspace: WorkspaceId::new(),
        title: "New".into(),
        archived: false,
    };
    let session = default_view(info.clone());
    assert_eq!(session.session, info);
    assert_eq!(session.runtime, RuntimeState::Detached);
    assert_eq!(session.history_through, SessionSeq(0));
}

#[test]
fn regular_files_are_told_from_others() {
    let facts = |kind| EntryFacts {
        kind,
        owner: 0,
        links: 1,
        mode: 0,
    };
    assert_eq!(validate_regular_file(facts(EntryKind::File)), Ok(()));
    assert_eq!(
        validate_regular_file(facts(EntryKind::Directory)),
        Err(UnsafeEntry::NotAFile)
    );
}

#[test]
fn store_errors_keep_their_kind() {
    assert_eq!(
        StoreError::ConfigVersion {
            expected: 1,
            actual: 2
        }
        .into_error(),
        Error::ConfigVersion {
            expected: 1,
            actual: 2
        }
    );
    assert_eq!(
        StoreError::Corrupt { message: "broken" }.into_error(),
        Error::Storage("broken".into())
    );
    assert_eq!(
        StoreError::Busy.message(),
        "the store is busy".to_string()
    );
}

#[test]
fn text_helpers_follow_unicode() {
    assert_eq!(trimmed("\u{3000} a b \n"), "a b");
    assert!(blank("\u{85}\t"));
    assert!(!blank("x"));
    assert_eq!(byte_len("🦴é"), 6);
    assert_eq!(decimal_string(1200), "1200");
    assert_eq!(padded_string(42, 6), "000042");
    assert!(any_control("a\u{7f}"));
    assert!(starts_with("input/1", "input/"));
    assert!(same_text("a", "a"));
}

#[test]
fn paths_are_joined_and_split() {
    let root = FilePath::from_text("/work");
    assert_eq!(
        root.join(&FilePath::from_text("a/b")),
        FilePath::from_text("/work/a/b")
    );
    assert_eq!(
        root.join(&FilePath::from_text("/other")),
        FilePath::from_text("/other")
    );
    assert_eq!(
        FilePath::from_text("/work/a").parent(),
        Some(FilePath::from_text("/work"))
    );
    for (whole, parent, name) in [
        ("/", None, None),
        ("//", None, None),
        ("/.", None, None),
        ("", None, None),
        ("/a", Some("/"), Some("a")),
        ("/a/", Some("/"), Some("a")),
        ("/a/.", Some("/"), Some("a")),
        ("//a", Some("/"), Some("a")),
        ("/a//b", Some("/a"), Some("b")),
        ("/a/./b", Some("/a"), Some("b")),
        ("/a/..", Some("/a"), None),
        ("a", Some(""), Some("a")),
        ("./a", Some("."), Some("a")),
        (".", Some(""), None),
        ("/a/...", Some("/a"), Some("...")),
    ] {
        let path = FilePath::from_text(whole);
        assert_eq!(path.parent(), parent.map(FilePath::from_text), "{whole}");
        assert_eq!(path.file_name(), name.map(FilePath::from_text), "{whole}");
    }
}

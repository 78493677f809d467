use bone_app::api::{
    AcceptanceDecision, AcceptanceSubmission, ActivityKind, AppProblem, CallRef, CommandReceipt,
    HistoryCursor, InputId, InputState, JobOwner, JobRef, JobState, LoginState, QuestionId,
    ResultRef, RuntimeState, SessionReleaseStatus, SessionRetentionReason, SessionSeq,
    SubmitInput, WaitReason, WriteResolution,
};
use bone_app::app::live::{Lookup, ReleaseStart};
use bone_app::app::login::LoginEvent;
use bone_app::app::reload::{key_outcome, Reload};
use bone_app::app::shutdown::{Shutdown, ShutdownStep};
use bone_app::app::App;
use bone_app::config::{
    resolve_runtime, AgentLimits, ConfigChange, ConfigProblem, ConfigScope, EndpointConfig,
    ModelSelection, Profile, ProfileId, Protocol, RuntimeConfig, RuntimeOverrides,
    RuntimeSettings, ToolLimits,
};
use bone_app::credentials::{ApiKey, ApiKeyCredentialError, CredentialContent};
use bone_app::error::{CredentialProblemKind, Error, StoreError};
use bone_app::file_config::{
    project_path, AdapterDefaults, FileConfigs, FileContent, ProjectConfig, UserConfig,
};
use bone_app::ids::{AcceptanceId, AcceptanceRequestId, RuntimeId, SessionId, WorkspaceId};
use bone_app::path::FilePath;
use bone_app::persistence::core_state::DurableCommit;
use bone_app::persistence::{CoreSnapshot, DataStore};
use bone_app::providers::{
    connect, connect_chatgpt, logout_source, provision_error, EndpointSource,
    ProviderConnectError,
};
use bone_app::record::{ExternalEffect, InputOutcome, OutcomeKind, Record, RecordBody};
use bone_app::safe_file::{
    next_lock_step, private_directory_exists, validate_private_file, EntryFacts, EntryKind,
    LockStep, UnsafeEntry,
};
use bone_app::session::actor::{claim_error, SessionActor};
use bone_app::session::agent::{
    project_runtime, reconfigure_error, AgentCall, AgentError, AgentInput, AgentInputStatus,
    AgentJob, AgentView, CallKind, CallStatus, ControlOutcome, JobStatus, Owner, WaitView,
};
use bone_app::session::commands::{stop_receipt, ResolveStep, RetryStep};
use bone_app::session::configuring::ConfigNext;
use bone_app::session::delivery::{Delivery, DeliveryStep};
use bone_app::session::handling::{Command, Handling, Reply, Work};
use bone_app::session::lifecycle::{CloseStep, ConfigStep, PendingWrite, ReleaseStep};
use bone_app::session::requests::{
    check_acceptance, check_draft, check_history_cursor, check_input, check_resolution,
    page_limit,
};
use bone_app::title::{title_from_first_input, validate_title};

fn defaults() -> AdapterDefaults {
    AdapterDefaults {
        limits: AgentLimits {
            context_bytes: 262_144,
            item_bytes: 65_536,
            tool_output_bytes: 65_536,
            tool_timeout: 60_000_000_000,
            encoded: String::new(),
            valid: true,
        },
        tools: ToolLimits {
            max_output_bytes: 65_536,
            max_patch_bytes: 65_536,
            max_bash_timeout: 120_000_000_000,
            encoded: String::new(),
            valid: true,
        },
    }
}

fn selection(model: &str) -> ModelSelection {
    ModelSelection::new(ProfileId::chatgpt(), model).unwrap()
}

fn config(model: &str) -> RuntimeConfig {
    let mut settings = RuntimeSettings::defaults(defaults().limits, defaults().tools);
    settings.worker = Some(selection(model));
    resolve_runtime(
        &settings,
        None,
        None,
        &vec![Profile::chatgpt()],
        FilePath::from_text("/work"),
    )
    .unwrap()
}

struct Open {
    store: DataStore,
    workspace: WorkspaceId,
    actor: SessionActor,
}

fn open() -> Open {
    let mut store = DataStore::empty();
    let workspace = store.workspace(FilePath::from_text("/work")).id;
    let saved = store
        .create_session(workspace, "session".to_string())
        .unwrap();
    let actor = SessionActor::open(&saved, &vec![]);
    Open {
        store,
        workspace,
        actor,
    }
}

fn running(open: &mut Open) -> RuntimeId {
    let runtime = RuntimeId::new();
    open.actor.begin_start(runtime);
    assert!(open.actor.take_ready(runtime));
    open.actor
        .install(&mut open.store, runtime, config("m"), 0, 1)
        .unwrap();
    runtime
}

fn empty_agent() -> AgentView {
    AgentView {
        inputs: vec![],
        jobs: vec![],
        calls: vec![],
        records: vec![],
    }
}

fn commit(open: &mut Open, runtime: RuntimeId, revision: u64, records: Vec<Record>) {
    let through = records.last().unwrap().seq;
    let commit = DurableCommit {
        commit_id: format!("commit-{revision}"),
        expected_revision: revision,
        snapshot: CoreSnapshot {
            encoded: "{}".into(),
            through,
        },
        records,
    };
    let encoded = format!("{commit:?}").into_bytes();
    open.store
        .commit_core_in_runtime(open.actor.info.id, runtime, &commit, &encoded)
        .unwrap();
}

#[test]
fn an_input_goes_from_the_queue_to_its_end() {
    let mut open = open();
    let receipt = open
        .actor
        .submit(&mut open.store, &SubmitInput::new("do it"), 1)
        .unwrap();
    assert_eq!(open.actor.deliver_queued(), DeliveryStep::Start);
    let runtime = running(&mut open);
    assert_eq!(
        open.actor.deliver_queued(),
        DeliveryStep::Post(vec![receipt.input])
    );
    let delivery = open
        .actor
        .begin_delivery(&mut open.store, receipt.input, 2)
        .unwrap();
    assert_eq!(
        delivery,
        Delivery::Post {
            runtime,
            text: "do it".into(),
            reply_to: None
        }
    );
    assert_eq!(
        open.actor
            .end_delivery(&mut open.store, receipt.input, runtime, Ok(()), 3),
        Ok(true)
    );
    assert!(matches!(
        open.actor.list_inputs()[0].state,
        InputState::Accepted { .. }
    ));
    let records = vec![
        Record {
            seq: 1,
            body: RecordBody::Clarification {
                inputs: vec![receipt.input],
                question: "which one?".into(),
            },
        },
        Record {
            seq: 2,
            body: RecordBody::Input {
                reply_to: Some(receipt.input),
                expected_question: Some(1),
            },
        },
        Record {
            seq: 3,
            body: RecordBody::InputFinished {
                input: receipt.input,
                outcome: InputOutcome::Other(1),
            },
        },
    ];
    let seen = |count: usize| -> Vec<Record> { records.iter().take(count).map(Record::copy).collect() };
    commit(&mut open, runtime, 0, seen(3));
    open.actor
        .archive_snapshot(&mut open.store, &seen(1), 4)
        .unwrap();
    assert!(matches!(
        &open.actor.list_inputs()[0].state,
        InputState::WaitingForUser { question, .. }
            if *question == QuestionId { runtime, record: 1, reply_to: receipt.input }
    ));
    open.actor
        .archive_snapshot(&mut open.store, &seen(2), 5)
        .unwrap();
    assert!(matches!(
        open.actor.list_inputs()[0].state,
        InputState::Accepted { .. }
    ));
    open.actor
        .archive_snapshot(&mut open.store, &seen(3), 6)
        .unwrap();
    assert!(open.actor.list_inputs().is_empty());
    assert!(matches!(
        open.store.input(open.actor.info.id, receipt.input).unwrap().state,
        InputState::Finished { .. }
    ));
    assert_eq!(open.actor.runtime.unwrap().agent_through, 3);
}

#[test]
fn a_record_without_a_runtime_is_not_archived() {
    let mut open = open();
    running(&mut open);
    let error = open
        .actor
        .archive_snapshot(
            &mut open.store,
            &vec![Record {
                seq: 1,
                body: RecordBody::Report {
                    summary: "x".into(),
                },
            }],
            2,
        )
        .unwrap_err();
    assert_eq!(
        error,
        Error::Agent("Core record has no runtime provenance".into())
    );
}

#[test]
fn an_answer_to_an_old_question_is_rejected() {
    let mut open = open();
    let question = QuestionId {
        runtime: RuntimeId::new(),
        record: 1,
        reply_to: InputId(1),
    };
    let receipt = open
        .actor
        .submit(
            &mut open.store,
            &SubmitInput::new("this one").answer(question),
            1,
        )
        .unwrap();
    running(&mut open);
    assert_eq!(
        open.actor
            .begin_delivery(&mut open.store, receipt.input, 2)
            .unwrap(),
        Delivery::Rejected
    );
    assert!(open.actor.list_inputs().is_empty());
    assert!(matches!(
        open.store.input(open.actor.info.id, receipt.input).unwrap().state,
        InputState::Rejected { message }
            if message == "the referenced question belongs to an old runtime"
    ));
}

#[test]
fn the_agents_answer_decides_what_becomes_of_an_input() {
    for (answer, expected) in [
        (Err(AgentError::Busy("busy".into())), Ok(false)),
        (Err(AgentError::Admission("too long".into())), Ok(true)),
        (
            Err(AgentError::Other("crashed".into())),
            Err(Error::Agent("crashed".into())),
        ),
    ] {
        let mut open = open();
        let receipt = open
            .actor
            .submit(&mut open.store, &SubmitInput::new("x"), 1)
            .unwrap();
        let runtime = running(&mut open);
        open.actor
            .begin_delivery(&mut open.store, receipt.input, 2)
            .unwrap();
        let busy = matches!(answer, Err(AgentError::Busy(_)));
        assert_eq!(
            open.actor
                .end_delivery(&mut open.store, receipt.input, runtime, answer, 3),
            expected
        );
        assert_eq!(open.actor.list_inputs().len(), usize::from(busy));
    }
}

#[test]
fn a_configuration_problem_is_shown_on_queued_inputs() {
    let mut open = open();
    open.actor
        .submit(&mut open.store, &SubmitInput::new("x"), 1)
        .unwrap();
    let step = open
        .actor
        .plan_config(Err(Error::Configuration(ConfigProblem::NeedsModel)), false)
        .unwrap();
    assert_eq!(step, ConfigStep::Refuse(ConfigProblem::NeedsModel));
    open.actor
        .set_queued_problem(&mut open.store, &Some(ConfigProblem::NeedsModel))
        .unwrap();
    open.actor.config_refused(ConfigProblem::NeedsModel).unwrap();
    assert_eq!(
        open.actor.deliver_queued(),
        DeliveryStep::Note(ConfigProblem::NeedsModel)
    );
    assert_eq!(
        open.actor.list_inputs()[0].state,
        InputState::Queued {
            problem: Some(ConfigProblem::NeedsModel)
        }
    );
    assert_eq!(
        open.actor.problem,
        Some(AppProblem::Configuration(ConfigProblem::NeedsModel))
    );
    assert_eq!(
        open.actor.plan_config(Ok(config("m")), false).unwrap(),
        ConfigStep::Deliver
    );
    assert_eq!(open.actor.deliver_queued(), DeliveryStep::Start);
}

#[test]
fn a_running_runtime_takes_a_new_configuration() {
    let mut open = open();
    let runtime = running(&mut open);
    assert_eq!(
        open.actor.plan_config(Ok(config("m")), false).unwrap(),
        ConfigStep::Keep
    );
    assert!(matches!(
        open.actor.plan_config(Ok(config("m")), true).unwrap(),
        ConfigStep::Reconfigure { .. }
    ));
    assert!(open.actor.config_blocked);
    open.actor
        .reconfigured(&mut open.store, runtime, config("n"), 5)
        .unwrap();
    open.actor.config_applied();
    match &open.actor.runtime_state {
        RuntimeState::Running { config, .. } => assert_eq!(config.worker.selection.model, "n"),
        _ => panic!("the runtime runs"),
    }
    assert!(open
        .actor
        .reconfigured(&mut open.store, RuntimeId::new(), config("n"), 6)
        .is_err());
    assert!(matches!(
        open.actor.plan_config(Err(Error::Storage("gone".into())), false).unwrap(),
        ConfigStep::Fail(Error::Storage(_))
    ));
}

fn changed(open: &mut Open, force: bool) -> Handling {
    let command = Command::ConfigChanged {
        force,
        defaults: defaults(),
    };
    open.actor.handle(&mut open.store, command, 7)
}

fn select_model(open: &mut Open, model: &str) {
    let scope = ConfigScope::Session(open.actor.info.id);
    let change = ConfigChange::Model(Some(selection(model)));
    open.store.update_config(scope, change, defaults());
}

#[test]
fn a_changed_configuration_is_handled_in_steps() {
    let mut open = open();
    open.actor
        .submit(&mut open.store, &SubmitInput::new("x"), 1)
        .unwrap();
    let refused = ConfigStep::Refuse(ConfigProblem::NeedsModel);
    let handling = changed(&mut open, false);
    assert_eq!(handling.reply, None);
    assert_eq!(handling.work, Work::Configure(refused));
    assert_eq!(
        open.actor.continue_config(
            &mut open.store,
            ConfigStep::Refuse(ConfigProblem::NeedsModel),
            Ok(())
        ),
        Ok(ConfigNext::Done)
    );
    assert_eq!(
        open.actor.problem,
        Some(AppProblem::Configuration(ConfigProblem::NeedsModel))
    );

    select_model(&mut open, "m");
    assert_eq!(
        changed(&mut open, false).work,
        Work::Configure(ConfigStep::Deliver)
    );
    assert_eq!(
        open.actor
            .continue_config(&mut open.store, ConfigStep::Deliver, Ok(())),
        Ok(ConfigNext::Deliver)
    );
    assert_eq!(
        open.actor.list_inputs()[0].state,
        InputState::Queued { problem: None }
    );

    let runtime = RuntimeId::new();
    let wanted = open.actor.resolve_config(&open.store, defaults()).unwrap();
    open.actor.begin_start(runtime);
    assert!(open.actor.take_ready(runtime));
    open.actor
        .install(&mut open.store, runtime, wanted, 0, 1)
        .unwrap();
    assert_eq!(
        changed(&mut open, false).work,
        Work::Configure(ConfigStep::Keep)
    );
    select_model(&mut open, "n");
    match changed(&mut open, false).work {
        Work::Configure(step @ ConfigStep::Reconfigure { .. }) => {
            assert_eq!(
                open.actor.continue_config(
                    &mut open.store,
                    ConfigStep::Fail(Error::WorkspaceNotFound),
                    Err(AgentError::Busy("busy".into()))
                ),
                Err(Error::Agent("busy".into()))
            );
            match open.actor.continue_config(&mut open.store, step, Ok(())) {
                Ok(ConfigNext::Connect { runtime: id, config }) => {
                    assert_eq!(id, runtime);
                    assert_eq!(config.worker.selection.model, "n");
                }
                other => panic!("{other:?}"),
            }
        }
        other => panic!("{other:?}"),
    }
    assert!(open.actor.config_blocked);
    assert_eq!(
        open.actor.continue_config(
            &mut open.store,
            ConfigStep::Fail(Error::WorkspaceNotFound),
            Ok(())
        ),
        Err(Error::WorkspaceNotFound)
    );
    assert_eq!(
        open.actor.continue_config(
            &mut open.store,
            ConfigStep::Refuse(ConfigProblem::NeedsModel),
            Ok(())
        ),
        Err(Error::Configuration(ConfigProblem::NeedsModel))
    );
}

#[test]
fn limits_that_differ_in_any_part_are_another_configuration() {
    let base = config("m");
    assert!(base.same(&config("m")));
    let mut other = config("m");
    other.limits.encoded = "{\"rounds\":9}".into();
    assert!(!base.same(&other));
    let mut other = config("m");
    other.tools.encoded = "{\"files\":9}".into();
    assert!(!base.same(&other));
    let mut open = open();
    let runtime = running(&mut open);
    let mut limited = config("m");
    limited.tools.encoded = "{\"files\":9}".into();
    assert!(matches!(
        open.actor.plan_config(Ok(limited), false).unwrap(),
        ConfigStep::Reconfigure { runtime: id, .. } if id == runtime
    ));
}

#[test]
fn a_failure_stops_the_agent_once() {
    let mut open = open();
    let error = Error::Storage("disk full".into());
    assert!(!open.actor.record_execution_error(&error));
    running(&mut open);
    assert!(open.actor.record_execution_error(&error));
    assert!(!open.actor.record_execution_error(&error));
    assert!(open.actor.execution_blocked);
    assert_eq!(open.actor.problem, Some(AppProblem::Storage("disk full".into())));
    open.actor.refreshed();
    assert!(!open.actor.execution_blocked);
    assert_eq!(open.actor.problem, None);
    assert!(!open.actor.record_execution_error(&Error::RequestConflict));
    assert_eq!(open.actor.problem, None);
}

#[test]
fn stopping_cancels_the_queue_and_the_start() {
    let mut open = open();
    let receipt = open
        .actor
        .submit(&mut open.store, &SubmitInput::new("x"), 1)
        .unwrap();
    assert_eq!(open.actor.cancel_queued(&mut open.store, 2), Ok(true));
    assert_eq!(open.actor.cancel_queued(&mut open.store, 3), Ok(false));
    assert_eq!(open.actor.deliver_queued(), DeliveryStep::Idle);
    assert!(matches!(
        open.store.input(open.actor.info.id, receipt.input).unwrap().state,
        InputState::Cancelled
    ));
    open.actor.begin_start(RuntimeId::new());
    assert!(open.actor.cancel_start());
    assert!(!open.actor.cancel_start());
    assert_eq!(
        stop_receipt(false, true, None),
        CommandReceipt::Applied
    );
    assert_eq!(stop_receipt(false, false, None), CommandReceipt::Unchanged);
    assert_eq!(
        stop_receipt(false, false, Some(ControlOutcome::Applied)),
        CommandReceipt::Applied
    );
}

#[test]
fn a_failed_routing_is_tried_again() {
    let mut open = open();
    let receipt = open
        .actor
        .submit(&mut open.store, &SubmitInput::new("x"), 1)
        .unwrap();
    assert_eq!(
        open.actor.begin_retry(&open.store, receipt.input),
        Ok(RetryStep::Deliver {
            was_starting: false
        })
    );
    assert_eq!(
        open.actor.delivered(receipt.input, false),
        CommandReceipt::Unchanged
    );
    let runtime = running(&mut open);
    let record = Record {
        seq: 1,
        body: RecordBody::InputRoutingFailed {
            inputs: vec![receipt.input],
            message: "no route".into(),
        },
    };
    commit(&mut open, runtime, 0, vec![record.copy()]);
    open.actor
        .archive_snapshot(&mut open.store, &vec![record], 2)
        .unwrap();
    assert_eq!(
        open.actor.begin_retry(&open.store, receipt.input),
        Ok(RetryStep::Ask { runtime })
    );
    let mut agent = empty_agent();
    agent.inputs.push(AgentInput {
        id: receipt.input,
        status: AgentInputStatus::Routing,
    });
    assert_eq!(
        open.actor.end_retry(
            &mut open.store,
            runtime,
            ControlOutcome::Unchanged,
            &agent
        ),
        Ok(CommandReceipt::Applied)
    );
    assert!(matches!(
        open.actor.list_inputs()[0].state,
        InputState::Accepted { .. }
    ));
    let other = RuntimeId::new();
    assert_eq!(
        open.actor.end_retry(&mut open.store, other, ControlOutcome::Applied, &agent),
        Err(Error::StaleRuntime(other))
    );
    assert_eq!(
        open.actor.begin_retry(&open.store, InputId(99)),
        Err(Error::InvalidState("input does not exist".into()))
    );
    assert_eq!(
        open.actor.begin_retry(&open.store, receipt.input),
        Ok(RetryStep::Unchanged)
    );
}

#[test]
fn a_write_is_settled_by_the_user() {
    let mut open = open();
    let session = open.actor.info.id;
    let runtime = running(&mut open);
    let call = CallRef { runtime, id: 7 };
    commit(
        &mut open,
        runtime,
        0,
        vec![Record {
            seq: 1,
            body: RecordBody::CallStarted { call: 7 },
        }],
    );
    open.store
        .begin_write(
            open.workspace,
            session,
            call,
            "bash".to_string(),
            "{}".to_string(),
        )
        .unwrap();
    let resolution = |external_effect| WriteResolution {
        external_effect,
        evidence: "looked".into(),
    };
    assert_eq!(
        open.actor.resolve_write(
            &mut open.store,
            call,
            &resolution(ExternalEffect::Unknown),
            true,
            2
        ),
        Err(Error::InvalidState(
            "a write resolution must decide whether the effect occurred".into()
        ))
    );
    assert_eq!(
        open.actor.resolve_write(
            &mut open.store,
            call,
            &resolution(ExternalEffect::Applied),
            false,
            2
        ),
        Err(Error::WriteInProgress)
    );
    assert_eq!(open.actor.known_outcome(&open.store, call), None);
    let completed = open
        .actor
        .handle(&mut open.store, Command::WriteCompleted(call), 2);
    assert_eq!(completed.work, Work::Refresh);
    match open.actor.resolve_write(
        &mut open.store,
        call,
        &resolution(ExternalEffect::Applied),
        true,
        2,
    ) {
        Ok(ResolveStep::Tell { outcome, receipt }) => {
            assert_eq!(receipt, CommandReceipt::Applied);
            assert_eq!(outcome.external_effect, ExternalEffect::Applied);
            assert_eq!(
                outcome.result,
                Err("write effect resolved by host; original tool result unavailable".to_string())
            );
        }
        _ => panic!("the agent is told"),
    }
    assert_eq!(
        open.actor.resolve_write(
            &mut open.store,
            call,
            &resolution(ExternalEffect::NotApplied),
            true,
            3
        ),
        Err(Error::InvalidState("the saved write effect is Applied".into()))
    );
    assert!(open.actor.known_outcome(&open.store, call).is_some());
    let completed = open
        .actor
        .handle(&mut open.store, Command::WriteCompleted(call), 4);
    assert_eq!(completed.reply, None);
    match completed.work {
        Work::Settle {
            call: settled,
            outcome,
        } => {
            assert_eq!(settled, call);
            assert_eq!(outcome.external_effect, ExternalEffect::Applied);
        }
        other => panic!("{other:?}"),
    }
    let mut view = empty_agent();
    for id in [7, 8] {
        view.calls.push(AgentCall {
            id,
            job: None,
            kind: CallKind::Work,
            tool: None,
            status: CallStatus::Finished {
                external_effect: ExternalEffect::Unknown,
            },
            progress: None,
        });
    }
    assert_eq!(open.actor.unsettled_calls(&open.store, &view), vec![call]);
}

#[test]
fn a_session_is_released_when_nothing_is_pending() {
    let mut open = open();
    assert_eq!(open.actor.release_barrier(true), None);
    assert_eq!(
        open.actor.release_barrier(false),
        Some(SessionRetentionReason::PersistenceInFlight)
    );
    assert_eq!(
        open.actor.release_step(&open.store, None),
        ReleaseStep::Done(SessionReleaseStatus::Released)
    );
    open.actor.begin_start(RuntimeId::new());
    assert_eq!(
        open.actor.release_barrier(true),
        Some(SessionRetentionReason::Starting)
    );
    open.actor.cancel_start();
    running(&mut open);
    let mut agent = empty_agent();
    assert_eq!(
        open.actor.release_step(&open.store, Some(&agent)),
        ReleaseStep::Close
    );
    agent.calls.push(AgentCall {
        id: 1,
        job: None,
        kind: CallKind::Work,
        tool: None,
        status: CallStatus::Active,
        progress: None,
    });
    assert_eq!(
        open.actor.release_step(&open.store, Some(&agent)),
        ReleaseStep::Done(SessionReleaseStatus::Retained(
            SessionRetentionReason::ActiveWork
        ))
    );
}

#[test]
fn a_runtime_is_closed_cleanly_or_recovered() {
    let mut open = open();
    assert_eq!(open.actor.begin_close(), CloseStep::Recover);
    assert_eq!(
        open.actor.close_recovered(&mut open.store, false, None, 1),
        Err(Error::Agent(
            "startup durable commit is still pending; close is not confirmed".into()
        ))
    );
    open.actor
        .close_recovered(&mut open.store, true, None, 1)
        .unwrap();
    let runtime = running(&mut open);
    assert_eq!(open.actor.begin_close(), CloseStep::Shutdown { runtime });
    assert_eq!(
        open.actor
            .close_recovered(&mut open.store, false, Some("c7".into()), 2),
        Err(Error::Agent(
            "durable commit c7 is still pending; close is not confirmed".into()
        ))
    );
    open.actor
        .close_finished(
            &mut open.store,
            runtime,
            &vec![PendingWrite { call: 1, job: 2 }],
            3,
        )
        .unwrap();
    assert_eq!(open.actor.runtime, None);
    assert_eq!(open.actor.runtime_state, RuntimeState::Detached);
    assert!(open.store.session(open.actor.info.id).unwrap().runtime.is_none());
    assert_eq!(open.actor.may_start(true), Ok(true));
    assert!(open.actor.may_start(false).is_err());
}

#[test]
fn the_agents_state_is_shown() {
    let runtime = RuntimeId::new();
    let view = AgentView {
        inputs: vec![],
        jobs: vec![AgentJob {
            id: 4,
            owner: Owner::Job(2),
            inputs: vec![InputId(1)],
            goal: "goal".into(),
            scope: "scope".into(),
            done_when: "done".into(),
            status: JobStatus::Waiting(WaitView::Jobs(vec![5, 6])),
            report: Some(9),
        }],
        calls: vec![
            AgentCall {
                id: 1,
                job: Some(4),
                kind: CallKind::Tool,
                tool: None,
                status: CallStatus::Active,
                progress: Some("half".into()),
            },
            AgentCall {
                id: 2,
                job: None,
                kind: CallKind::Work,
                tool: None,
                status: CallStatus::Finished {
                    external_effect: ExternalEffect::Unknown,
                },
                progress: None,
            },
        ],
        records: vec![Record {
            seq: 9,
            body: RecordBody::Report {
                summary: "so far".into(),
            },
        }],
    };
    let (jobs, activity) = project_runtime(runtime, &view);
    assert_eq!(jobs[0].owner, JobOwner::Job(JobRef { runtime, id: 2 }));
    assert_eq!(
        jobs[0].state,
        JobState::Waiting(WaitReason::Jobs(vec![
            JobRef { runtime, id: 5 },
            JobRef { runtime, id: 6 }
        ]))
    );
    assert_eq!(jobs[0].report.as_ref().unwrap().summary, "so far");
    assert_eq!(activity.len(), 1);
    assert_eq!(
        activity[0].kind,
        ActivityKind::Tool {
            name: "tool".into()
        }
    );
    assert_eq!(activity[0].progress.as_deref(), Some("half"));
}

#[test]
fn requests_are_checked_before_they_are_sent() {
    let session = SessionId::new();
    let long = "x".repeat(1024 * 1024 + 1);
    assert!(check_input(&SubmitInput::new("fine")).is_ok());
    assert_eq!(
        check_input(&SubmitInput::new(&long)),
        Err(Error::InvalidState("input exceeds 1 MiB".into()))
    );
    assert!(check_draft(&long).is_err());
    assert!(check_resolution(&WriteResolution {
        external_effect: ExternalEffect::Applied,
        evidence: long.clone()
    })
    .is_err());
    assert!(check_history_cursor(
        session,
        Some(HistoryCursor::new(
            SessionId::new(),
            SessionSeq(1),
            SessionSeq(1)
        ))
    )
    .is_err());
    assert_eq!(page_limit(0, 32), 1);
    assert_eq!(page_limit(100, 32), 32);
    let submission = |decision, reason: &str, rework| AcceptanceSubmission {
        request_id: AcceptanceRequestId::new(),
        result: ResultRef {
            session,
            job: JobRef {
                runtime: RuntimeId::new(),
                id: 1,
            },
            version: SessionSeq(1),
        },
        decision,
        reason: reason.to_string(),
        rework,
    };
    let complaint = |submission: &AcceptanceSubmission| match check_acceptance(session, submission)
    {
        Ok(()) => String::new(),
        Err(Error::InvalidState(message)) => message,
        Err(_) => panic!("another error"),
    };
    assert_eq!(
        complaint(&submission(AcceptanceDecision::Accepted, "", None)),
        ""
    );
    assert_eq!(
        complaint(&submission(AcceptanceDecision::AcceptedWithRisk, " ", None)),
        "this acceptance decision requires a reason"
    );
    assert_eq!(
        complaint(&submission(AcceptanceDecision::Rejected, "no", None)),
        "rejected acceptance requires a new rework input"
    );
    assert_eq!(
        complaint(&submission(
            AcceptanceDecision::Accepted,
            "",
            Some(SubmitInput::new("x"))
        )),
        "only a rejected result can include rework input"
    );
    assert_eq!(
        complaint(&submission(
            AcceptanceDecision::Rejected,
            "no",
            Some(SubmitInput::new(&long))
        )),
        "rework must be a new standalone input of at most 1 MiB"
    );
    assert!(check_acceptance(
        SessionId::new(),
        &submission(AcceptanceDecision::Accepted, "", None)
    )
    .is_err());
}

#[test]
fn a_decision_on_a_missing_result_is_refused() {
    let mut open = open();
    let session = open.actor.info.id;
    let error = open
        .actor
        .submit_acceptance(
            &mut open.store,
            AcceptanceId::new(),
            &AcceptanceSubmission {
                request_id: AcceptanceRequestId::new(),
                result: ResultRef {
                    session,
                    job: JobRef {
                        runtime: RuntimeId::new(),
                        id: 1,
                    },
                    version: SessionSeq(1),
                },
                decision: AcceptanceDecision::Accepted,
                reason: String::new(),
                rework: None,
            },
            1,
        )
        .unwrap_err();
    assert_eq!(
        error,
        Error::InvalidState("acceptance result not found".into())
    );
}

#[test]
fn titles_come_from_the_first_input() {
    assert_eq!(
        title_from_first_input("  fix \n the\ttests "),
        Some("fix the tests".to_string())
    );
    assert_eq!(title_from_first_input(" \n "), None);
    let long = title_from_first_input(&"word ".repeat(40)).unwrap();
    assert_eq!(long.chars().count(), 61);
    assert!(long.ends_with('…'));
    let wide = title_from_first_input(&"🦴".repeat(60)).unwrap();
    assert_eq!(wide.len(), 49 * 4 + 3);
    assert!(validate_title(&wide).is_ok());
    assert!(validate_title(" x").is_err());
    assert!(validate_title("").is_err());
    assert!(validate_title(&"x".repeat(201)).is_err());
}

#[test]
fn a_session_is_renamed_archived_and_drafted() {
    let mut open = open();
    open.actor
        .rename(&mut open.store, "New title".to_string())
        .unwrap();
    assert!(open.actor.rename(&mut open.store, " ".to_string()).is_err());
    assert_eq!(
        open.actor
            .rename_if_provisional(&mut open.store, "Other".to_string()),
        Ok(false)
    );
    open.actor.archive(&mut open.store, true).unwrap();
    open.actor
        .save_draft(&mut open.store, "half a thought".to_string())
        .unwrap();
    let view = open.actor.published(None, SessionSeq(0));
    assert_eq!(view.session.title, "New title");
    assert!(view.session.archived);
    assert_eq!(view.draft, "half a thought");
    assert_eq!(view.runtime, RuntimeState::Detached);
}

#[test]
fn errors_of_others_are_reported_by_their_kind() {
    let session = SessionId::new();
    assert_eq!(
        claim_error(StoreError::Busy, session),
        Error::SessionBusy(session)
    );
    assert_eq!(
        claim_error(StoreError::RevisionConflict, session),
        Error::Storage("the document was changed".into())
    );
    assert_eq!(
        reconfigure_error(AgentError::InvalidConfiguration("bad".into())),
        Error::Configuration(ConfigProblem::Invalid("bad".into()))
    );
    assert_eq!(
        ProviderConnectError::InvalidModel(ProfileId::chatgpt()).into_error(),
        Error::Provider("profile `chatgpt` has an invalid model selection".into())
    );
    assert!(matches!(
        provision_error(ProfileId::chatgpt(), ApiKeyCredentialError::MissingApiKey),
        Error::Credential(problem) if problem.kind == CredentialProblemKind::Missing
    ));
}

fn app() -> (App, WorkspaceId, SessionId) {
    let mut app = App::open(DataStore::empty());
    let workspace = app
        .open_workspace(WorkspaceId::new(), FilePath::from_text("/work"), true)
        .unwrap()
        .id;
    let session = app
        .create_session(SessionId::new(), workspace, "First".to_string())
        .unwrap()
        .info
        .id;
    (app, workspace, session)
}

#[test]
fn sessions_are_opened_and_released_one_at_a_time() {
    let (mut app, workspace, session) = app();
    assert!(matches!(app.session(session, false), Ok(Lookup::Saved(_))));
    assert_eq!(app.register_session(session, workspace), Ok(true));
    assert_eq!(app.register_session(session, workspace), Ok(false));
    assert!(matches!(app.session(session, false), Ok(Lookup::Open)));
    assert_eq!(app.active_sessions(Some(workspace)), vec![session]);
    assert_eq!(app.begin_release(session, false), Ok(ReleaseStart::Ask));
    assert!(app.active_sessions(None).is_empty());
    assert!(matches!(
        app.session(session, false),
        Err(Error::SessionBusy(_))
    ));
    assert!(matches!(
        app.begin_release(session, false),
        Ok(ReleaseStart::Answer(receipt)) if receipt.status
            == SessionReleaseStatus::Retained(SessionRetentionReason::ReleaseInProgress)
    ));
    app.end_release(
        session,
        Ok(SessionReleaseStatus::Retained(
            SessionRetentionReason::ActiveWork,
        )),
    )
    .unwrap();
    assert_eq!(app.active_sessions(None), vec![session]);
    app.begin_release(session, false).unwrap();
    app.end_release(session, Ok(SessionReleaseStatus::Released))
        .unwrap();
    assert!(matches!(
        app.begin_release(session, false),
        Ok(ReleaseStart::Answer(receipt)) if receipt.status == SessionReleaseStatus::NotOpen
    ));
    assert!(matches!(
        app.session(SessionId::new(), false),
        Err(Error::SessionNotFound)
    ));
}

#[test]
fn a_shut_down_application_answers_nothing() {
    let (mut app, workspace, session) = app();
    let mut shutdown = Shutdown::Idle;
    assert_eq!(shutdown.request(&mut app), ShutdownStep::Start);
    assert_eq!(shutdown.request(&mut app), ShutdownStep::Wait);
    let failed = app.finish_shutdown(vec![Ok(()), Err(Error::Closed)]);
    assert_eq!(failed, Err(Error::Closed));
    assert!(shutdown.ended(failed).is_err());
    assert_eq!(shutdown.request(&mut app), ShutdownStep::Start);
    let report = app.finish_shutdown(vec![Ok(())]);
    shutdown.ended(report).unwrap();
    assert!(matches!(
        shutdown.request(&mut app),
        ShutdownStep::Report(_)
    ));
    assert_eq!(app.list_sessions(workspace), Err(Error::Closed));
    assert!(app.results(session, None, 1).is_err());
}

#[test]
fn leftover_writes_are_reported_in_order() {
    let (mut app, workspace, session) = app();
    let runtime = RuntimeId::new();
    for id in [3, 1, 2] {
        app.store
            .begin_write(
                workspace,
                session,
                CallRef { runtime, id },
                "bash".to_string(),
                "{}".to_string(),
            )
            .unwrap();
    }
    let report = app.finish_shutdown(vec![]).unwrap();
    let ids: Vec<u64> = report
        .unresolved_writes
        .iter()
        .map(|write| write.call.id)
        .collect();
    assert_eq!(ids, vec![1, 2, 3]);
    assert_eq!(app.unresolved_writes(workspace).unwrap().len(), 3);
}

#[test]
fn a_new_model_reaches_sessions_that_have_none() {
    let (mut app, workspace, session) = app();
    app.register_session(session, workspace).unwrap();
    let update = app
        .update_config(
            ConfigScope::User,
            ConfigChange::Model(Some(selection("user"))),
            defaults(),
            true,
        )
        .unwrap();
    assert_eq!(update.forced, vec![session]);
    app.update_config(
        ConfigScope::Session(session),
        ConfigChange::Model(Some(selection("own"))),
        defaults(),
            true,
    )
    .unwrap();
    let update = app
        .update_config(
            ConfigScope::User,
            ConfigChange::Model(Some(selection("other"))),
            defaults(),
            true,
        )
        .unwrap();
    assert!(update.forced.is_empty());
    assert_eq!(update.ordinary, vec![session]);
    let resolved = app.resolved_config(session, None, defaults()).unwrap();
    assert_eq!(
        resolved.desired.unwrap().worker.selection.model,
        "own".to_string()
    );
    let inherited = app
        .resolved_workspace_config(workspace, defaults())
        .unwrap();
    assert_eq!(
        inherited.desired.unwrap().worker.selection.model,
        "other".to_string()
    );
    assert_eq!(
        app.config(ConfigScope::Workspace(WorkspaceId::new()), defaults()),
        Err(Error::WorkspaceNotFound)
    );
    assert_eq!(
        app.config(ConfigScope::Workspace(workspace), defaults()),
        Ok(RuntimeOverrides::default())
    );
    let missing = ModelSelection::new(ProfileId::new("missing").unwrap(), "m").unwrap();
    assert!(matches!(
        app.update_config(
            ConfigScope::User,
            ConfigChange::Worker(Some(missing)),
            defaults(),
            true
        ),
        Err(Error::Configuration(ConfigProblem::MissingProfile(_)))
    ));
    assert!(app.takes_key(session, &ProfileId::chatgpt(), defaults()));
}

#[test]
fn cached_endpoints_do_not_refresh_and_live_ports_do_not_block_logout() {
    let runtime = config("model");
    let plan = connect(&runtime).unwrap();
    assert!(plan.subscription);
    assert_eq!(plan.coordinator, EndpointSource::Subscription);
    assert_eq!(plan.worker, EndpointSource::Coordinator);
    assert_eq!(connect_chatgpt(true), Ok(()));
    assert_eq!(
        logout_source(&Profile::chatgpt()),
        Ok(EndpointSource::Subscription)
    );
    assert!(connect(&runtime).unwrap().subscription);
    assert!(matches!(
        connect_chatgpt(false),
        Err(ProviderConnectError::LoginRequired(_))
    ));
}

#[test]
fn a_model_of_the_subscription_needs_its_login() {
    let (mut app, _, session) = app();
    let scope = ConfigScope::Session(session);
    app.update_config(
        scope,
        ConfigChange::Model(Some(selection("first"))),
        defaults(),
        true,
    )
    .unwrap();
    let before = app.config(scope, defaults()).unwrap();
    assert_eq!(before.worker, Some(selection("first")));
    assert_eq!(
        app.update_config(
            scope,
            ConfigChange::Model(Some(selection("second"))),
            defaults(),
            false,
        ),
        Err(Error::LoginRequired(ProfileId::chatgpt()))
    );
    assert_eq!(app.config(scope, defaults()).unwrap(), before);
    let cleared = app
        .update_config(scope, ConfigChange::Model(None), defaults(), false)
        .unwrap();
    assert_eq!(cleared.saved.worker, None);
}

#[test]
fn open_sessions_that_use_a_profile_take_its_key() {
    let (mut app, workspace, session) = app();
    app.register_session(session, workspace).unwrap();
    let chatgpt = ProfileId::chatgpt();
    assert_eq!(
        app.reload_profile_sessions(&chatgpt, defaults()).unwrap(),
        vec![]
    );
    app.update_config(
        ConfigScope::User,
        ConfigChange::Model(Some(selection("user"))),
        defaults(),
            true,
    )
    .unwrap();
    assert_eq!(
        app.reload_profile_sessions(&chatgpt, defaults()).unwrap(),
        vec![session]
    );
    let other = ProfileId::new("other").unwrap();
    assert!(!app.takes_key(session, &other, defaults()));
    assert_eq!(
        app.reload_profile_sessions(&other, defaults()).unwrap(),
        vec![]
    );
    app.begin_release(session, false).unwrap();
    assert_eq!(
        app.reload_profile_sessions(&chatgpt, defaults()).unwrap(),
        vec![]
    );
    app.closed = true;
    assert_eq!(
        app.reload_profile_sessions(&chatgpt, defaults()),
        Err(Error::Closed)
    );
}

#[test]
fn the_first_session_that_refuses_a_key_ends_the_reload() {
    let sessions = vec![SessionId::new(), SessionId::new(), SessionId::new()];
    let mut reload = Reload::new(sessions.clone());
    assert_eq!(reload.next(), Some(sessions[0]));
    assert_eq!(reload.answered(Err(Error::Closed)), Ok(()));
    assert_eq!(reload.next(), Some(sessions[1]));
    assert_eq!(
        reload.answered(Err(Error::Agent("no model".to_string()))),
        Err(Error::Agent("no model".to_string()))
    );
    assert_eq!(reload.next(), None);
    let mut reload = Reload::new(vec![sessions[2]]);
    assert_eq!(reload.answered(Ok(())), Ok(()));
    assert_eq!(reload.next(), None);
    assert_eq!(
        key_outcome(ProfileId::chatgpt(), Err("no model".to_string())),
        Err(Error::CredentialsSaved {
            profile: ProfileId::chatgpt(),
            message: "no model".to_string()
        })
    );
    assert_eq!(key_outcome(ProfileId::chatgpt(), Ok(())), Ok(()));
}

#[test]
fn a_start_that_comes_to_nothing_leaves_no_runtime() {
    let mut open = open();
    let runtime = RuntimeId::new();
    open.actor.begin_start(runtime);
    assert!(!open.actor.take_ready(RuntimeId::new()));
    assert!(open.actor.take_ready(runtime));
    assert_eq!(
        open.actor.start_failed(None),
        Error::Agent("runtime startup was interrupted".to_string())
    );
    assert_eq!(open.actor.runtime_state, RuntimeState::Detached);
    assert_eq!(open.actor.start_failed(Some(Error::Closed)), Error::Closed);
}

#[test]
fn stale_profile_is_rejected_before_credential_work() {
    let (mut app, _, _) = app();
    let home = FilePath::from_text("/home/user/.bone");
    let expected = Profile::chatgpt();
    app.save_profile(expected.copy()).unwrap();
    let mut current = expected.copy();
    current.label = "Changed label".into();
    app.save_profile(current.copy()).unwrap();
    let result = app.set_api_key_for_profile(
        &home,
        &expected,
        &ApiKey::new("unused-test-value".into()).unwrap(),
        CredentialContent::Absent,
    );
    assert!(matches!(
        result,
        Err(Error::InvalidState(message)) if message == "profile changed before credentials were saved"
    ));
    assert!(app.profiles().unwrap().contains(&current));
}

#[test]
fn a_key_is_saved_for_the_profile_that_was_seen() {
    let (mut app, _, _) = app();
    let home = FilePath::from_text("/home/user/.bone");
    let profile = Profile::new(
        ProfileId::new("work").unwrap(),
        "Work",
        EndpointConfig {
            protocol: Protocol::OpenAiResponses,
            base_url: None,
            valid: true,
        },
    )
    .unwrap();
    app.save_profile(profile.copy()).unwrap();
    let key = ApiKey::new("secret".into()).unwrap();
    let file = app
        .set_api_key_for_profile(&home, &profile, &key, CredentialContent::Absent)
        .ok()
        .unwrap();
    assert_eq!(file.api_keys[0].profile_id, "work");
    assert_eq!(file.api_keys[0].api_key, "secret");
    assert!(matches!(
        app.set_api_key_for_profile(
            &home,
            &Profile::chatgpt(),
            &key,
            CredentialContent::Absent
        ),
        Err(Error::Provider(_))
    ));
    assert!(matches!(
        App::provision_api_key(
            &FilePath::from_text("relative"),
            &profile,
            &key,
            CredentialContent::Absent
        ),
        Err(Error::Credential(problem)) if problem.kind == CredentialProblemKind::Unavailable
    ));
    let work = ProfileId::new("work").unwrap();
    assert!(matches!(
        app.delete_profile(
            &work,
            Err(ProviderConnectError::AuthorizationFailed(work.clone()))
        ),
        Err(Error::Provider(_))
    ));
    assert!(app.profiles().unwrap().contains(&profile));
    assert!(app.delete_profile(&work, Ok(())).unwrap().is_some());
    assert!(!app.profiles().unwrap().contains(&profile));
    assert!(app.delete_profile(&work, Ok(())).unwrap().is_none());
    let missing = ModelSelection::new(work, "m").unwrap();
    assert!(matches!(
        app.update_config(
            ConfigScope::User,
            ConfigChange::Worker(Some(missing)),
            defaults(),
            true
        ),
        Err(Error::Configuration(ConfigProblem::MissingProfile(_)))
    ));
}

#[test]
fn an_ended_login_keeps_its_end() {
    let mut state = LoginState::Connecting;
    state.observe(LoginEvent::Prompt {
        verification_uri: "https://example.test".into(),
        user_code: "ABCD".into(),
    });
    assert!(matches!(state, LoginState::DeviceCode { .. }));
    state.observe(LoginEvent::Answered(Ok(())));
    assert_eq!(state, LoginState::Succeeded);
    state.observe(LoginEvent::GivenUp);
    assert_eq!(state, LoginState::Succeeded);
}

#[test]
fn private_files_belong_to_the_user_alone() {
    let facts = |kind, owner, links, mode| EntryFacts {
        kind,
        owner,
        links,
        mode,
    };
    assert_eq!(
        validate_private_file(facts(EntryKind::File, 1000, 1, 0o100600), 1000),
        Ok(())
    );
    assert_eq!(
        validate_private_file(facts(EntryKind::Symlink, 1000, 1, 0o100600), 1000),
        Err(UnsafeEntry::NotAFile)
    );
    assert_eq!(
        validate_private_file(facts(EntryKind::File, 1, 1, 0o100600), 1000),
        Err(UnsafeEntry::ForeignOwner)
    );
    assert_eq!(
        validate_private_file(facts(EntryKind::File, 1000, 2, 0o100600), 1000),
        Err(UnsafeEntry::HardLinks)
    );
    assert_eq!(
        validate_private_file(facts(EntryKind::File, 1000, 1, 0o100640), 1000)
            .unwrap_err()
            .reason(),
        "must have mode 0600"
    );
    assert_eq!(private_directory_exists(None, 1000), Ok(false));
    assert_eq!(
        private_directory_exists(Some(facts(EntryKind::Directory, 1000, 3, 0o40755)), 1000),
        Err(UnsafeEntry::SharedAccess)
    );
    assert_eq!(
        private_directory_exists(Some(facts(EntryKind::Directory, 1000, 3, 0o40700)), 1000),
        Ok(true)
    );
    assert_eq!(
        next_lock_step(LockStep::Open, false, None),
        Ok(LockStep::Create)
    );
    assert_eq!(
        next_lock_step(LockStep::Create, false, Some(false)),
        Ok(LockStep::Open)
    );
    assert_eq!(
        next_lock_step(LockStep::Open, false, Some(false)),
        Err(UnsafeEntry::LockDisappeared)
    );
    assert_eq!(
        next_lock_step(LockStep::Create, false, Some(true)),
        Ok(LockStep::Lock)
    );
}

#[test]
fn evidence_is_read_only_where_it_is_cited() {
    let (mut app, _, session) = app();
    let runtime = RuntimeId::new();
    let records = vec![
        Record {
            seq: 1,
            body: RecordBody::Audit {
                message: "private".into(),
            },
        },
        Record {
            seq: 2,
            body: RecordBody::Outcome {
                job: 1,
                kind: OutcomeKind::Completed,
                summary: "done".into(),
                remaining: vec![],
                evidence: vec![1],
            },
        },
    ];
    let commit = DurableCommit {
        commit_id: "c".into(),
        expected_revision: 0,
        snapshot: CoreSnapshot {
            encoded: "{}".into(),
            through: 2,
        },
        records,
    };
    app.store
        .commit_core_in_runtime(session, runtime, &commit, b"c")
        .unwrap();
    for record in &commit.records {
        app.store
            .save_agent_record(session, runtime, record, &vec![], 1)
            .unwrap();
    }
    let result = app.results(session, None, 5).unwrap().items[0].result;
    let source = bone_app::api::EvidenceRef { session, record: 1 };
    let page = app.evidence_source(result, source, 0, 100).unwrap();
    assert!(matches!(
        page.availability,
        bone_app::api::EvidenceAvailability::Private
    ));
    assert_eq!(page.text, None);
    let other = bone_app::api::EvidenceRef { session, record: 2 };
    assert_eq!(
        app.evidence_source(result, other, 0, 100),
        Err(Error::InvalidState(
            "source is not cited by this result".into()
        ))
    );
    assert!(app.result_artifact(result).is_ok());
    assert_eq!(
        app.result_evidence(result, None, 5).unwrap().items.len(),
        1
    );
    assert!(app.acceptances(result, None, 5).unwrap().items.is_empty());
}

#[test]
fn commands_are_answered_or_become_work() {
    let mut open = open();
    let input = SubmitInput::new("first");
    let request_id = input.request_id;
    let handling = open.actor.handle(&mut open.store, Command::Submit { input }, 1);
    assert!(matches!(
        handling,
        Handling {
            reply: Some(Ok(Reply::Submitted(_))),
            work: Work::Deliver
        }
    ));
    let mut other = SubmitInput::new("second");
    other.request_id = request_id;
    assert_eq!(
        open.actor
            .handle(&mut open.store, Command::Submit { input: other }, 2),
        Handling {
            reply: Some(Err(Error::RequestConflict)),
            work: Work::Nothing
        }
    );
    assert_eq!(
        open.actor.handle(
            &mut open.store,
            Command::Retry { input: InputId(1) },
            2
        ),
        Handling {
            reply: None,
            work: Work::DeliverFor {
                input: InputId(1),
                was_starting: false
            }
        }
    );
    let runtime = running(&mut open);
    assert_eq!(
        open.actor
            .handle(&mut open.store, Command::RuntimeDirty(runtime), 3)
            .work,
        Work::RefreshAndDeliver
    );
    assert_eq!(
        open.actor
            .handle(&mut open.store, Command::RuntimeDirty(RuntimeId::new()), 3)
            .work,
        Work::Nothing
    );
    let stale = RuntimeId::new();
    assert_eq!(
        open.actor.handle(
            &mut open.store,
            Command::Control {
                target: JobRef {
                    runtime: stale,
                    id: 1
                },
                action: bone_app::api::JobControl::Pause
            },
            3
        ),
        Handling {
            reply: Some(Err(Error::StaleRuntime(stale))),
            work: Work::Nothing
        }
    );
    assert_eq!(
        open.actor.handle(&mut open.store, Command::Stop, 4).work,
        Work::StopWork {
            had_queued: true,
            cancelled_start: false
        }
    );
    let page = open.actor.handle(
        &mut open.store,
        Command::History {
            after: SessionSeq(0),
            limit: 1000,
        },
        5,
    );
    assert!(matches!(
        page.reply,
        Some(Ok(Reply::History(page))) if page.items.len() == 3
    ));
    assert_eq!(
        open.actor
            .handle(&mut open.store, Command::ReleaseIfIdle { gate_free: true }, 6)
            .work,
        Work::RefreshAndRelease
    );
    assert_eq!(
        open.actor.handle(&mut open.store, Command::Shutdown, 7).work,
        Work::Close {
            step: CloseStep::Shutdown { runtime },
            and_end: true
        }
    );
}

#[test]
fn reloading_the_files_tells_the_open_sessions() {
    let (mut app, workspace, session) = app();
    let home = FilePath::from_text("/home/user/.bone");
    let root = app.store.workspace_by_id(workspace).unwrap().root;
    let mut configs = FileConfigs::open(home, FileContent::Absent, defaults()).unwrap();
    assert_eq!(
        app.project_config_status(&configs, workspace).err(),
        Some(Error::Storage(
            "workspace configuration was not loaded".to_string()
        ))
    );
    app.register_session(session, workspace).unwrap();
    let (status, told) = app
        .reload_workspace_config(
            &mut configs,
            workspace,
            project_path(&root),
            FileContent::Absent,
        )
        .unwrap();
    assert!(!status.exists);
    assert_eq!(told, vec![session]);
    assert_eq!(
        app.project_config_status(&configs, workspace).unwrap().path,
        project_path(&root)
    );
    assert_eq!(
        app.reload_user_config(&mut configs, FileContent::Absent, defaults())
            .unwrap(),
        vec![session]
    );

    let mut edited = UserConfig::initial(defaults());
    edited.settings.tools.max_output_bytes = 1_024;
    let mut future = ProjectConfig::initial();
    future.schema_version = 999;
    assert!(matches!(
        app.reload_config(
            &mut configs,
            FileContent::Read {
                bytes: b"edited".to_vec(),
                value: edited.copy()
            },
            defaults(),
            workspace,
            project_path(&root),
            FileContent::Read {
                bytes: b"future".to_vec(),
                value: future
            },
        ),
        Err(Error::ConfigVersion { actual: 999, .. })
    ));
    assert_eq!(configs.user_settings().tools.max_output_bytes, 65_536);
    let (status, told) = app
        .reload_config(
            &mut configs,
            FileContent::Read {
                bytes: b"edited".to_vec(),
                value: edited,
            },
            defaults(),
            workspace,
            project_path(&root),
            FileContent::Read {
                bytes: b"project".to_vec(),
                value: ProjectConfig::initial(),
            },
        )
        .unwrap();
    assert!(status.exists);
    assert_eq!(told, vec![session]);
    assert_eq!(configs.user_settings().tools.max_output_bytes, 1_024);

    assert_eq!(
        app.project_config_status(&configs, WorkspaceId::new()).err(),
        Some(Error::WorkspaceNotFound)
    );
    app.closed = true;
    assert_eq!(
        app.reload_user_config(&mut configs, FileContent::Absent, defaults()),
        Err(Error::Closed)
    );
}

#[test]
fn a_derived_title_gives_itself() {
    for input in [
        "  fix   the\n parser ".to_string(),
        "word ".repeat(40),
        "🦴".repeat(90),
        format!("{} {}", "a".repeat(59), "b".repeat(20)),
        format!("{} 🦴", "é🦴".repeat(32)),
    ] {
        let title = title_from_first_input(&input).unwrap();
        assert!(title.chars().count() <= 61);
        assert!(validate_title(&title).is_ok());
        assert_eq!(title_from_first_input(&title), Some(title));
    }
}

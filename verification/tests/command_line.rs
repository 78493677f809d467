use bone_app::cli::{
    chosen, initial_model_selection, show, startup_command, Arguments, CredentialsAction,
    CredentialsCommand, EnvironmentValue, JobKind, KeyInput, MaskedInput, MaskedStep, Notice,
    OneShot, OneShotEnd, OutputLine, ProviderCliAction, ProviderCliCommand, ProviderCliProtocol,
    RecordEntry, StartupCommand,
};
use bone_app::settings::TuiDisplaySettings;

fn words(words: &[&str]) -> Vec<String> {
    words.iter().map(|word| word.to_string()).collect()
}

#[test]
fn task_text_cannot_change_model_selection_after_the_first_positional_argument() {
    let args = Arguments::parse(&words(&[
        "--model",
        "chosen-solver",
        "Investigate",
        "--model",
        "task-text-model",
    ]))
    .unwrap();
    assert_eq!(args.model.as_deref(), Some("chosen-solver"));
    assert_eq!(args.message, "Investigate --model task-text-model");
}

#[test]
fn an_explicit_separator_preserves_flags_as_task_text() {
    let args = Arguments::parse(&words(&["--", "--model", "task-text-model"])).unwrap();
    assert!(args.model.is_none());
    assert_eq!(args.message, "--model task-text-model");
}

#[test]
fn credentials_commands_accept_only_an_action_and_profile() {
    let arguments = Arguments::parse(&words(&["credentials", "set", "openai"])).unwrap();
    assert_eq!(
        arguments.credentials,
        Some(CredentialsCommand {
            action: CredentialsAction::Store,
            profile: "openai".into(),
        })
    );
    assert!(arguments.message.is_empty());

    let clear = Arguments::parse(&words(&["credentials", "clear", "anthropic"])).unwrap();
    assert_eq!(
        clear.credentials,
        Some(CredentialsCommand {
            action: CredentialsAction::Clear,
            profile: "anthropic".into(),
        })
    );

    for arguments in [
        vec!["credentials"],
        vec!["credentials", "set"],
        vec!["credentials", "unknown", "openai"],
        vec!["credentials", "set", "openai", "never-an-api-key-argument"],
    ] {
        assert!(Arguments::parse(&words(&arguments)).is_err());
    }
}

#[test]
fn provider_commands_create_a_headless_profile_setup_path() {
    let list = Arguments::parse(&words(&["provider", "list"])).unwrap();
    assert_eq!(
        list.provider,
        Some(ProviderCliCommand {
            action: ProviderCliAction::List,
        })
    );

    let add = Arguments::parse(&words(&[
        "provider",
        "add",
        "work-openai",
        "responses",
        "https://gateway.example/v1",
    ]))
    .unwrap();
    assert_eq!(
        add.provider,
        Some(ProviderCliCommand {
            action: ProviderCliAction::Add {
                id: "work-openai".into(),
                protocol: ProviderCliProtocol::OpenAiResponses,
                base_url: Some("https://gateway.example/v1".into()),
            },
        })
    );

    for arguments in [
        vec!["provider"],
        vec!["provider", "list", "extra"],
        vec!["provider", "add", "openai"],
        vec!["provider", "add", "openai", "unknown"],
        vec!["provider", "add", "openai", "responses", "one", "two"],
    ] {
        assert!(Arguments::parse(&words(&arguments)).is_err());
    }
}

#[test]
fn profile_selection_is_explicit_and_defaults_to_chatgpt() {
    let arguments = Arguments::parse(&words(&[
        "--profile",
        "openai",
        "--model",
        "gpt-5.4",
        "Investigate",
    ]))
    .unwrap();
    let selection = initial_model_selection(arguments.model, arguments.profile)
        .unwrap()
        .unwrap();
    assert_eq!(selection.profile.as_str(), "openai");
    assert_eq!(selection.model, "gpt-5.4");

    let default = initial_model_selection(Some("gpt-5.4".into()), None)
        .unwrap()
        .unwrap();
    assert_eq!(default.profile.as_str(), "chatgpt");
    assert!(initial_model_selection(None, Some("openai".into())).is_err());
}

#[test]
fn only_the_first_positional_credentials_word_selects_the_credential_utility() {
    let arguments =
        Arguments::parse(&words(&["Describe", "credentials", "set", "openai"])).unwrap();
    assert!(arguments.credentials.is_none());
    assert_eq!(arguments.message, "Describe credentials set openai");
}

#[test]
fn event_output_is_a_host_option_and_task_text_cannot_replace_it() {
    let args = Arguments::parse(&words(&[
        "--events",
        "session.jsonl",
        "Investigate",
        "--events",
        "task-text.jsonl",
    ]))
    .unwrap();
    assert_eq!(args.events.as_deref(), Some("session.jsonl"));
    assert_eq!(args.message, "Investigate --events task-text.jsonl");
    for args in [
        vec!["--events"],
        vec!["--events", "--model"],
        vec!["--events", ""],
        vec!["--events", "first.jsonl", "--events", "second.jsonl"],
    ] {
        assert!(Arguments::parse(&words(&args)).is_err());
    }
}

#[test]
fn no_argument_starts_the_interactive_interface() {
    let arguments = Arguments::parse(&words(&[])).unwrap();
    assert_eq!(startup_command(&arguments), Ok(StartupCommand::Interactive));
    let task = Arguments::parse(&words(&["Fix", "it"])).unwrap();
    assert_eq!(startup_command(&task), Ok(StartupCommand::OneShot));
    let help = Arguments::parse(&words(&["--help"])).unwrap();
    assert_eq!(startup_command(&help), Ok(StartupCommand::Help));
}

#[test]
fn a_profile_without_a_model_is_refused_in_words() {
    assert_eq!(
        initial_model_selection(None, Some("openai".into()))
            .unwrap_err()
            .message,
        "--profile or BONE_PROFILE requires --model or BONE_MODEL"
    );
    assert_eq!(
        initial_model_selection(Some("m".into()), Some("Not Safe".into()))
            .unwrap_err()
            .message,
        "--profile requires a valid profile ID"
    );
    assert_eq!(
        initial_model_selection(Some(" ".into()), None)
            .unwrap_err()
            .message,
        "--model requires a model ID"
    );
    assert_eq!(initial_model_selection(None, None), Ok(None));
}

#[test]
fn an_argument_wins_over_the_environment() {
    assert_eq!(
        chosen(
            Some("argument".into()),
            EnvironmentValue::Text("variable".into()),
            "problem"
        ),
        Ok(Some("argument".to_string()))
    );
    assert_eq!(
        chosen(None, EnvironmentValue::Text("  variable ".into()), "problem"),
        Ok(Some("variable".to_string()))
    );
    assert_eq!(chosen(None, EnvironmentValue::Absent, "problem"), Ok(None));
    assert_eq!(
        chosen(None, EnvironmentValue::NotUnicode, "problem")
            .unwrap_err()
            .message,
        "problem"
    );
}

#[test]
fn masked_input_shows_stars_and_keeps_the_text() {
    let mut input = MaskedInput::new();
    let key = |character| KeyInput::Character {
        character,
        control: false,
        alt: false,
    };
    assert_eq!(input.press(&key('a')), MaskedStep::Stars(1));
    assert_eq!(
        input.press(&KeyInput::Paste("b\r\nc".into())),
        MaskedStep::Stars(2)
    );
    assert_eq!(input.press(&KeyInput::Backspace), MaskedStep::Erase);
    assert_eq!(input.text(), "ab");
    assert_eq!(
        input.press(&KeyInput::Character {
            character: 'c',
            control: true,
            alt: false
        }),
        MaskedStep::Cancel
    );
    assert_eq!(input.press(&KeyInput::Enter), MaskedStep::Finish);
    assert_eq!(input.press(&KeyInput::Escape), MaskedStep::Cancel);
    assert_eq!(input.press(&KeyInput::Other), MaskedStep::Nothing);
    assert_eq!(MaskedInput::new().press(&KeyInput::Backspace), MaskedStep::Nothing);
}

#[test]
fn one_shot_displays_the_clarification_before_returning_on_pause() {
    let mut request = OneShot {
        cursor: 0,
        last_error: None,
    };
    let records = vec![
        RecordEntry {
            cursor: 1,
            notice: None,
        },
        RecordEntry {
            cursor: 2,
            notice: Some(Notice::Reply {
                text: "Which file should I inspect?".into(),
            }),
        },
        RecordEntry {
            cursor: 3,
            notice: Some(Notice::Paused),
        },
        RecordEntry {
            cursor: 4,
            notice: Some(Notice::Reply {
                text: "never shown".into(),
            }),
        },
    ];
    let (lines, end) = request.consume_records(
        &records,
        &TuiDisplaySettings {
            show_progress: true,
        },
    );
    assert_eq!(
        lines,
        vec![
            OutputLine::Output("\nagent> Which file should I inspect?\n".into()),
            OutputLine::Diagnostic("[work paused]".into()),
        ]
    );
    assert_eq!(end, Some(OneShotEnd::Success));
    assert_eq!(request.cursor, 3);
}

#[test]
fn an_error_before_a_pause_fails_the_request() {
    let mut request = OneShot {
        cursor: 0,
        last_error: None,
    };
    let records = vec![
        RecordEntry {
            cursor: 7,
            notice: Some(Notice::Error {
                message: "no network".into(),
            }),
        },
        RecordEntry {
            cursor: 8,
            notice: Some(Notice::Paused),
        },
    ];
    let (lines, end) = request.consume_records(
        &records,
        &TuiDisplaySettings {
            show_progress: false,
        },
    );
    assert_eq!(lines.len(), 2);
    assert_eq!(end, Some(OneShotEnd::Failure("no network".into())));
}

#[test]
fn progress_is_shown_only_where_it_is_wanted() {
    let started = Notice::JobStarted {
        id: 12,
        kind: JobKind::Tool("bash".into()),
    };
    assert_eq!(
        show(
            &started,
            &TuiDisplaySettings {
                show_progress: true
            }
        ),
        Some(OutputLine::Diagnostic("[bash started \u{b7} job 12]".into()))
    );
    assert_eq!(
        show(
            &started,
            &TuiDisplaySettings {
                show_progress: false
            }
        ),
        None
    );
    assert_eq!(
        show(
            &Notice::Finished { cleanup: 2 },
            &TuiDisplaySettings {
                show_progress: false
            }
        ),
        Some(OutputLine::Diagnostic(
            "[answer complete; cleaning up 2 read-only job(s)]".into()
        ))
    );
}

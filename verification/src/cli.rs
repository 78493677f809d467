//! The command line: its arguments, the choice of what to run, and what a one-shot request shows.

use vstd::prelude::*;

use crate::profiles::{valid_profile_id, LlmProfileId, CHATGPT_PROFILE_ID};
use crate::settings::{selection_problem, ModelSelection, TuiDisplaySettings};
use crate::text::{
    blank, decimal, decimal_string, has_prefix, is_blank, same_text, starts_with, to_chars, trim,
    trimmed,
};

verus! {

/// Arguments that cannot be used.
#[derive(Clone, Copy, Debug, PartialEq, Eq)]
pub struct UsageError {
    pub message: &'static str,
}

/// What to do with an API key.
#[derive(Clone, Copy, Debug, PartialEq, Eq, Structural)]
pub enum CredentialsAction {
    Store,
    Clear,
}

/// A command on the API key of a profile.
#[derive(Debug, PartialEq, Eq)]
pub struct CredentialsCommand {
    pub action: CredentialsAction,
    pub profile: String,
}

/// The protocols of connections with an API key.
#[derive(Clone, Copy, Debug, PartialEq, Eq, Structural)]
pub enum ProviderCliProtocol {
    OpenAiResponses,
    OpenAiChatCompletions,
    AnthropicMessages,
}

/// What to do with the saved connections.
#[derive(Debug, PartialEq, Eq)]
pub enum ProviderCliAction {
    List,
    Add { id: String, protocol: ProviderCliProtocol, base_url: Option<String> },
}

/// A command on the saved connections.
#[derive(Debug, PartialEq, Eq)]
pub struct ProviderCliCommand {
    pub action: ProviderCliAction,
}

/// The parsed arguments.
#[derive(Debug, PartialEq, Eq)]
pub struct Arguments {
    pub help: bool,
    pub model: Option<String>,
    pub profile: Option<String>,
    pub events: Option<String>,
    pub message: String,
    pub credentials: Option<CredentialsCommand>,
    pub provider: Option<ProviderCliCommand>,
}

/// What to do with the saved connections, by its values.
pub ghost enum ProviderActionView {
    List,
    Add { id: Seq<char>, protocol: ProviderCliProtocol, base_url: Option<Seq<char>> },
}

/// The parsed arguments by their values.
#[verifier::ext_equal]
pub ghost struct ArgumentsView {
    pub help: bool,
    pub model: Option<Seq<char>>,
    pub profile: Option<Seq<char>>,
    pub events: Option<Seq<char>>,
    pub message: Seq<char>,
    pub credentials: Option<(CredentialsAction, Seq<char>)>,
    pub provider: Option<ProviderActionView>,
}

/// A text that may be absent, by its characters.
pub open spec fn text_view(text: Option<String>) -> Option<Seq<char>> {
    match text {
        Some(text) => Some(text@),
        None => None,
    }
}

impl View for Arguments {
    type V = ArgumentsView;

    open spec fn view(&self) -> ArgumentsView {
        ArgumentsView {
            help: self.help,
            model: text_view(self.model),
            profile: text_view(self.profile),
            events: text_view(self.events),
            message: self.message@,
            credentials: match self.credentials {
                Some(command) => Some((command.action, command.profile@)),
                None => None,
            },
            provider: match self.provider {
                Some(command) => Some(
                    match command.action {
                        ProviderCliAction::List => ProviderActionView::List,
                        ProviderCliAction::Add { id, protocol, base_url } =>
                            ProviderActionView::Add {
                            id: id@,
                            protocol,
                            base_url: text_view(base_url),
                        },
                    },
                ),
                None => None,
            },
        }
    }
}

/// Arguments by their characters.
pub open spec fn words(args: Seq<String>) -> Seq<Seq<char>> {
    args.map_values(|arg: String| arg@)
}

/// The arguments from `from` on, with single spaces between them.
pub open spec fn joined_words(args: Seq<Seq<char>>, from: int) -> Seq<char>
    decreases args.len() - from,
{
    if from >= args.len() {
        Seq::empty()
    } else if from == args.len() - 1 {
        args[from]
    } else {
        args[from] + " "@ + joined_words(args, from + 1)
    }
}

/// No arguments.
pub open spec fn no_arguments() -> ArgumentsView {
    ArgumentsView {
        help: false,
        model: None,
        profile: None,
        events: None,
        message: Seq::empty(),
        credentials: None,
        provider: None,
    }
}

/// Whether an argument can be the value of an option: it is not blank and no option itself.
pub open spec fn is_value(args: Seq<Seq<char>>, index: int) -> bool {
    &&& index < args.len()
    &&& !is_blank(args[index])
    &&& !has_prefix(args[index], "-"@)
}

/// The arguments from `index` on, behind those that were parsed: options up to the first argument
/// that is none; from there on, or behind a separator, everything is the message.
pub open spec fn options_from(args: Seq<Seq<char>>, index: int, parsed: ArgumentsView) -> Result<
    ArgumentsView,
    &'static str,
>
    decreases args.len() - index,
{
    if index >= args.len() {
        Ok(parsed)
    } else if args[index] == "-h"@ || args[index] == "--help"@ {
        Ok(ArgumentsView { help: true, ..parsed })
    } else if args[index] == "--model"@ {
        if parsed.model is Some {
            Err("--model may be provided only once")
        } else if !is_value(args, index + 1) {
            Err("--model requires a model ID")
        } else {
            options_from(
                args,
                index + 2,
                ArgumentsView { model: Some(trim(args[index + 1])), ..parsed },
            )
        }
    } else if args[index] == "--profile"@ {
        if parsed.profile is Some {
            Err("--profile may be provided only once")
        } else if !is_value(args, index + 1) {
            Err("--profile requires a profile ID")
        } else {
            options_from(
                args,
                index + 2,
                ArgumentsView { profile: Some(trim(args[index + 1])), ..parsed },
            )
        }
    } else if args[index] == "--events"@ {
        if parsed.events is Some {
            Err("--events may be provided only once")
        } else if !is_value(args, index + 1) {
            Err("--events requires a new output file path")
        } else {
            options_from(
                args,
                index + 2,
                ArgumentsView { events: Some(args[index + 1]), ..parsed },
            )
        }
    } else if args[index] == "--"@ {
        Ok(ArgumentsView { message: joined_words(args, index + 1), ..parsed })
    } else if has_prefix(args[index], "-"@) {
        Err("unknown option; run `bone --help`")
    } else {
        Ok(ArgumentsView { message: joined_words(args, index), ..parsed })
    }
}

/// The arguments behind `credentials`.
pub open spec fn credentials_from(args: Seq<Seq<char>>, index: int) -> Result<
    ArgumentsView,
    &'static str,
> {
    if index >= args.len() {
        Err("credentials requires `set <profile>` or `clear <profile>`")
    } else if args[index] == "-h"@ || args[index] == "--help"@ {
        if index + 1 < args.len() {
            Err("credentials help does not accept arguments")
        } else {
            Ok(ArgumentsView { help: true, ..no_arguments() })
        }
    } else if args[index] != "set"@ && args[index] != "clear"@ {
        Err("credentials requires `set <profile>` or `clear <profile>`")
    } else if index + 1 >= args.len() {
        Err("credentials requires a profile ID")
    } else if !is_value(args, index + 1) || index + 2 < args.len() {
        Err("credentials accepts only an action and profile; API keys are entered interactively")
    } else {
        Ok(
            ArgumentsView {
                credentials: Some(
                    (
                        if args[index] == "set"@ {
                            CredentialsAction::Store
                        } else {
                            CredentialsAction::Clear
                        },
                        trim(args[index + 1]),
                    ),
                ),
                ..no_arguments()
            },
        )
    }
}

/// The protocol that an argument names.
pub open spec fn protocol_named(name: Seq<char>) -> Option<ProviderCliProtocol> {
    if name == "responses"@ {
        Some(ProviderCliProtocol::OpenAiResponses)
    } else if name == "chat"@ {
        Some(ProviderCliProtocol::OpenAiChatCompletions)
    } else if name == "anthropic"@ {
        Some(ProviderCliProtocol::AnthropicMessages)
    } else {
        None
    }
}

/// The arguments behind `provider`.
pub open spec fn provider_from(args: Seq<Seq<char>>, index: int) -> Result<
    ArgumentsView,
    &'static str,
> {
    if index >= args.len() {
        Err("provider requires `list` or `add <id> <responses|chat|anthropic> [https-url]`")
    } else if args[index] == "-h"@ || args[index] == "--help"@ {
        if index + 1 < args.len() {
            Err("provider help does not accept arguments")
        } else {
            Ok(ArgumentsView { help: true, ..no_arguments() })
        }
    } else if args[index] == "list"@ && index + 1 >= args.len() {
        Ok(ArgumentsView { provider: Some(ProviderActionView::List), ..no_arguments() })
    } else if args[index] == "add"@ {
        if index + 1 >= args.len() {
            Err("provider add requires <id> <responses|chat|anthropic> [https-url]")
        } else if index + 2 >= args.len() || protocol_named(args[index + 2]) is None {
            Err("provider protocol must be responses, chat, or anthropic")
        } else if index + 4 < args.len() {
            Err("provider add accepts one optional HTTPS base URL")
        } else {
            Ok(
                ArgumentsView {
                    provider: Some(
                        ProviderActionView::Add {
                            id: args[index + 1],
                            protocol: protocol_named(args[index + 2])->0,
                            base_url: if index + 3 < args.len() {
                                Some(args[index + 3])
                            } else {
                                None
                            },
                        },
                    ),
                    ..no_arguments()
                },
            )
        }
    } else {
        Err("provider requires `list` or `add <id> <responses|chat|anthropic> [https-url]`")
    }
}

/// What arguments mean. Only the very first one can name a command.
pub open spec fn meaning(args: Seq<Seq<char>>) -> Result<ArgumentsView, &'static str> {
    if args.len() > 0 && args[0] == "credentials"@ {
        credentials_from(args, 1)
    } else if args.len() > 0 && args[0] == "provider"@ {
        provider_from(args, 1)
    } else {
        options_from(args, 0, no_arguments())
    }
}

/// Whether a result is a meaning.
pub open spec fn means(r: Result<Arguments, UsageError>, wanted: Result<ArgumentsView, &'static str>) -> bool {
    match wanted {
        Ok(view) => r matches Ok(arguments) && arguments@ == view,
        Err(message) => r matches Err(error) && error.message == message,
    }
}

fn usage(message: &'static str) -> (r: Result<Arguments, UsageError>)
    ensures
        r matches Err(error) && error.message == message,
{
    Err(UsageError { message })
}

/// The arguments from `from` on, with single spaces between them.
fn join_words(args: &Vec<String>, from: usize) -> (r: String)
    requires
        from <= args@.len(),
    ensures
        r@ == joined_words(words(args@), from as int),
{
    let ghost all = words(args@);
    let mut r = String::new();
    let mut i: usize = args.len();
    proof {
        assert(r@ =~= joined_words(all, i as int));
    }
    while i > from
        invariant
            from <= i <= args@.len(),
            all == words(args@),
            r@ == joined_words(all, i as int),
        decreases i,
    {
        i = i - 1;
        let mut longer = args[i].clone();
        proof {
            assert(all[i as int] == args@[i as int]@);
        }
        if i + 1 < args.len() {
            longer.push_str(" ");
            longer.push_str(r.as_str());
        }
        proof {
            if i + 1 < args@.len() {
                assert(longer@ =~= joined_words(all, i as int));
            }
        }
        r = longer;
    }
    r
}

/// Whether an argument can be the value of an option.
fn usable_value(args: &Vec<String>, index: usize) -> (r: bool)
    ensures
        r == is_value(words(args@), index as int),
{
    if index >= args.len() {
        return false;
    }
    proof {
        assert(words(args@)[index as int] == args@[index as int]@);
    }
    !blank(args[index].as_str()) && !starts_with(args[index].as_str(), "-")
}

impl Default for Arguments {
    fn default() -> (r: Arguments)
        ensures
            r@ == no_arguments(),
    {
        let r = Arguments {
            help: false,
            model: None,
            profile: None,
            events: None,
            message: String::new(),
            credentials: None,
            provider: None,
        };
        proof {
            assert(r@ =~= no_arguments());
        }
        r
    }
}

impl Arguments {
    /// Parses arguments.
    pub fn parse(args: &Vec<String>) -> (r: Result<Arguments, UsageError>)
        ensures
            means(r, meaning(words(args@))),
    {
        let ghost all = words(args@);
        if args.len() > 0 {
            proof {
                assert(all[0] == args@[0]@);
            }
            if same_text(args[0].as_str(), "credentials") {
                return Arguments::parse_credentials(args, 1);
            }
            if same_text(args[0].as_str(), "provider") {
                return Arguments::parse_provider(args, 1);
            }
        }
        let mut parsed = Arguments::default();
        let mut i: usize = 0;
        while i < args.len()
            invariant
                i <= args@.len(),
                all == words(args@),
                options_from(all, 0, no_arguments()) == options_from(all, i as int, parsed@),
                meaning(all) == options_from(all, 0, no_arguments()),
            decreases args@.len() - i,
        {
            let argument = args[i].as_str();
            let ghost before = parsed@;
            proof {
                assert(all[i as int] == argument@);
                if i + 1 < args@.len() {
                    assert(all[i + 1] == args@[i + 1]@);
                }
            }
            if same_text(argument, "-h") || same_text(argument, "--help") {
                parsed.help = true;
                return Ok(parsed);
            }
            if same_text(argument, "--model") {
                if parsed.model.is_some() {
                    return usage("--model may be provided only once");
                }
                if !usable_value(args, i + 1) {
                    return usage("--model requires a model ID");
                }
                parsed.model = Some(trimmed(args[i + 1].as_str()));
                proof {
                    assert(parsed@ =~= (ArgumentsView { model: Some(trim(all[i + 1])), ..before }));
                }
                i = i + 2;
            } else if same_text(argument, "--profile") {
                if parsed.profile.is_some() {
                    return usage("--profile may be provided only once");
                }
                if !usable_value(args, i + 1) {
                    return usage("--profile requires a profile ID");
                }
                parsed.profile = Some(trimmed(args[i + 1].as_str()));
                proof {
                    assert(parsed@ =~= (ArgumentsView {
                        profile: Some(trim(all[i + 1])),
                        ..before
                    }));
                }
                i = i + 2;
            } else if same_text(argument, "--events") {
                if parsed.events.is_some() {
                    return usage("--events may be provided only once");
                }
                if !usable_value(args, i + 1) {
                    return usage("--events requires a new output file path");
                }
                parsed.events = Some(args[i + 1].clone());
                proof {
                    assert(parsed@ =~= (ArgumentsView { events: Some(all[i + 1]), ..before }));
                }
                i = i + 2;
            } else if same_text(argument, "--") {
                parsed.message = join_words(args, i + 1);
                return Ok(parsed);
            } else if starts_with(argument, "-") {
                return usage("unknown option; run `bone --help`");
            } else {
                parsed.message = join_words(args, i);
                return Ok(parsed);
            }
        }
        Ok(parsed)
    }

    /// Parses the arguments behind `credentials`.
    pub fn parse_credentials(args: &Vec<String>, index: usize) -> (r: Result<Arguments, UsageError>)
        requires
            index <= args@.len(),
        ensures
            means(r, credentials_from(words(args@), index as int)),
    {
        let ghost all = words(args@);
        if index >= args.len() {
            return usage("credentials requires `set <profile>` or `clear <profile>`");
        }
        let action = args[index].as_str();
        let rest: usize = args.len() - index - 1;
        proof {
            assert(all[index as int] == action@);
            if rest > 0 {
                assert(all[index + 1] == args@[index + 1]@);
            }
        }
        if same_text(action, "-h") || same_text(action, "--help") {
            if rest > 0 {
                return usage("credentials help does not accept arguments");
            }
            let mut parsed = Arguments::default();
            parsed.help = true;
            return Ok(parsed);
        }
        let action = if same_text(action, "set") {
            CredentialsAction::Store
        } else if same_text(action, "clear") {
            CredentialsAction::Clear
        } else {
            return usage("credentials requires `set <profile>` or `clear <profile>`");
        };
        if rest == 0 {
            return usage("credentials requires a profile ID");
        }
        if !usable_value(args, index + 1) || rest > 1 {
            return usage(
                "credentials accepts only an action and profile; API keys are entered interactively",
            );
        }
        let mut parsed = Arguments::default();
        parsed.credentials = Some(
            CredentialsCommand { action, profile: trimmed(args[index + 1].as_str()) },
        );
        Ok(parsed)
    }

    /// Parses the arguments behind `provider`.
    pub fn parse_provider(args: &Vec<String>, index: usize) -> (r: Result<Arguments, UsageError>)
        requires
            index <= args@.len(),
        ensures
            means(r, provider_from(words(args@), index as int)),
    {
        let ghost all = words(args@);
        if index >= args.len() {
            return usage(
                "provider requires `list` or `add <id> <responses|chat|anthropic> [https-url]`",
            );
        }
        let action = args[index].as_str();
        let rest: usize = args.len() - index - 1;
        proof {
            assert(all[index as int] == action@);
            assert forall|i: int| 0 <= i < all.len() implies #[trigger] all[i] == args@[i]@ by {}
        }
        if same_text(action, "-h") || same_text(action, "--help") {
            if rest > 0 {
                return usage("provider help does not accept arguments");
            }
            let mut parsed = Arguments::default();
            parsed.help = true;
            return Ok(parsed);
        }
        let action = if same_text(action, "list") && rest == 0 {
            ProviderCliAction::List
        } else if same_text(action, "add") {
            if rest == 0 {
                return usage(
                    "provider add requires <id> <responses|chat|anthropic> [https-url]",
                );
            }
            let id = args[index + 1].clone();
            if rest == 1 {
                return usage("provider protocol must be responses, chat, or anthropic");
            }
            let name = args[index + 2].as_str();
            let protocol = if same_text(name, "responses") {
                ProviderCliProtocol::OpenAiResponses
            } else if same_text(name, "chat") {
                ProviderCliProtocol::OpenAiChatCompletions
            } else if same_text(name, "anthropic") {
                ProviderCliProtocol::AnthropicMessages
            } else {
                return usage("provider protocol must be responses, chat, or anthropic");
            };
            if rest > 3 {
                return usage("provider add accepts one optional HTTPS base URL");
            }
            let base_url = if rest > 2 {
                Some(args[index + 3].clone())
            } else {
                None
            };
            ProviderCliAction::Add { id, protocol, base_url }
        } else {
            return usage(
                "provider requires `list` or `add <id> <responses|chat|anthropic> [https-url]`",
            );
        };
        let mut parsed = Arguments::default();
        parsed.provider = Some(ProviderCliCommand { action });
        Ok(parsed)
    }
}

/// What the program does first.
#[derive(Clone, Copy, Debug, PartialEq, Eq, Structural)]
pub enum StartupCommand {
    Help,
    Credentials,
    Provider,
    Interactive,
    OneShot,
}

/// Whether this is what the arguments start.
pub open spec fn begins_as(
    arguments: ArgumentsView,
    r: Result<StartupCommand, UsageError>,
) -> bool {
    let view = arguments;
    if view.help {
        r == Ok::<StartupCommand, UsageError>(StartupCommand::Help)
    } else if view.credentials is Some {
        r == Ok::<StartupCommand, UsageError>(StartupCommand::Credentials)
    } else if view.provider is Some {
        r == Ok::<StartupCommand, UsageError>(StartupCommand::Provider)
    } else if view.message.len() == 0 {
        if view.events is Some {
            r matches Err(error) && error.message
                == "--events is currently available only with one-shot messages"
        } else {
            r == Ok::<StartupCommand, UsageError>(StartupCommand::Interactive)
        }
    } else {
        r == Ok::<StartupCommand, UsageError>(StartupCommand::OneShot)
    }
}

/// Decides what the program does: an event log needs a message.
pub fn startup_command(arguments: &Arguments) -> (r: Result<StartupCommand, UsageError>)
    ensures
        begins_as(arguments@, r),
{
    if arguments.help {
        return Ok(StartupCommand::Help);
    }
    if arguments.credentials.is_some() {
        return Ok(StartupCommand::Credentials);
    }
    if arguments.provider.is_some() {
        return Ok(StartupCommand::Provider);
    }
    let chars = to_chars(arguments.message.as_str());
    if chars.len() == 0 {
        if arguments.events.is_some() {
            return Err(
                UsageError {
                    message: "--events is currently available only with one-shot messages",
                },
            );
        }
        return Ok(StartupCommand::Interactive);
    }
    Ok(StartupCommand::OneShot)
}

/// A variable of the environment.
#[derive(Debug, PartialEq, Eq)]
pub enum EnvironmentValue {
    Absent,
    NotUnicode,
    Text(String),
}

/// Whether this is the value that the arguments or the environment give.
pub open spec fn chooses(
    argument: Option<String>,
    variable: EnvironmentValue,
    problem: &'static str,
    r: Result<Option<String>, UsageError>,
) -> bool {
    match argument {
        Some(text) => r matches Ok(Some(found)) && found == text,
        None => match variable {
            EnvironmentValue::Text(text) => r matches Ok(Some(found)) && found@ == trim(text@),
            EnvironmentValue::Absent => r matches Ok(None),
            EnvironmentValue::NotUnicode => r matches Err(error) && error.message == problem,
        },
    }
}

/// A choice from the arguments, else from the environment.
pub fn chosen(argument: Option<String>, variable: EnvironmentValue, problem: &'static str) -> (r: Result<
    Option<String>,
    UsageError,
>)
    ensures
        chooses(argument, variable, problem, r),
{
    match argument {
        Some(text) => Ok(Some(text)),
        None => match variable {
            EnvironmentValue::Text(text) => Ok(Some(trimmed(text.as_str()))),
            EnvironmentValue::Absent => Ok(None),
            EnvironmentValue::NotUnicode => Err(UsageError { message: problem }),
        },
    }
}

/// A model with the profile that it is used through.
#[derive(Debug, PartialEq, Eq)]
pub struct InitialModel {
    pub profile: LlmProfileId,
    pub model: String,
}

/// Whether this is the model that a start selects.
pub open spec fn selects(
    model: Option<String>,
    profile: Option<String>,
    r: Result<Option<InitialModel>, UsageError>,
) -> bool {
    match model {
        None => if profile is Some {
            r matches Err(error) && error.message
                == "--profile or BONE_PROFILE requires --model or BONE_MODEL"
        } else {
            r matches Ok(None)
        },
        Some(model) => if profile is Some && !valid_profile_id(profile->0@) {
            r matches Err(error) && error.message == "--profile requires a valid profile ID"
        } else if selection_problem(model@, None) is Some {
            r matches Err(error) && error.message == "--model requires a model ID"
        } else {
            &&& r matches Ok(Some(chosen))
            &&& chosen.model == model
            &&& chosen.profile@ == (match profile {
                Some(profile) => profile@,
                None => CHATGPT_PROFILE_ID@,
            })
        },
    }
}

/// The model that the arguments choose. A profile needs a model; without one the built-in profile
/// is used.
pub fn initial_model_selection(model: Option<String>, profile: Option<String>) -> (r: Result<
    Option<InitialModel>,
    UsageError,
>)
    ensures
        selects(model, profile, r),
{
    match model {
        None => {
            if profile.is_some() {
                return Err(
                    UsageError {
                        message: "--profile or BONE_PROFILE requires --model or BONE_MODEL",
                    },
                );
            }
            Ok(None)
        },
        Some(model) => {
            let profile = match profile {
                Some(profile) => match LlmProfileId::new(profile.as_str()) {
                    Ok(id) => id,
                    Err(_) => {
                        return Err(
                            UsageError { message: "--profile requires a valid profile ID" },
                        );
                    },
                },
                None => LlmProfileId::chatgpt(),
            };
            match ModelSelection::new(model, None, None) {
                Ok(selection) => Ok(Some(InitialModel { profile, model: selection.model })),
                Err(_) => Err(UsageError { message: "--model requires a model ID" }),
            }
        },
    }
}

/// A key of the keyboard, or pasted text.
#[derive(Debug, PartialEq, Eq)]
pub enum KeyInput {
    Enter,
    Escape,
    Backspace,
    Character { character: char, control: bool, alt: bool },
    Paste(String),
    Other,
}

/// What a key does to a masked input.
#[derive(Clone, Copy, Debug, PartialEq, Eq, Structural)]
pub enum MaskedStep {
    Finish,
    Cancel,
    Nothing,
    /// Take one star back.
    Erase,
    /// Show this many stars more.
    Stars(usize),
}

/// Text without line breaks.
pub open spec fn without_breaks(text: Seq<char>) -> Seq<char> {
    text.filter(|c: char| c != '\r' && c != '\n')
}

/// What a key does to a masked input, and the input after it.
pub open spec fn masked(input: Seq<char>, key: KeyInput) -> (Seq<char>, MaskedStep) {
    match key {
        KeyInput::Enter => (input, MaskedStep::Finish),
        KeyInput::Escape => (input, MaskedStep::Cancel),
        KeyInput::Backspace => if input.len() > 0 {
            (input.drop_last(), MaskedStep::Erase)
        } else {
            (input, MaskedStep::Nothing)
        },
        KeyInput::Character { character, control, alt } => if control && (character == 'c'
            || character == 'd') {
            (input, MaskedStep::Cancel)
        } else if control || alt {
            (input, MaskedStep::Nothing)
        } else {
            (input.push(character), MaskedStep::Stars(1))
        },
        KeyInput::Paste(text) => (
            input + without_breaks(text@),
            MaskedStep::Stars(without_breaks(text@).len() as usize),
        ),
        KeyInput::Other => (input, MaskedStep::Nothing),
    }
}

/// A secret that is typed without being shown.
pub struct MaskedInput {
    pub characters: Vec<char>,
}

impl MaskedInput {
    /// An input without characters.
    pub fn new() -> (r: MaskedInput)
        ensures
            r.characters@ == Seq::<char>::empty(),
    {
        MaskedInput { characters: Vec::new() }
    }

    /// Takes a key.
    pub fn press(&mut self, key: &KeyInput) -> (r: MaskedStep)
        ensures
            (final(self).characters@, r) == masked(old(self).characters@, *key),
    {
        match key {
            KeyInput::Enter => MaskedStep::Finish,
            KeyInput::Escape => MaskedStep::Cancel,
            KeyInput::Backspace => {
                if self.characters.len() > 0 {
                    let _ = self.characters.pop();
                    MaskedStep::Erase
                } else {
                    MaskedStep::Nothing
                }
            },
            KeyInput::Character { character, control, alt } => {
                if *control && (*character == 'c' || *character == 'd') {
                    MaskedStep::Cancel
                } else if *control || *alt {
                    MaskedStep::Nothing
                } else {
                    self.characters.push(*character);
                    MaskedStep::Stars(1)
                }
            },
            KeyInput::Paste(text) => {
                let chars = to_chars(text.as_str());
                let ghost start = self.characters@;
                let ghost keep = |c: char| c != '\r' && c != '\n';
                let mut shown: usize = 0;
                let mut i: usize = 0;
                proof {
                    crate::seqs::lemma_filter_none(chars@, keep);
                    assert(start + chars@.take(0).filter(keep) =~= start);
                }
                while i < chars.len()
                    invariant
                        i <= chars@.len(),
                        shown <= i,
                        keep == (|c: char| c != '\r' && c != '\n'),
                        self.characters@ == start + chars@.take(i as int).filter(keep),
                        shown == chars@.take(i as int).filter(keep).len(),
                    decreases chars@.len() - i,
                {
                    proof {
                        crate::seqs::lemma_filter_step(chars@, i as int, keep);
                    }
                    let c = chars[i];
                    if c != '\r' && c != '\n' {
                        self.characters.push(c);
                        shown = shown + 1;
                        proof {
                            assert(self.characters@ =~= start + chars@.take(i + 1).filter(keep));
                        }
                    }
                    i = i + 1;
                }
                proof {
                    crate::seqs::lemma_take_all(chars@);
                }
                MaskedStep::Stars(shown)
            },
            KeyInput::Other => MaskedStep::Nothing,
        }
    }

    /// The typed text.
    pub fn text(&self) -> (r: String)
        ensures
            r@ == self.characters@,
    {
        let r = crate::text::from_chars(&self.characters, 0, self.characters.len());
        proof {
            assert(r@ =~= self.characters@);
        }
        r
    }
}

/// A notice of a running request.
#[derive(Debug, PartialEq, Eq)]
pub enum Notice {
    Reply { text: String },
    JobStarted { id: u64, kind: JobKind },
    JobProgress { message: String },
    JobFinished { id: u64 },
    Error { message: String },
    Paused,
    Stopped,
    Finished { cleanup: usize },
    Other,
}

/// What a job does.
#[derive(Debug, PartialEq, Eq)]
pub enum JobKind {
    Work,
    ReviewInput,
    Tool(String),
}

/// One record of a running request; those that are no notice are skipped.
#[derive(Debug, PartialEq, Eq)]
pub struct RecordEntry {
    pub cursor: u64,
    pub notice: Option<Notice>,
}

/// A line on one of the two output streams.
#[derive(Debug, PartialEq, Eq)]
pub enum OutputLine {
    Output(String),
    Diagnostic(String),
}

/// A line by its values.
pub ghost enum OutputLineView {
    Output(Seq<char>),
    Diagnostic(Seq<char>),
}

impl View for OutputLine {
    type V = OutputLineView;

    open spec fn view(&self) -> OutputLineView {
        match self {
            OutputLine::Output(text) => OutputLineView::Output(text@),
            OutputLine::Diagnostic(text) => OutputLineView::Diagnostic(text@),
        }
    }
}

/// The name of what a job does.
pub open spec fn job_name(kind: JobKind) -> Seq<char> {
    match kind {
        JobKind::Work => "solver"@,
        JobKind::ReviewInput => "input review"@,
        JobKind::Tool(name) => name@,
    }
}

/// The line that a notice shows as. Work in progress is shown only where it is wanted.
pub open spec fn shown_line(notice: Notice, show_progress: bool) -> Option<OutputLineView> {
    match notice {
        Notice::Reply { text } => Some(
            OutputLineView::Output("\nagent> "@ + text@ + "\n"@),
        ),
        Notice::JobStarted { id, kind } => if show_progress {
            Some(
                OutputLineView::Diagnostic(
                    "["@ + job_name(kind) + " started \u{b7} job "@ + decimal(id as nat) + "]"@,
                ),
            )
        } else {
            None
        },
        Notice::JobProgress { message } => if show_progress {
            Some(OutputLineView::Diagnostic("["@ + message@ + "]"@))
        } else {
            None
        },
        Notice::JobFinished { id } => if show_progress {
            Some(OutputLineView::Diagnostic("[job "@ + decimal(id as nat) + " finished]"@))
        } else {
            None
        },
        Notice::Error { message } => Some(
            OutputLineView::Diagnostic("agent error: "@ + message@),
        ),
        Notice::Paused => Some(OutputLineView::Diagnostic("[work paused]"@)),
        Notice::Stopped => Some(OutputLineView::Diagnostic("[work stopped]"@)),
        Notice::Finished { cleanup } => if cleanup > 0 {
            Some(
                OutputLineView::Diagnostic(
                    "[answer complete; cleaning up "@ + decimal(cleanup as nat)
                        + " read-only job(s)]"@,
                ),
            )
        } else {
            None
        },
        Notice::Other => None,
    }
}

/// The line that a notice shows as.
pub fn show(notice: &Notice, display: &TuiDisplaySettings) -> (r: Option<OutputLine>)
    ensures
        match r {
            Some(line) => shown_line(*notice, display.show_progress) == Some(line@),
            None => shown_line(*notice, display.show_progress) is None,
        },
{
    match notice {
        Notice::Reply { text } => {
            let mut line = "\nagent> ".to_owned();
            line.push_str(text.as_str());
            line.push_str("\n");
            Some(OutputLine::Output(line))
        },
        Notice::JobStarted { id, kind } => {
            if !display.show_progress {
                return None;
            }
            let mut line = "[".to_owned();
            match kind {
                JobKind::Work => {
                    line.push_str("solver");
                },
                JobKind::ReviewInput => {
                    line.push_str("input review");
                },
                JobKind::Tool(name) => {
                    line.push_str(name.as_str());
                },
            }
            line.push_str(" started \u{b7} job ");
            line.push_str(decimal_string(*id).as_str());
            line.push_str("]");
            Some(OutputLine::Diagnostic(line))
        },
        Notice::JobProgress { message } => {
            if !display.show_progress {
                return None;
            }
            let mut line = "[".to_owned();
            line.push_str(message.as_str());
            line.push_str("]");
            Some(OutputLine::Diagnostic(line))
        },
        Notice::JobFinished { id } => {
            if !display.show_progress {
                return None;
            }
            let mut line = "[job ".to_owned();
            line.push_str(decimal_string(*id).as_str());
            line.push_str(" finished]");
            Some(OutputLine::Diagnostic(line))
        },
        Notice::Error { message } => {
            let mut line = "agent error: ".to_owned();
            line.push_str(message.as_str());
            Some(OutputLine::Diagnostic(line))
        },
        Notice::Paused => Some(OutputLine::Diagnostic("[work paused]".to_owned())),
        Notice::Stopped => Some(OutputLine::Diagnostic("[work stopped]".to_owned())),
        Notice::Finished { cleanup } => {
            if *cleanup == 0 {
                return None;
            }
            let mut line = "[answer complete; cleaning up ".to_owned();
            line.push_str(decimal_string(*cleanup as u64).as_str());
            line.push_str(" read-only job(s)]");
            Some(OutputLine::Diagnostic(line))
        },
        Notice::Other => None,
    }
}

/// How far a one-shot request has come.
#[derive(Debug, PartialEq, Eq)]
pub struct OneShot {
    pub cursor: u64,
    pub last_error: Option<String>,
}

/// How a one-shot request ended.
#[derive(Debug, PartialEq, Eq)]
pub enum OneShotEnd {
    Success,
    Failure(String),
}

/// How far a one-shot request has come, by its values, with what was shown on the way.
#[verifier::ext_equal]
pub ghost struct OneShotView {
    pub cursor: u64,
    pub last_error: Option<String>,
    pub lines: Seq<OutputLineView>,
    pub end: Option<OneShotEnd>,
}

/// The request after one more record: a finished or stopped request succeeds, a paused one fails
/// with the last error where there was one.
pub open spec fn consumed(state: OneShotView, entry: RecordEntry, show_progress: bool) -> OneShotView {
    let moved = OneShotView { cursor: entry.cursor, ..state };
    match entry.notice {
        None => moved,
        Some(notice) => {
            let seen = match shown_line(notice, show_progress) {
                Some(line) => OneShotView { lines: moved.lines.push(line), ..moved },
                None => moved,
            };
            match notice {
                Notice::Finished { .. } => OneShotView { end: Some(OneShotEnd::Success), ..seen },
                Notice::Stopped => OneShotView { end: Some(OneShotEnd::Success), ..seen },
                Notice::Error { message } => OneShotView { last_error: Some(message), ..seen },
                Notice::Paused => OneShotView {
                    last_error: None,
                    end: Some(
                        match seen.last_error {
                            Some(message) => OneShotEnd::Failure(message),
                            None => OneShotEnd::Success,
                        },
                    ),
                    ..seen
                },
                _ => seen,
            }
        },
    }
}

/// The request after records, up to the one that ends it.
pub open spec fn consumed_all(state: OneShotView, entries: Seq<RecordEntry>, show_progress: bool) -> OneShotView
    decreases entries.len(),
{
    if entries.len() == 0 {
        state
    } else {
        let before = consumed_all(state, entries.drop_last(), show_progress);
        if before.end is Some {
            before
        } else {
            consumed(before, entries.last(), show_progress)
        }
    }
}

/// Lines by their values.
pub open spec fn line_views(lines: Seq<OutputLine>) -> Seq<OutputLineView> {
    lines.map_values(|line: OutputLine| line@)
}

/// An ended request takes no further record.
proof fn lemma_ended(state: OneShotView, entries: Seq<RecordEntry>, show_progress: bool, k: int)
    requires
        0 <= k <= entries.len(),
        consumed_all(state, entries.take(k), show_progress).end is Some,
    ensures
        consumed_all(state, entries, show_progress) == consumed_all(
            state,
            entries.take(k),
            show_progress,
        ),
    decreases entries.len() - k,
{
    if k < entries.len() {
        assert(entries.take(k + 1).drop_last() =~= entries.take(k));
        lemma_ended(state, entries, show_progress, k + 1);
    } else {
        assert(entries.take(k) =~= entries);
    }
}

impl OneShot {
    /// Takes records of the request: moves the cursor, remembers errors, and ends where a record
    /// ends it. Returns the lines to show, and how the request ended.
    pub fn consume_records(&mut self, records: &Vec<RecordEntry>, display: &TuiDisplaySettings) -> (r: (
        Vec<OutputLine>,
        Option<OneShotEnd>,
    ))
        ensures
            (OneShotView {
                cursor: final(self).cursor,
                last_error: final(self).last_error,
                lines: line_views(r.0@),
                end: r.1,
            }) == consumed_all(
                OneShotView {
                    cursor: old(self).cursor,
                    last_error: old(self).last_error,
                    lines: Seq::empty(),
                    end: None,
                },
                records@,
                display.show_progress,
            ),
    {
        let ghost start = OneShotView {
            cursor: self.cursor,
            last_error: self.last_error,
            lines: Seq::empty(),
            end: None,
        };
        let mut lines: Vec<OutputLine> = Vec::new();
        let mut i: usize = 0;
        proof {
            assert(records@.take(0) =~= Seq::<RecordEntry>::empty());
            assert(line_views(lines@) =~= Seq::<OutputLineView>::empty());
        }
        while i < records.len()
            invariant
                i <= records@.len(),
                start == (OneShotView {
                    cursor: old(self).cursor,
                    last_error: old(self).last_error,
                    lines: Seq::empty(),
                    end: None,
                }),
                (OneShotView {
                    cursor: self.cursor,
                    last_error: self.last_error,
                    lines: line_views(lines@),
                    end: None,
                }) == consumed_all(start, records@.take(i as int), display.show_progress),
            decreases records@.len() - i,
        {
            let entry = &records[i];
            let ghost before = consumed_all(
                start,
                records@.take(i as int),
                display.show_progress,
            );
            proof {
                assert(records@.take(i + 1).drop_last() =~= records@.take(i as int));
                assert(records@.take(i + 1).last() == *entry);
                assert(consumed_all(start, records@.take(i + 1), display.show_progress)
                    == consumed(before, *entry, display.show_progress));
            }
            self.cursor = entry.cursor;
            match &entry.notice {
                None => {},
                Some(notice) => {
                    match show(notice, display) {
                        Some(line) => {
                            let ghost earlier = line_views(lines@);
                            let ghost added = line@;
                            lines.push(line);
                            proof {
                                assert(line_views(lines@) =~= earlier.push(added));
                            }
                        },
                        None => {},
                    }
                    let end = match notice {
                        Notice::Finished { .. } => Some(OneShotEnd::Success),
                        Notice::Stopped => Some(OneShotEnd::Success),
                        Notice::Error { message } => {
                            self.last_error = Some(message.clone());
                            None
                        },
                        Notice::Paused => {
                            let end = match &self.last_error {
                                Some(message) => OneShotEnd::Failure(message.clone()),
                                None => OneShotEnd::Success,
                            };
                            self.last_error = None;
                            Some(end)
                        },
                        _ => None,
                    };
                    if end.is_some() {
                        proof {
                            lemma_ended(start, records@, display.show_progress, i + 1);
                        }
                        return (lines, end);
                    }
                },
            }
            i = i + 1;
        }
        proof {
            assert(records@.take(i as int) =~= records@);
        }
        (lines, None)
    }
}

/// Once the first argument that is no option is reached, nothing behind it can change an option:
/// it is all message.
pub proof fn law_task_text_changes_no_option(args: Seq<Seq<char>>, index: int, parsed: ArgumentsView)
    requires
        0 <= index < args.len(),
        !has_prefix(args[index], "-"@),
        args[index] != "--model"@,
        args[index] != "--profile"@,
        args[index] != "--events"@,
        args[index] != "--help"@,
        args[index] != "-h"@,
        args[index] != "--"@,
    ensures
        options_from(args, index, parsed) == Ok::<ArgumentsView, &'static str>(
            ArgumentsView { message: joined_words(args, index), ..parsed },
        ),
{
}

/// Everything behind a separator is message, options and all.
pub proof fn law_separator_keeps_text(args: Seq<Seq<char>>, index: int, parsed: ArgumentsView)
    requires
        0 <= index < args.len(),
        args[index] == "--"@,
    ensures
        options_from(args, index, parsed) == Ok::<ArgumentsView, &'static str>(
            ArgumentsView { message: joined_words(args, index + 1), ..parsed },
        ),
{
    reveal_strlit("--");
    reveal_strlit("-h");
    reveal_strlit("--help");
    reveal_strlit("--model");
    reveal_strlit("--profile");
    reveal_strlit("--events");
    assert("--"@[1] != "-h"@[1]);
    assert("--"@.len() != "--help"@.len());
    assert("--"@.len() != "--model"@.len());
    assert("--"@.len() != "--profile"@.len());
    assert("--"@.len() != "--events"@.len());
}

/// No command of the credential utility carries an API key: it has an action and a profile.
pub proof fn law_credentials_take_no_key(args: Seq<Seq<char>>)
    requires
        args.len() > 3,
        args[0] == "credentials"@,
    ensures
        meaning(args) is Err,
{
}

} // verus!

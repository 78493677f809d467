//! What the program promises about its arguments, its start and its files.

use vstd::prelude::*;

use crate::cli::{
    chooses, consumed, consumed_all, joined_words, masked, meaning, selects, shown_line,
    begins_as, without_breaks, ArgumentsView, CredentialsAction, EnvironmentValue, InitialModel,
    KeyInput, MaskedStep, Notice, OneShotEnd, OneShotView, OutputLineView, ProviderActionView,
    ProviderCliProtocol, RecordEntry, StartupCommand, UsageError,
};
use crate::durable::error::{SessionLeaseError, SessionStoreError};
use crate::durable::session::{SessionLifecycle, SessionRecordView};

use crate::path::{absolute, FilePath};
use crate::profiles::valid_profile_id;
use crate::safe_file::{
    checks_directory, checks_file, finds_directory, steps_lock, EntryFacts, EntryKind, LockStep,
    UnsafeEntry,
};
use crate::seqs::lemma_filter_keeps;
use crate::settings::selection_problem;
use crate::startup::{
    boots, candidates, fails_boot, outcome_of_lease, outcome_of_mark, roots, search_begins,
    search_goes_on, tui_reason, AppStorageError, BootAction, BootFailure, BootStep, DraftAction,
    DraftSearch, OpenOutcome, TuiError, WorkspaceApplicationError,
};
use crate::text::{has_prefix, is_blank, trim};
use crate::title::first_title;

verus! {

/// A single option with its value is taken, trimmed where it names a model or a profile; everything
/// behind it that is no option is the message.
pub proof fn law_options_are_taken(value: Seq<char>, message: Seq<char>)
    requires
        !is_blank(value),
        !has_prefix(value, "-"@),
        !has_prefix(message, "-"@),
        message != "-h"@ && message != "--help"@ && message != "--model"@ && message
            != "--profile"@ && message != "--events"@ && message != "--"@,
    ensures
        meaning(seq!["--model"@, value, message]) matches Ok(taken) && taken.model == Some(
            trim(value),
        ) && taken.profile is None && taken.events is None && taken.message == message
            && !taken.help && taken.credentials is None && taken.provider is None,
        meaning(seq!["--profile"@, value, message]) matches Ok(taken) && taken.profile == Some(
            trim(value),
        ) && taken.model is None && taken.message == message,
        meaning(seq!["--events"@, value, message]) matches Ok(taken) && taken.events == Some(value)
            && taken.model is None && taken.message == message,
{
    lemma_literals();
    reveal_with_fuel(crate::cli::options_from, 3);
    reveal_with_fuel(joined_words, 2);
}

/// An option that is given twice is refused, and so is one without a value.
pub proof fn law_options_are_given_once(first: Seq<char>, second: Seq<char>)
    requires
        !is_blank(first) && !has_prefix(first, "-"@),
        !is_blank(second) && !has_prefix(second, "-"@),
    ensures
        meaning(seq!["--model"@, first, "--model"@, second]) is Err,
        meaning(seq!["--profile"@, first, "--profile"@, second]) is Err,
        meaning(seq!["--events"@, first, "--events"@, second]) is Err,
        meaning(seq!["--model"@]) is Err,
        meaning(seq!["--profile"@]) is Err,
        meaning(seq!["--events"@]) is Err,
{
    lemma_literals();
    reveal_with_fuel(crate::cli::options_from, 3);
}

/// Keys of profiles are stored and cleared by name, and nothing else is taken with it.
pub proof fn law_credentials_name_a_profile(profile: Seq<char>, more: Seq<char>)
    requires
        !is_blank(profile) && !has_prefix(profile, "-"@),
    ensures
        meaning(seq!["credentials"@, "set"@, profile]) matches Ok(taken) && taken.credentials == Some(
            (CredentialsAction::Store, trim(profile)),
        ) && taken.message.len() == 0 && taken.provider is None && !taken.help,
        meaning(seq!["credentials"@, "clear"@, profile]) matches Ok(taken) && taken.credentials
            == Some((CredentialsAction::Clear, trim(profile))) && taken.provider is None
            && !taken.help,
        meaning(seq!["credentials"@, "set"@, profile, more]) is Err,
        meaning(seq!["credentials"@]) is Err,
{
    lemma_literals();
}

/// A provider is added with its name, its protocol and its address; the protocols are the three that
/// are known.
pub proof fn law_providers_are_added(name: Seq<char>, address: Seq<char>)
    ensures
        meaning(seq!["provider"@, "list"@]) matches Ok(taken) && taken.provider == Some(
            ProviderActionView::List,
        ),
        meaning(seq!["provider"@, "add"@, name, "responses"@, address]) matches Ok(taken)
            && taken.provider == Some(
            ProviderActionView::Add {
                id: name,
                protocol: ProviderCliProtocol::OpenAiResponses,
                base_url: Some(address),
            },
        ),
        meaning(seq!["provider"@, "add"@, name, "chat"@]) matches Ok(taken) && taken.provider == Some(
            ProviderActionView::Add {
                id: name,
                protocol: ProviderCliProtocol::OpenAiChatCompletions,
                base_url: None,
            },
        ),
        meaning(seq!["provider"@, "add"@, name, "anthropic"@]) matches Ok(taken) && taken.provider
            == Some(
            ProviderActionView::Add {
                id: name,
                protocol: ProviderCliProtocol::AnthropicMessages,
                base_url: None,
            },
        ),
{
    lemma_literals();
}

proof fn lemma_literals()
    ensures
        "-h"@ != "--model"@ && "-h"@ != "--profile"@ && "-h"@ != "--events"@,
        "--help"@ != "--model"@ && "--help"@ != "--profile"@ && "--help"@ != "--events"@,
        "--model"@ != "--profile"@ && "--model"@ != "--events"@ && "--profile"@ != "--events"@,
        "--model"@ != "credentials"@ && "--profile"@ != "credentials"@ && "--events"@
            != "credentials"@,
        "--model"@ != "provider"@ && "--profile"@ != "provider"@ && "--events"@ != "provider"@,
        "credentials"@ != "provider"@,
        "set"@ != "-h"@ && "set"@ != "--help"@ && "clear"@ != "-h"@ && "clear"@ != "--help"@,
        "set"@ != "clear"@,
        "list"@ != "-h"@ && "list"@ != "--help"@ && "add"@ != "-h"@ && "add"@ != "--help"@,
        "list"@ != "add"@,
        "responses"@ != "chat"@ && "responses"@ != "anthropic"@ && "chat"@ != "anthropic"@,
        has_prefix("--model"@, "-"@) && has_prefix("--profile"@, "-"@) && has_prefix(
            "--events"@,
            "-"@,
        ),
{
    reveal_strlit("-");
    reveal_strlit("-h");
    reveal_strlit("--help");
    reveal_strlit("--model");
    reveal_strlit("--profile");
    reveal_strlit("--events");
    reveal_strlit("credentials");
    reveal_strlit("provider");
    reveal_strlit("set");
    reveal_strlit("clear");
    reveal_strlit("list");
    reveal_strlit("add");
    reveal_strlit("responses");
    reveal_strlit("chat");
    reveal_strlit("anthropic");
    assert("-h"@.len() == 2 && "--help"@.len() == 6 && "--model"@.len() == 7 && "--profile"@.len()
        == 9 && "--events"@.len() == 8);
    assert("--help"@[2] == 'h');
    assert("credentials"@.len() == 11 && "provider"@.len() == 8);
    assert("--events"@[0] == '-' && "provider"@[0] == 'p');
    assert("set"@.len() == 3 && "clear"@.len() == 5 && "list"@.len() == 4 && "add"@.len() == 3);
    assert("set"@[0] == 's' && "add"@[0] == 'a');
    assert("responses"@.len() == 9 && "chat"@.len() == 4 && "anthropic"@.len() == 9);
    assert("responses"@[0] == 'r' && "anthropic"@[0] == 'a');
    assert("--model"@[0] == '-' && "--profile"@[0] == '-');
    assert("--model"@.take(1) =~= "-"@);
    assert("--profile"@.take(1) =~= "-"@);
    assert("--events"@.take(1) =~= "-"@);
}

/// Help comes before everything, then credentials and providers. A message runs once, and none is a
/// conversation, which takes no event file.
pub proof fn law_arguments_start_one_thing(
    arguments: ArgumentsView,
    r: Result<StartupCommand, UsageError>,
)
    requires
        begins_as(arguments, r),
    ensures
        arguments.help ==> r == Ok::<StartupCommand, UsageError>(StartupCommand::Help),
        !arguments.help && arguments.credentials is Some ==> r == Ok::<StartupCommand, UsageError>(
            StartupCommand::Credentials,
        ),
        !arguments.help && arguments.credentials is None && arguments.provider is Some ==> r == Ok::<
            StartupCommand,
            UsageError,
        >(StartupCommand::Provider),
        !arguments.help && arguments.credentials is None && arguments.provider is None ==> {
            &&& arguments.message.len() > 0 ==> r == Ok::<StartupCommand, UsageError>(
                StartupCommand::OneShot,
            )
            &&& arguments.message.len() == 0 && arguments.events is None ==> r == Ok::<
                StartupCommand,
                UsageError,
            >(StartupCommand::Interactive)
            &&& arguments.message.len() == 0 && arguments.events is Some ==> r is Err
        },
{
}

/// An argument wins over the environment. A profile is only taken with a model, and both must be
/// valid; without a profile the model is the subscription's.
pub proof fn law_arguments_win(
    argument: Option<String>,
    variable: EnvironmentValue,
    problem: &'static str,
    r: Result<Option<String>, UsageError>,
    model: Option<String>,
    profile: Option<String>,
    selected: Result<Option<InitialModel>, UsageError>,
)
    requires
        chooses(argument, variable, problem, r),
        selects(model, profile, selected),
    ensures
        argument matches Some(text) ==> (r matches Ok(Some(found)) && found == text),
        argument is None ==> {
            &&& variable matches EnvironmentValue::Text(text) ==> (r matches Ok(Some(found))
                && found@ == trim(text@))
            &&& variable is Absent ==> (r matches Ok(None))
            &&& variable is NotUnicode ==> r is Err
        },
        model is None && profile is None ==> (selected matches Ok(None)),
        model is None && profile is Some ==> selected is Err,
        model matches Some(name) ==> {
            let valid = (profile is Some ==> valid_profile_id(profile->0@)) && selection_problem(
                name@,
                None,
            ) is None;
            &&& (selected is Ok) == valid
            &&& valid ==> (selected matches Ok(Some(chosen)) && chosen.model == name)
            &&& valid && profile is Some ==> selected->Ok_0->0.profile@ == profile->0@
            &&& valid && profile is None ==> selected->Ok_0->0.profile@ == "chatgpt"@
        },
{
}

/// A masked input holds exactly what was typed and pasted: characters are added at its end and shown
/// as stars, line breaks of a paste are left out, the last character can be erased. Enter finishes,
/// Escape and the interrupts cancel, and neither changes it.
pub proof fn law_masked_input_holds_what_was_typed(input: Seq<char>, key: KeyInput)
    ensures
        ({
            let (after, step) = masked(input, key);
            &&& key is Enter ==> step == MaskedStep::Finish && after == input
            &&& key is Escape ==> step == MaskedStep::Cancel && after == input
            &&& key is Backspace && input.len() > 0 ==> step == MaskedStep::Erase && after
                == input.take(input.len() - 1)
            &&& key is Backspace && input.len() == 0 ==> step == MaskedStep::Nothing && after == input
            &&& key matches KeyInput::Character { character, control, alt } ==> {
                &&& !control && !alt ==> after == input.push(character) && step == MaskedStep::Stars(
                    1,
                )
                &&& control && (character == 'c' || character == 'd') ==> step == MaskedStep::Cancel
                    && after == input
                &&& (control || alt) && !(control && (character == 'c' || character == 'd')) ==> step
                    == MaskedStep::Nothing && after == input
            }
            &&& key matches KeyInput::Paste(text) ==> {
                &&& after.take(input.len() as int) == input
                &&& (forall|i: int| 0 <= i < text@.len() ==> #[trigger] text@[i] != '\r' && text@[i]
                    != '\n') ==> after == input + text@
                &&& forall|i: int|
                    input.len() <= i < after.len() ==> #[trigger] after[i] != '\r' && after[i]
                        != '\n'
            }
        }),
{
    if let KeyInput::Paste(text) = key {
        let keep = |c: char| c != '\r' && c != '\n';
        let added = without_breaks(text@);
        assert(added == text@.filter(keep));
        let after = masked(input, key).0;
        assert(after.take(input.len() as int) =~= input);
        assert forall|i: int| input.len() <= i < after.len() implies #[trigger] after[i] != '\r'
            && after[i] != '\n' by {
            lemma_filter_keeps(text@, keep, i - input.len());
            assert(after[i] == added[i - input.len()]);
        }
        if forall|i: int| 0 <= i < text@.len() ==> #[trigger] text@[i] != '\r' && text@[i] != '\n' {
            crate::seqs::lemma_filter_all(text@, keep);
        }
    }
}

/// Replies are shown as output and failures as diagnostics, whatever is displayed; progress is shown
/// exactly where it is wanted.
pub proof fn law_replies_and_failures_are_shown(notice: Notice, show_progress: bool)
    ensures
        ({
            let line = shown_line(notice, show_progress);
            &&& notice matches Notice::Reply { text } ==> line == Some(
                OutputLineView::Output("\nagent> "@ + text@ + "\n"@),
            )
            &&& notice matches Notice::Error { message } ==> line == Some(
                OutputLineView::Diagnostic("agent error: "@ + message@),
            )
            &&& notice is JobStarted || notice is JobProgress || notice is JobFinished ==> (line
                is Some) == show_progress
            &&& notice is Paused || notice is Stopped ==> line is Some
            &&& notice is Other ==> line is None
        }),
{
}

/// A single run ends with success when the work is finished or stopped. When it pauses, it fails with
/// the last failure that was told, if any. Until then it goes on, keeping the last failure.
pub proof fn law_single_runs_end_with_their_work(
    state: OneShotView,
    entry: RecordEntry,
    show_progress: bool,
)
    ensures
        ({
            let after = consumed(state, entry, show_progress);
            &&& after.cursor == entry.cursor
            &&& after.lines.len() >= state.lines.len()
            &&& entry.notice is None ==> after.end == state.end && after.last_error
                == state.last_error && after.lines == state.lines
            &&& entry.notice matches Some(notice) ==> {
                &&& notice is Finished || notice is Stopped ==> after.end == Some(
                    OneShotEnd::Success,
                )
                &&& notice matches Notice::Error { message } ==> after.last_error == Some(message)
                    && after.end == state.end
                &&& notice is Paused && state.last_error is Some ==> after.end == Some(
                    OneShotEnd::Failure(state.last_error->0),
                )
                &&& notice is Paused && state.last_error is None ==> after.end == Some(
                    OneShotEnd::Success,
                )
                &&& notice is Reply || notice is JobStarted || notice is JobProgress || notice
                    is JobFinished || notice is Other ==> after.end == state.end && after.last_error
                    == state.last_error
                &&& notice is Reply ==> after.lines.len() == state.lines.len() + 1
            }
        }),
{
}

/// Once a single run has ended, nothing more is read.
pub proof fn law_nothing_is_read_after_the_end(
    state: OneShotView,
    entries: Seq<RecordEntry>,
    more: RecordEntry,
    show_progress: bool,
)
    requires
        consumed_all(state, entries, show_progress).end is Some,
    ensures
        consumed_all(state, entries.push(more), show_progress) == consumed_all(
            state,
            entries,
            show_progress,
        ),
{
    assert(entries.push(more).drop_last() =~= entries);
}

/// The store is in the data home where it is absolute, else under the home; a relative path counts
/// for nothing.
pub proof fn law_stores_have_an_absolute_root(
    xdg_data_home: Option<FilePath>,
    home: Option<FilePath>,
    r: Result<FilePath, AppStorageError>,
)
    requires
        roots(xdg_data_home, home, r),
    ensures
        ({
            let configured = xdg_data_home is Some && absolute(xdg_data_home->0@);
            let at_home = home is Some && absolute(home->0@);
            (r is Ok) == (configured || at_home)
        }),
{
}

/// The conversations that may be taken up are the active ones, in the order of the listing.
pub proof fn law_active_conversations_are_candidates(records: Seq<SessionRecordView>, i: int)
    ensures
        0 <= i < records.len() && records[i].status.lifecycle == SessionLifecycle::Active
            ==> candidates(records).contains(records[i].id),
        0 <= i < candidates(records).len() ==> exists|n: int|
            0 <= n < records.len() && (#[trigger] records[n]).id == candidates(records)[i]
                && records[n].status.lifecycle == SessionLifecycle::Active,
{
    let keep = crate::startup::is_active();
    let kept = records.filter(keep);
    if 0 <= i < records.len() && records[i].status.lifecycle == SessionLifecycle::Active {
        records.lemma_filter_contains(keep, i);
        let n = choose|n: int| 0 <= n < kept.len() && kept[n] == records[i];
        assert(candidates(records)[n] == records[i].id);
    }
    if 0 <= i < candidates(records).len() {
        lemma_filter_keeps(records, keep, i);
        let n = choose|n: int| 0 <= n < records.len() && records[n] == kept[i];
        assert(records[n].id == candidates(records)[i]);
    }
}

/// A search opens the first candidate, goes on to the next where one is held elsewhere, and makes a
/// new conversation only when all were tried. Where the listing has changed it is read again.
pub proof fn law_searches_try_every_candidate(
    before: DraftSearch,
    records: Seq<SessionRecordView>,
    listed: DraftSearch,
    first: DraftAction,
    outcome: OpenOutcome,
    after: DraftSearch,
    r: DraftAction,
)
    requires
        search_begins(before, records, listed, first),
        search_goes_on(listed, outcome, after, r),
        listed.candidates@.len() > 0,
    ensures
        listed.candidates@ == candidates(records),
        first == DraftAction::Open(listed.candidates@[0]),
        outcome is HeldElsewhere && listed.candidates@.len() > 1 ==> r == DraftAction::Open(
            listed.candidates@[1],
        ),
        outcome is HeldElsewhere && listed.candidates@.len() == 1 ==> r == DraftAction::Create,
        outcome is Changed ==> r == DraftAction::List || r == DraftAction::GiveUp,
        r == DraftAction::Create ==> outcome is HeldElsewhere,
{
}

/// A conversation that is held elsewhere is passed over, one that has changed is looked up again, and
/// any other failure ends the search.
pub proof fn law_refusals_guide_the_search(
    lease: SessionLeaseError,
    leased: Option<OpenOutcome>,
    mark: SessionStoreError,
    marked: Option<OpenOutcome>,
)
    requires
        outcome_of_lease(lease, leased),
        outcome_of_mark(mark, marked),
    ensures
        lease is HeldElsewhere ==> leased == Some(OpenOutcome::HeldElsewhere),
        lease is NotFound ==> leased == Some(OpenOutcome::Changed),
        lease is Session ==> leased is None,
        mark is NotFound || mark is RevisionConflict ==> marked == Some(OpenOutcome::Changed),
        !(mark is NotFound) && !(mark is RevisionConflict) ==> marked is None,
{
}

/// The start opens the store, then the workspace, the settings, the model and the conversation, each
/// after the one before.
pub proof fn law_the_start_has_an_order(step: BootStep, r: BootAction)
    requires
        boots(step, r),
    ensures
        step is Store ==> r == BootAction::Open(BootStep::Workspace),
        step is Workspace ==> r == BootAction::Open(BootStep::Settings),
        step is Settings ==> r == BootAction::Open(BootStep::Model),
        step is Model ==> r == BootAction::Open(BootStep::Conversation),
        step is Conversation ==> r is Report,
{
}

/// A failure of the store or of the settings can be repaired; an unknown profile cannot.
pub proof fn law_store_failures_can_be_repaired(failure: BootFailure, r: BootAction)
    requires
        fails_boot(failure, r),
    ensures
        failure is Store || failure is Settings ==> r is Repair,
        failure is UnknownProfile ==> r is Fail,
{
}

/// A private file is a file of the user alone, with one link and no access for anybody else.
pub proof fn law_private_files_are_the_users(
    facts: EntryFacts,
    user: u32,
    r: Result<(), UnsafeEntry>,
    directory: Result<(), UnsafeEntry>,
    found: Result<bool, UnsafeEntry>,
    missing: Result<bool, UnsafeEntry>,
)
    requires
        checks_file(facts, user, r),
        checks_directory(facts, user, directory),
        finds_directory(Some(facts), user, found),
        finds_directory(None, user, missing),
    ensures
        r is Ok <==> facts.kind == EntryKind::File && facts.owner == user && facts.links == 1
            && facts.mode & 0o7777 == 0o600,
        directory is Ok <==> facts.kind == EntryKind::Directory && facts.owner == user,
        found == Ok::<bool, UnsafeEntry>(true) <==> facts.kind == EntryKind::Directory && facts.owner
            == user && facts.mode & 0o077 == 0,
        found != Ok::<bool, UnsafeEntry>(false),
        missing == Ok::<bool, UnsafeEntry>(false),
{
}

/// A lock is taken once its file was found or made; where the file is gone again it is not.
pub proof fn law_locks_are_taken_on_a_file(
    step: LockStep,
    found: bool,
    created: Option<bool>,
    r: Result<LockStep, UnsafeEntry>,
)
    requires
        steps_lock(step, found, created, r),
    ensures
        step is Open && found ==> r == Ok::<LockStep, UnsafeEntry>(LockStep::Lock),
        step is Open && !found && created is None ==> r == Ok::<LockStep, UnsafeEntry>(
            LockStep::Create,
        ),
        step is Open && !found && created is Some ==> r is Err,
        step is Create && created == Some(true) ==> r == Ok::<LockStep, UnsafeEntry>(LockStep::Lock),
        step is Create && created != Some(true) ==> r == Ok::<LockStep, UnsafeEntry>(LockStep::Open),
{
}

/// A title from a short text of single words is that text: nothing is lost where nothing has to be.
pub proof fn law_short_texts_are_their_own_title(input: Seq<char>)
    requires
        crate::title::squeezed(input).len() > 0,
        crate::title::squeezed(input).len() <= 60,
        crate::text::byte_count(crate::title::squeezed(input)) <= 200,
    ensures
        first_title(input) == Some(crate::title::squeezed(input)),
{
}

/// The data lies where it is asked for, else in a directory of its own below the user's data, else
/// below the home directory; without any of them there is no place for it.
pub proof fn law_data_has_a_place(
    explicit: Option<FilePath>,
    data_home: Option<FilePath>,
    home: Option<FilePath>,
)
    ensures
        ({
            let place = crate::api::platform_data_dir(explicit, data_home, home);
            &&& explicit matches Some(path) ==> place == Some(path@)
            &&& explicit is None ==> (data_home matches Some(path) ==> place == Some(
                crate::path::joined(path@, vstd::utf8::encode_utf8("bone"@)),
            ))
            &&& explicit is None && data_home is None ==> (home matches Some(path) ==> place
                == Some(
                crate::path::joined(path@, vstd::utf8::encode_utf8(".local/share/bone"@)),
            ))
            &&& place is None <==> explicit is None && data_home is None && home is None
        }),
{
}

/// A failure asks for a repair of the local state exactly where that state is damaged: its settings,
/// its conversations or its workspaces. A directory that cannot be a workspace is no such damage,
/// and neither is a failure of the terminal, of the agent or of an input.
pub proof fn law_repairs_are_asked_for_damage(error: TuiError)
    ensures
        error is Settings ==> tui_reason(error) is Some,
        error is SessionStore ==> tui_reason(error) is Some,
        error is Io || error is Agent || error is Start || error is Input ==> tui_reason(error)
            is None,
        error matches TuiError::Workspace(WorkspaceApplicationError::Workspace(cause)) ==> (
        tui_reason(error) is Some <==> cause is Registry),
        error matches TuiError::Workspace(cause) ==> (!(cause is Workspace) ==> tui_reason(error)
            is Some),
{
}

/// A search whose sessions changed under it lists them again, up to a limit, and then gives up. One
/// whose session is held elsewhere goes on to the next one, and makes a new one where there is none.
pub proof fn law_changed_sessions_are_listed_again(
    before: DraftSearch,
    outcome: OpenOutcome,
    after: DraftSearch,
    r: DraftAction,
)
    requires
        search_goes_on(before, outcome, after, r),
    ensures
        after.candidates@ == before.candidates@,
        after.listings == before.listings,
        outcome is Changed ==> after.next == before.next && (r is List <==> before.listings < 8)
            && (r is GiveUp <==> before.listings >= 8),
        outcome is HeldElsewhere ==> after.next == before.next + 1 && !(r is List) && !(r is GiveUp),
        outcome is HeldElsewhere && after.next < after.candidates@.len() ==> (
        r matches DraftAction::Open(id) && id == after.candidates@[after.next as int]),
        outcome is HeldElsewhere && after.next >= after.candidates@.len() ==> r is Create,
{
}

} // verus!

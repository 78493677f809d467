//! Durable, append-only facts of one logical session, one JSON text per line.
//!
//! A journal is no snapshot of an agent. It records the boundaries that can safely be recovered:
//! accepted user input, visible replies, turn boundaries, interruption, and uncertainty about an
//! external effect.

use vstd::prelude::*;

use super::error::{too_long, too_long_text, JournalError};
use super::storage::{check_document_size, StorageError};
use super::time::UnixMillis;
use crate::ids::SessionId;
use crate::path::FilePath;
use crate::text::{blank, byte_count, byte_len, decimal, decimal_string, is_blank};

verus! {

/// The version of new entries. Entries of version 1 are still read.
pub const JOURNAL_FORMAT_VERSION: u32 = 2;

/// The largest journal that is read.
pub const MAX_JOURNAL_BYTES: usize = 67108864;

/// The longest line of a journal.
pub const MAX_ENTRY_BYTES: usize = 1048576;

/// The longest text of a fact.
pub const MAX_FACT_TEXT_BYTES: usize = 524288;

/// The longest configuration revision.
pub const MAX_CONFIG_REVISION_BYTES: usize = 256;

/// The longest name of a model.
pub const MAX_MODEL_ID_BYTES: usize = 512;

/// The byte that ends a line.
pub const NEWLINE: u8 = 10;

/// The strictly increasing position of a fact, counted from one.
#[derive(Clone, Copy, Debug, Default, PartialEq, Eq, PartialOrd, Ord, Structural)]
pub struct JournalSequence {
    pub number: u64,
}

impl JournalSequence {
    /// The position of the first fact.
    pub fn first() -> (r: JournalSequence)
        ensures
            r.number == 1,
    {
        JournalSequence { number: 1 }
    }

    /// This position as a number.
    pub fn value(self) -> (r: u64)
        ensures
            r == self.number,
    {
        self.number
    }

    /// The next position.
    pub fn after(self) -> (r: Result<JournalSequence, JournalError>)
        ensures
            if self.number < u64::MAX {
                r matches Ok(next) && next.number == self.number + 1
            } else {
                r matches Err(error) && is_invalid(
                    error,
                    "journal sequence cannot be incremented further"@,
                )
            },
    {
        if self.number < u64::MAX {
            Ok(JournalSequence { number: self.number + 1 })
        } else {
            Err(invalid("journal sequence cannot be incremented further".to_owned()))
        }
    }
}

/// Whether an error reports an invalid entry in these words.
pub open spec fn is_invalid(error: JournalError, text: Seq<char>) -> bool {
    error matches JournalError::InvalidEntry { message } && message@ == text
}

fn invalid(message: String) -> (r: JournalError)
    ensures
        is_invalid(r, message@),
{
    JournalError::InvalidEntry { message }
}

/// How a turn ended for the user.
#[derive(Clone, Copy, Debug, PartialEq, Eq, Structural)]
pub enum TurnOutcome {
    Completed,
    Stopped,
    WaitingForUser,
    Failed,
}

/// A fact of a session.
#[derive(Debug, PartialEq, Eq)]
pub enum JournalFact {
    /// A new turn was accepted, with its text and its configuration.
    UserTurnAccepted {
        turn: u64,
        text: String,
        effective_config_revision: String,
        solver_model: String,
    },
    /// A message was accepted; older journals hold it in place of an accepted turn.
    UserMessageAccepted {
        text: String,
        effective_config_revision: Option<String>,
        solver_model: Option<String>,
    },
    /// A turn began with a fixed configuration.
    TurnStarted { turn: u64, effective_config_revision: String, solver_model: String },
    /// A visible reply.
    AssistantReply { text: String },
    TurnFinished { turn: u64, outcome: TurnOutcome },
    /// Work was lost at a recovery boundary.
    RuntimeInterrupted { reason: String },
    /// An external effect may have happened; the user has to decide how to go on.
    UnresolvedExternalEffect { summary: String },
}

impl Clone for JournalFact {
    fn clone(&self) -> (r: JournalFact)
        ensures
            r == *self,
    {
        match self {
            JournalFact::UserTurnAccepted {
                turn,
                text,
                effective_config_revision,
                solver_model,
            } => JournalFact::UserTurnAccepted {
                turn: *turn,
                text: text.clone(),
                effective_config_revision: effective_config_revision.clone(),
                solver_model: solver_model.clone(),
            },
            JournalFact::UserMessageAccepted { text, effective_config_revision, solver_model } =>
                JournalFact::UserMessageAccepted {
                text: text.clone(),
                effective_config_revision: effective_config_revision.clone(),
                solver_model: solver_model.clone(),
            },
            JournalFact::TurnStarted { turn, effective_config_revision, solver_model } =>
                JournalFact::TurnStarted {
                turn: *turn,
                effective_config_revision: effective_config_revision.clone(),
                solver_model: solver_model.clone(),
            },
            JournalFact::AssistantReply { text } => JournalFact::AssistantReply {
                text: text.clone(),
            },
            JournalFact::TurnFinished { turn, outcome } => JournalFact::TurnFinished {
                turn: *turn,
                outcome: *outcome,
            },
            JournalFact::RuntimeInterrupted { reason } => JournalFact::RuntimeInterrupted {
                reason: reason.clone(),
            },
            JournalFact::UnresolvedExternalEffect { summary } =>
                JournalFact::UnresolvedExternalEffect { summary: summary.clone() },
        }
    }
}

/// What is wrong with a text that has to be there.
pub open spec fn required_problem(field: Seq<char>, value: Seq<char>, maximum_bytes: usize) -> Option<
    Seq<char>,
> {
    if is_blank(value) {
        Some(field + " must not be empty"@)
    } else if byte_count(value) > maximum_bytes {
        Some(too_long_text(field, maximum_bytes))
    } else {
        None
    }
}

/// What is wrong with a text that may be absent.
pub open spec fn optional_problem(field: Seq<char>, value: Option<String>, maximum_bytes: usize) -> Option<
    Seq<char>,
> {
    match value {
        Some(value) => required_problem(field, value@, maximum_bytes),
        None => None,
    }
}

/// What is wrong with the number of a turn.
pub open spec fn turn_problem(turn: u64) -> Option<Seq<char>> {
    if turn == 0 {
        Some("turn number must be greater than zero"@)
    } else {
        None
    }
}

/// The first of two problems.
pub open spec fn first_of(first: Option<Seq<char>>, second: Option<Seq<char>>) -> Option<Seq<char>> {
    if first is Some {
        first
    } else {
        second
    }
}

impl JournalFact {
    /// What is wrong with this fact, the first thing that is reported.
    pub open spec fn problem(self) -> Option<Seq<char>> {
        match self {
            JournalFact::UserTurnAccepted {
                turn,
                text,
                effective_config_revision,
                solver_model,
            } => first_of(
                turn_problem(turn),
                first_of(
                    required_problem("user message"@, text@, MAX_FACT_TEXT_BYTES),
                    first_of(
                        required_problem(
                            "effective configuration revision"@,
                            effective_config_revision@,
                            MAX_CONFIG_REVISION_BYTES,
                        ),
                        required_problem("solver model"@, solver_model@, MAX_MODEL_ID_BYTES),
                    ),
                ),
            ),
            JournalFact::UserMessageAccepted { text, effective_config_revision, solver_model } =>
                first_of(
                required_problem("user message"@, text@, MAX_FACT_TEXT_BYTES),
                first_of(
                    optional_problem(
                        "effective configuration revision"@,
                        effective_config_revision,
                        MAX_CONFIG_REVISION_BYTES,
                    ),
                    optional_problem("solver model"@, solver_model, MAX_MODEL_ID_BYTES),
                ),
            ),
            JournalFact::TurnStarted { turn, effective_config_revision, solver_model } => first_of(
                turn_problem(turn),
                first_of(
                    required_problem(
                        "effective configuration revision"@,
                        effective_config_revision@,
                        MAX_CONFIG_REVISION_BYTES,
                    ),
                    required_problem("solver model"@, solver_model@, MAX_MODEL_ID_BYTES),
                ),
            ),
            JournalFact::AssistantReply { text } => required_problem(
                "journal text"@,
                text@,
                MAX_FACT_TEXT_BYTES,
            ),
            JournalFact::RuntimeInterrupted { reason } => required_problem(
                "journal text"@,
                reason@,
                MAX_FACT_TEXT_BYTES,
            ),
            JournalFact::UnresolvedExternalEffect { summary } => required_problem(
                "journal text"@,
                summary@,
                MAX_FACT_TEXT_BYTES,
            ),
            JournalFact::TurnFinished { turn, .. } => turn_problem(turn),
        }
    }
}

/// Whether a check reports exactly a problem.
pub open spec fn checked(r: Result<(), JournalError>, problem: Option<Seq<char>>) -> bool {
    match problem {
        Some(text) => r matches Err(error) && is_invalid(error, text),
        None => r is Ok,
    }
}

fn validate_required(field: &str, value: &str, maximum_bytes: usize) -> (r: Result<
    (),
    JournalError,
>)
    ensures
        checked(r, required_problem(field@, value@, maximum_bytes)),
{
    if blank(value) {
        let mut message = field.to_owned();
        message.push_str(" must not be empty");
        return Err(invalid(message));
    }
    if byte_len(value) > maximum_bytes {
        return Err(invalid(too_long(field, maximum_bytes)));
    }
    Ok(())
}

fn validate_optional(field: &str, value: &Option<String>, maximum_bytes: usize) -> (r: Result<
    (),
    JournalError,
>)
    ensures
        checked(r, optional_problem(field@, *value, maximum_bytes)),
{
    match value {
        Some(value) => validate_required(field, value.as_str(), maximum_bytes),
        None => Ok(()),
    }
}

fn validate_turn(turn: u64) -> (r: Result<(), JournalError>)
    ensures
        checked(r, turn_problem(turn)),
{
    if turn == 0 {
        Err(invalid("turn number must be greater than zero".to_owned()))
    } else {
        Ok(())
    }
}

fn validate_configuration(revision: &str, model: &str) -> (r: Result<(), JournalError>)
    ensures
        checked(
            r,
            first_of(
                required_problem(
                    "effective configuration revision"@,
                    revision@,
                    MAX_CONFIG_REVISION_BYTES,
                ),
                required_problem("solver model"@, model@, MAX_MODEL_ID_BYTES),
            ),
        ),
{
    match validate_required(
        "effective configuration revision",
        revision,
        MAX_CONFIG_REVISION_BYTES,
    ) {
        Ok(_) => validate_required("solver model", model, MAX_MODEL_ID_BYTES),
        Err(error) => Err(error),
    }
}

impl JournalFact {
    /// Checks this fact.
    pub fn validate(&self) -> (r: Result<(), JournalError>)
        ensures
            checked(r, self.problem()),
    {
        match self {
            JournalFact::UserTurnAccepted {
                turn,
                text,
                effective_config_revision,
                solver_model,
            } => {
                match validate_turn(*turn) {
                    Ok(_) => {},
                    Err(error) => {
                        return Err(error);
                    },
                }
                match validate_required("user message", text.as_str(), MAX_FACT_TEXT_BYTES) {
                    Ok(_) => {},
                    Err(error) => {
                        return Err(error);
                    },
                }
                validate_configuration(effective_config_revision.as_str(), solver_model.as_str())
            },
            JournalFact::UserMessageAccepted { text, effective_config_revision, solver_model } => {
                match validate_required("user message", text.as_str(), MAX_FACT_TEXT_BYTES) {
                    Ok(_) => {},
                    Err(error) => {
                        return Err(error);
                    },
                }
                match validate_optional(
                    "effective configuration revision",
                    effective_config_revision,
                    MAX_CONFIG_REVISION_BYTES,
                ) {
                    Ok(_) => {},
                    Err(error) => {
                        return Err(error);
                    },
                }
                validate_optional("solver model", solver_model, MAX_MODEL_ID_BYTES)
            },
            JournalFact::TurnStarted { turn, effective_config_revision, solver_model } => {
                match validate_turn(*turn) {
                    Ok(_) => {},
                    Err(error) => {
                        return Err(error);
                    },
                }
                validate_configuration(effective_config_revision.as_str(), solver_model.as_str())
            },
            JournalFact::AssistantReply { text } => validate_required(
                "journal text",
                text.as_str(),
                MAX_FACT_TEXT_BYTES,
            ),
            JournalFact::RuntimeInterrupted { reason } => validate_required(
                "journal text",
                reason.as_str(),
                MAX_FACT_TEXT_BYTES,
            ),
            JournalFact::UnresolvedExternalEffect { summary } => validate_required(
                "journal text",
                summary.as_str(),
                MAX_FACT_TEXT_BYTES,
            ),
            JournalFact::TurnFinished { turn, .. } => validate_turn(*turn),
        }
    }
}

/// One record of a journal.
#[derive(Debug, PartialEq, Eq)]
pub struct JournalEntry {
    pub format_version: u32,
    pub sequence: JournalSequence,
    pub occurred_at: UnixMillis,
    pub fact: JournalFact,
}

impl Clone for JournalEntry {
    fn clone(&self) -> (r: JournalEntry)
        ensures
            r == *self,
    {
        JournalEntry {
            format_version: self.format_version,
            sequence: self.sequence,
            occurred_at: self.occurred_at,
            fact: self.fact.clone(),
        }
    }
}

impl JournalEntry {
    /// What is wrong with this entry, the first thing that is reported.
    pub open spec fn problem(self) -> Option<Seq<char>> {
        if self.format_version != 1 && self.format_version != JOURNAL_FORMAT_VERSION {
            Some("unsupported journal format version "@ + decimal(self.format_version as nat))
        } else if self.sequence.number == 0 {
            Some("journal sequence must be greater than zero"@)
        } else if self.occurred_at.milliseconds < 0 {
            Some("journal timestamp must not be before the Unix epoch"@)
        } else {
            self.fact.problem()
        }
    }

    /// A new entry.
    pub fn new(sequence: JournalSequence, fact: JournalFact, now: UnixMillis) -> (r: Result<
        JournalEntry,
        JournalError,
    >)
        ensures
            ({
                let entry = JournalEntry {
                    format_version: JOURNAL_FORMAT_VERSION,
                    sequence,
                    occurred_at: now,
                    fact,
                };
                match entry.problem() {
                    Some(text) => r matches Err(error) && is_invalid(error, text),
                    None => r == Ok::<JournalEntry, JournalError>(entry),
                }
            }),
    {
        let entry = JournalEntry {
            format_version: JOURNAL_FORMAT_VERSION,
            sequence,
            occurred_at: now,
            fact,
        };
        match entry.validate() {
            Ok(_) => Ok(entry),
            Err(error) => Err(error),
        }
    }

    /// Checks this entry.
    pub fn validate(&self) -> (r: Result<(), JournalError>)
        ensures
            checked(r, self.problem()),
    {
        if self.format_version != 1 && self.format_version != JOURNAL_FORMAT_VERSION {
            let mut message = "unsupported journal format version ".to_owned();
            message.push_str(decimal_string(self.format_version as u64).as_str());
            return Err(invalid(message));
        }
        if self.sequence.value() == 0 {
            return Err(invalid("journal sequence must be greater than zero".to_owned()));
        }
        if self.occurred_at.as_millis() < 0 {
            return Err(invalid("journal timestamp must not be before the Unix epoch".to_owned()));
        }
        self.fact.validate()
    }
}

/// The valid prefix of a journal, with what is wrong behind it.
#[derive(Debug, PartialEq, Eq)]
pub struct JournalRead {
    pub entries: Vec<JournalEntry>,
    pub recovery_issue: Option<JournalRecoveryIssue>,
}

impl Default for JournalRead {
    fn default() -> (r: JournalRead)
        ensures
            r.entries@ == Seq::<JournalEntry>::empty(),
            r.recovery_issue is None,
    {
        JournalRead { entries: Vec::new(), recovery_issue: None }
    }
}

impl JournalRead {
    /// The position that a new entry takes.
    pub fn next_sequence(&self) -> (r: Result<JournalSequence, JournalError>)
        ensures
            if self.entries@.len() == 0 {
                r == Ok::<JournalSequence, JournalError>(JournalSequence { number: 1 })
            } else if self.entries@.last().sequence.number < u64::MAX {
                r matches Ok(next) && next.number == self.entries@.last().sequence.number + 1
            } else {
                r matches Err(error) && is_invalid(
                    error,
                    "journal sequence cannot be incremented further"@,
                )
            },
    {
        if self.entries.len() == 0 {
            Ok(JournalSequence::first())
        } else {
            self.entries[self.entries.len() - 1].sequence.after()
        }
    }

    /// Whether nothing is wrong behind the valid prefix.
    pub fn is_recoverable(&self) -> (r: bool)
        ensures
            r == (self.recovery_issue is None),
    {
        self.recovery_issue.is_none()
    }
}

/// What is wrong behind the valid prefix of a journal, by its line, counted from one.
#[derive(Debug, PartialEq, Eq)]
pub struct JournalRecoveryIssue {
    pub path: FilePath,
    pub line: usize,
    pub message: String,
}

/// What ends the lines of a journal before its end.
#[derive(Clone, Copy, Debug, PartialEq, Eq, Structural)]
pub enum LineProblem {
    Unterminated,
    Empty,
    TooLong,
}

impl LineProblem {
    /// What this problem says.
    pub open spec fn text(self) -> Seq<char> {
        match self {
            LineProblem::Unterminated => "journal tail is not terminated by a newline"@,
            LineProblem::Empty => "journal contains an empty record"@,
            LineProblem::TooLong => too_long_text("journal entry"@, MAX_ENTRY_BYTES),
        }
    }

    fn message(self) -> (r: String)
        ensures
            r@ == self.text(),
    {
        match self {
            LineProblem::Unterminated => "journal tail is not terminated by a newline".to_owned(),
            LineProblem::Empty => "journal contains an empty record".to_owned(),
            LineProblem::TooLong => too_long("journal entry", MAX_ENTRY_BYTES),
        }
    }
}

/// The place of the first newline from `from` on; the length where there is none.
pub open spec fn newline_from(bytes: Seq<u8>, from: int) -> int
    decreases bytes.len() - from,
{
    if from >= bytes.len() {
        bytes.len() as int
    } else if bytes[from] == NEWLINE {
        from
    } else {
        newline_from(bytes, from + 1)
    }
}

/// The lines from `offset` on, up to the first problem.
pub open spec fn lines_from(bytes: Seq<u8>, offset: int) -> (Seq<Seq<u8>>, Option<LineProblem>)
    decreases bytes.len() - offset,
{
    if offset >= bytes.len() {
        (Seq::empty(), None)
    } else {
        let end = newline_from(bytes, offset);
        if end >= bytes.len() {
            (Seq::empty(), Some(LineProblem::Unterminated))
        } else if end <= offset {
            (Seq::empty(), Some(LineProblem::Empty))
        } else if end - offset > MAX_ENTRY_BYTES {
            (Seq::empty(), Some(LineProblem::TooLong))
        } else {
            let (rest, problem) = lines_from(bytes, end + 1);
            (seq![bytes.subrange(offset, end)] + rest, problem)
        }
    }
}

/// Whether a newline is the first one from a place on.
pub proof fn lemma_newline_from(bytes: Seq<u8>, from: int, at: int)
    requires
        0 <= from <= at <= bytes.len(),
        forall|i: int| from <= i < at ==> bytes[i] != NEWLINE,
        at < bytes.len() ==> bytes[at] == NEWLINE,
    ensures
        newline_from(bytes, from) == at,
    decreases at - from,
{
    if from < at {
        lemma_newline_from(bytes, from + 1, at);
    }
}

/// The lines of a journal file, up to the first problem.
pub struct JournalLines {
    pub lines: Vec<Vec<u8>>,
    pub problem: Option<LineProblem>,
}

/// Lines by their bytes.
pub open spec fn line_views(lines: Seq<Vec<u8>>) -> Seq<Seq<u8>> {
    lines.map_values(|line: Vec<u8>| line@)
}

/// Splits a journal file into its lines, up to the first problem.
pub fn journal_lines(bytes: &Vec<u8>) -> (r: JournalLines)
    ensures
        (line_views(r.lines@), r.problem) == lines_from(bytes@, 0),
{
    let mut lines: Vec<Vec<u8>> = Vec::new();
    let mut offset: usize = 0;
    let ghost all = lines_from(bytes@, 0);
    proof {
        assert(line_views(lines@) + lines_from(bytes@, 0).0 =~= all.0);
    }
    while offset < bytes.len()
        invariant
            offset <= bytes@.len(),
            all == lines_from(bytes@, 0),
            all.0 == line_views(lines@) + lines_from(bytes@, offset as int).0,
            all.1 == lines_from(bytes@, offset as int).1,
        decreases bytes@.len() - offset,
    {
        let mut end: usize = offset;
        while end < bytes.len() && bytes[end] != NEWLINE
            invariant
                offset <= end <= bytes@.len(),
                forall|i: int| offset <= i < end ==> bytes@[i] != NEWLINE,
            decreases bytes@.len() - end,
        {
            end = end + 1;
        }
        proof {
            lemma_newline_from(bytes@, offset as int, end as int);
        }
        let problem = if end == bytes.len() {
            Some(LineProblem::Unterminated)
        } else if end == offset {
            Some(LineProblem::Empty)
        } else if end - offset > MAX_ENTRY_BYTES {
            Some(LineProblem::TooLong)
        } else {
            None
        };
        if problem.is_some() {
            proof {
                assert(all.0 =~= line_views(lines@));
            }
            return JournalLines { lines, problem };
        }
        let mut line: Vec<u8> = Vec::new();
        let mut i: usize = offset;
        while i < end
            invariant
                offset <= i <= end <= bytes@.len(),
                line@ == bytes@.subrange(offset as int, i as int),
            decreases end - i,
        {
            line.push(bytes[i]);
            proof {
                assert(line@ =~= bytes@.subrange(offset as int, i + 1));
            }
            i = i + 1;
        }
        let ghost earlier = line_views(lines@);
        let ghost found = line@;
        lines.push(line);
        proof {
            assert(line_views(lines@) =~= earlier.push(found));
            let rest = lines_from(bytes@, end + 1).0;
            assert(earlier + (seq![found] + rest) =~= earlier.push(found) + rest);
        }
        offset = end + 1;
    }
    proof {
        assert(all.0 =~= line_views(lines@));
    }
    JournalLines { lines, problem: None }
}

/// What a journal holds, by its values: its valid prefix, and what is wrong at a line behind it.
#[verifier::ext_equal]
pub ghost struct JournalReadView {
    pub entries: Seq<JournalEntry>,
    pub issue: Option<(int, Seq<char>)>,
}

/// What reading decoded lines comes to, from the line `index` on: a line that does not decode, an
/// invalid entry and a wrong position each end the valid prefix; behind all lines stands the
/// problem that ended them.
pub open spec fn read_from(
    decoded: Seq<Result<JournalEntry, String>>,
    problem: Option<LineProblem>,
    index: int,
) -> JournalReadView
    decreases decoded.len() - index,
{
    if index >= decoded.len() {
        JournalReadView {
            entries: Seq::empty(),
            issue: match problem {
                Some(problem) => Some((index + 1, problem.text())),
                None => None,
            },
        }
    } else {
        let issue = match decoded[index] {
            Err(error) => Some("journal entry is not valid JSON: "@ + error@),
            Ok(entry) => match entry.problem() {
                Some(text) => Some("journal entry is invalid: "@ + text),
                None => if entry.sequence.number != index + 1 {
                    Some(
                        "journal sequence is "@ + decimal(entry.sequence.number as nat)
                            + ", expected "@ + decimal((index + 1) as nat),
                    )
                } else {
                    None
                },
            },
        };
        match issue {
            Some(text) => JournalReadView {
                entries: Seq::empty(),
                issue: Some((index + 1, text)),
            },
            None => {
                let rest = read_from(decoded, problem, index + 1);
                JournalReadView {
                    entries: seq![decoded[index]->Ok_0] + rest.entries,
                    issue: rest.issue,
                }
            },
        }
    }
}

/// Whether a reading is what it should be.
pub open spec fn reads(read: JournalRead, path: Seq<u8>, view: JournalReadView) -> bool {
    &&& read.entries@ == view.entries
    &&& match view.issue {
        Some((line, text)) => {
            &&& read.recovery_issue matches Some(issue)
            &&& issue.path@ == path
            &&& issue.line == line
            &&& issue.message@ == text
        },
        None => read.recovery_issue is None,
    }
}

/// What is wrong with a decoded line.
fn line_issue(decoded: &Result<JournalEntry, String>, expected: u64) -> (r: Option<String>)
    ensures
        match *decoded {
            Err(error) => r matches Some(message) && message@
                == "journal entry is not valid JSON: "@ + error@,
            Ok(entry) => match entry.problem() {
                Some(text) => r matches Some(message) && message@ == "journal entry is invalid: "@
                    + text,
                None => if entry.sequence.number != expected {
                    r matches Some(message) && message@ == "journal sequence is "@ + decimal(
                        entry.sequence.number as nat,
                    ) + ", expected "@ + decimal(expected as nat)
                } else {
                    r is None
                },
            },
        },
{
    match decoded {
        Err(error) => {
            let mut message = "journal entry is not valid JSON: ".to_owned();
            message.push_str(error.as_str());
            Some(message)
        },
        Ok(entry) => {
            match entry.validate() {
                Ok(_) => {},
                Err(error) => {
                    let mut message = "journal entry is invalid: ".to_owned();
                    match error {
                        JournalError::InvalidEntry { message: text } => {
                            message.push_str(text.as_str());
                        },
                        _ => {},
                    }
                    return Some(message);
                },
            }
            if entry.sequence.value() != expected {
                let mut message = "journal sequence is ".to_owned();
                message.push_str(decimal_string(entry.sequence.value()).as_str());
                message.push_str(", expected ");
                message.push_str(decimal_string(expected).as_str());
                return Some(message);
            }
            None
        },
    }
}

/// Handle of one session's journal.
#[derive(Debug, PartialEq, Eq)]
pub struct SessionJournal {
    pub session_id: SessionId,
    pub path: FilePath,
}

impl SessionJournal {
    /// The journal of a session at a path.
    pub fn open(session_id: SessionId, path: FilePath) -> (r: SessionJournal)
        ensures
            r.session_id == session_id,
            r.path == path,
    {
        SessionJournal { session_id, path }
    }

    /// The session that this journal belongs to.
    pub fn session_id(&self) -> (r: SessionId)
        ensures
            r == self.session_id,
    {
        self.session_id
    }

    /// Where this journal stands.
    pub fn path(&self) -> (r: &FilePath)
        ensures
            *r == self.path,
    {
        &self.path
    }

    /// The lines of the file at this journal's path, up to the first problem. A file that is missing
    /// has none; one that is too large is refused.
    pub fn lines(&self, content: Option<Vec<u8>>) -> (r: Result<JournalLines, JournalError>)
        ensures
            match content {
                None => {
                    &&& r matches Ok(found)
                    &&& line_views(found.lines@) == Seq::<Seq<u8>>::empty()
                    &&& found.problem is None
                },
                Some(bytes) => if bytes@.len() > MAX_JOURNAL_BYTES {
                    &&& r matches Err(
                        JournalError::Storage(
                            StorageError::DocumentTooLarge { path: shown, maximum_bytes },
                        ),
                    )
                    &&& shown@ == self.path@
                    &&& maximum_bytes == MAX_JOURNAL_BYTES
                } else {
                    r matches Ok(found) && (line_views(found.lines@), found.problem) == lines_from(
                        bytes@,
                        0,
                    )
                },
            },
    {
        match content {
            None => {
                let found = JournalLines { lines: Vec::new(), problem: None };
                assert(line_views(found.lines@) =~= Seq::<Seq<u8>>::empty());
                Ok(found)
            },
            Some(bytes) => match check_document_size(
                &self.path,
                bytes.len() as u64,
                MAX_JOURNAL_BYTES,
            ) {
                Ok(()) => Ok(journal_lines(&bytes)),
                Err(error) => Err(JournalError::Storage(error)),
            },
        }
    }

    /// What a journal holds whose lines decode to `decoded` and end with `problem`: its valid
    /// prefix, and what is wrong behind it.
    pub fn read(&self, decoded: &Vec<Result<JournalEntry, String>>, problem: Option<LineProblem>) -> (r: Result<
        JournalRead,
        JournalError,
    >)
        requires
            decoded@.len() < usize::MAX,
        ensures
            r matches Ok(read) && reads(read, self.path@, read_from(decoded@, problem, 0)),
    {
        let ghost whole = read_from(decoded@, problem, 0);
        let mut entries: Vec<JournalEntry> = Vec::new();
        let mut i: usize = 0;
        proof {
            assert(entries@ + whole.entries =~= whole.entries);
        }
        while i < decoded.len()
            invariant
                i <= decoded@.len() < usize::MAX,
                whole == read_from(decoded@, problem, 0),
                whole.entries == entries@ + read_from(decoded@, problem, i as int).entries,
                whole.issue == read_from(decoded@, problem, i as int).issue,
            decreases decoded@.len() - i,
        {
            match line_issue(&decoded[i], i as u64 + 1) {
                Some(message) => {
                    proof {
                        assert(whole.entries =~= entries@);
                    }
                    return Ok(
                        JournalRead {
                            entries,
                            recovery_issue: Some(
                                JournalRecoveryIssue {
                                    path: self.path.copy(),
                                    line: i + 1,
                                    message,
                                },
                            ),
                        },
                    );
                },
                None => {},
            }
            match &decoded[i] {
                Ok(entry) => {
                    let ghost earlier = entries@;
                    entries.push(entry.clone());
                    proof {
                        let rest = read_from(decoded@, problem, i + 1).entries;
                        assert(earlier + (seq![*entry] + rest) =~= entries@ + rest);
                    }
                },
                Err(_) => {},
            }
            i = i + 1;
        }
        proof {
            assert(whole.entries =~= entries@);
        }
        let recovery_issue = match problem {
            Some(problem) => Some(
                JournalRecoveryIssue {
                    path: self.path.copy(),
                    line: i + 1,
                    message: problem.message(),
                },
            ),
            None => None,
        };
        Ok(JournalRead { entries, recovery_issue })
    }

    /// The entry that appending a fact to a journal of this content writes.
    pub fn append(&self, read: &JournalRead, fact: JournalFact, now: UnixMillis) -> (r: Result<
        JournalEntry,
        JournalError,
    >)
        ensures
            appends(self.session_id, self.path@, *read, None, fact, now, r),
    {
        self.append_inner(read, None, fact, now)
    }

    /// The entry that appending a fact writes, refused where the next position is not the
    /// expected one.
    pub fn append_if_next(
        &self,
        read: &JournalRead,
        expected_next: JournalSequence,
        fact: JournalFact,
        now: UnixMillis,
    ) -> (r: Result<JournalEntry, JournalError>)
        ensures
            appends(self.session_id, self.path@, *read, Some(expected_next), fact, now, r),
    {
        self.append_inner(read, Some(expected_next), fact, now)
    }

    /// The entry that appending a fact writes, refused where another next position is expected.
    pub fn append_inner(
        &self,
        read: &JournalRead,
        expected_next: Option<JournalSequence>,
        fact: JournalFact,
        now: UnixMillis,
    ) -> (r: Result<JournalEntry, JournalError>)
        ensures
            appends(self.session_id, self.path@, *read, expected_next, fact, now, r),
    {
        if read.recovery_issue.is_some() {
            return Err(
                JournalError::NeedsRecovery {
                    session_id: self.session_id,
                    path: self.path.copy(),
                },
            );
        }
        let next = match read.next_sequence() {
            Ok(next) => next,
            Err(error) => {
                return Err(error);
            },
        };
        match expected_next {
            Some(expected) => {
                if expected != next {
                    return Err(
                        JournalError::SequenceConflict {
                            session_id: self.session_id,
                            expected_next: expected,
                            actual_next: next,
                        },
                    );
                }
            },
            None => {},
        }
        JournalEntry::new(next, fact, now)
    }
}

/// The position behind the entries of a journal.
pub open spec fn next_position(entries: Seq<JournalEntry>) -> int {
    if entries.len() == 0 {
        1
    } else {
        entries.last().sequence.number + 1
    }
}

/// What appending a fact comes to.
pub open spec fn appends(
    session_id: SessionId,
    path: Seq<u8>,
    read: JournalRead,
    expected_next: Option<JournalSequence>,
    fact: JournalFact,
    now: UnixMillis,
    r: Result<JournalEntry, JournalError>,
) -> bool {
    let next = next_position(read.entries@);
    if read.recovery_issue is Some {
        r matches Err(JournalError::NeedsRecovery { session_id: id, path: at }) && id == session_id
            && at@ == path
    } else if next > u64::MAX {
        r matches Err(error) && is_invalid(error, "journal sequence cannot be incremented further"@)
    } else if expected_next is Some && expected_next->0.number != next {
        r == Err::<JournalEntry, JournalError>(
            JournalError::SequenceConflict {
                session_id,
                expected_next: expected_next->0,
                actual_next: JournalSequence { number: next as u64 },
            },
        )
    } else {
        let entry = JournalEntry {
            format_version: JOURNAL_FORMAT_VERSION,
            sequence: JournalSequence { number: next as u64 },
            occurred_at: now,
            fact,
        };
        match entry.problem() {
            Some(text) => r matches Err(error) && is_invalid(error, text),
            None => r == Ok::<JournalEntry, JournalError>(entry),
        }
    }
}

/// The line that an encoded entry is written as, refused where it is too long.
pub fn entry_line(encoded: Vec<u8>) -> (r: Result<Vec<u8>, JournalError>)
    ensures
        if encoded@.len() > MAX_ENTRY_BYTES {
            r matches Err(error) && is_invalid(
                error,
                too_long_text("serialized journal entry"@, MAX_ENTRY_BYTES),
            )
        } else {
            r matches Ok(line) && line@ == encoded@.push(NEWLINE)
        },
{
    if encoded.len() > MAX_ENTRY_BYTES {
        return Err(invalid(too_long("serialized journal entry", MAX_ENTRY_BYTES)));
    }
    let mut line = encoded;
    line.push(NEWLINE);
    Ok(line)
}

/// The entries of the valid prefix stand at the positions from one on.
pub proof fn law_positions_are_contiguous(
    decoded: Seq<Result<JournalEntry, String>>,
    problem: Option<LineProblem>,
    index: int,
)
    requires
        0 <= index,
    ensures
        forall|i: int|
            0 <= i < read_from(decoded, problem, index).entries.len() ==> (
            #[trigger] read_from(decoded, problem, index).entries[i]).sequence.number == index + i
                + 1 && read_from(decoded, problem, index).entries[i].problem() is None,
    decreases decoded.len() - index,
{
    if index < decoded.len() {
        law_positions_are_contiguous(decoded, problem, index + 1);
        let rest = read_from(decoded, problem, index + 1).entries;
        let all = read_from(decoded, problem, index).entries;
        assert forall|i: int| 0 <= i < all.len() implies (#[trigger] all[i]).sequence.number
            == index + i + 1 && all[i].problem() is None by {
            if i > 0 {
                assert(all[i] == rest[i - 1]);
            }
        }
    }
}

/// A line that is appended to a journal without a problem is read behind the lines before it.
pub proof fn law_appended_line_is_read(bytes: Seq<u8>, line: Seq<u8>, offset: int)
    requires
        0 <= offset <= bytes.len(),
        lines_from(bytes, offset).1 is None,
        0 < line.len() <= MAX_ENTRY_BYTES,
        forall|i: int| 0 <= i < line.len() ==> line[i] != NEWLINE,
    ensures
        lines_from(bytes + line.push(NEWLINE), offset) == (
            lines_from(bytes, offset).0.push(line),
            None::<LineProblem>,
        ),
    decreases bytes.len() - offset,
{
    let longer = bytes + line.push(NEWLINE);
    if offset == bytes.len() {
        let end = offset + line.len();
        assert forall|i: int| offset <= i < end implies longer[i] != NEWLINE by {
            assert(longer[i] == line[i - offset]);
        }
        assert(longer[end] == NEWLINE);
        lemma_newline_from(longer, offset, end);
        assert(longer.subrange(offset, end) =~= line);
        assert(lines_from(longer, end + 1) == (Seq::<Seq<u8>>::empty(), None::<LineProblem>));
        assert(seq![line] + Seq::<Seq<u8>>::empty() =~= Seq::<Seq<u8>>::empty().push(line));
    } else {
        let end = newline_from(bytes, offset);
        lemma_newline_place(bytes, offset);
        assert forall|i: int| offset <= i < end implies longer[i] != NEWLINE by {
            assert(longer[i] == bytes[i]);
        }
        assert(longer[end] == bytes[end]);
        lemma_newline_from(longer, offset, end);
        assert(longer.subrange(offset, end) =~= bytes.subrange(offset, end));
        law_appended_line_is_read(bytes, line, end + 1);
        let rest = lines_from(bytes, end + 1).0;
        assert(seq![bytes.subrange(offset, end)] + rest.push(line) =~= (seq![bytes.subrange(
            offset,
            end,
        )] + rest).push(line));
    }
}

/// Nothing before the first newline is a newline.
proof fn lemma_newline_place(bytes: Seq<u8>, from: int)
    requires
        0 <= from <= bytes.len(),
    ensures
        from <= newline_from(bytes, from) <= bytes.len(),
        forall|i: int| from <= i < newline_from(bytes, from) ==> bytes[i] != NEWLINE,
        newline_from(bytes, from) < bytes.len() ==> bytes[newline_from(bytes, from)] == NEWLINE,
    decreases bytes.len() - from,
{
    if from < bytes.len() && bytes[from] != NEWLINE {
        lemma_newline_place(bytes, from + 1);
    }
}

/// A valid entry at the next position that is appended to a whole journal is read back behind the
/// entries before it.
pub proof fn law_appended_entry_is_read(
    decoded: Seq<Result<JournalEntry, String>>,
    entry: JournalEntry,
    index: int,
)
    requires
        0 <= index <= decoded.len(),
        read_from(decoded, None, index).issue is None,
        entry.problem() is None,
        entry.sequence.number == decoded.len() + 1,
    ensures
        ({
            let before = read_from(decoded, None, index);
            let after = read_from(
                decoded.push(Ok::<JournalEntry, String>(entry)),
                None,
                index,
            );
            after.entries == before.entries.push(entry) && after.issue is None
        }),
    decreases decoded.len() - index,
{
    let longer = decoded.push(Ok::<JournalEntry, String>(entry));
    if index == decoded.len() {
        assert(longer[index] == Ok::<JournalEntry, String>(entry));
        let rest = read_from(longer, None, index + 1);
        assert(rest.entries =~= Seq::<JournalEntry>::empty());
        assert(seq![entry] + rest.entries =~= Seq::<JournalEntry>::empty().push(entry));
    } else {
        assert(longer[index] == decoded[index]);
        law_appended_entry_is_read(decoded, entry, index + 1);
        let before = read_from(decoded, None, index + 1).entries;
        let first = decoded[index]->Ok_0;
        assert(seq![first] + before.push(entry) =~= (seq![first] + before).push(entry));
    }
}

/// A journal with a problem in its tail takes no further entry.
pub proof fn law_damaged_journal_takes_nothing(
    session_id: SessionId,
    path: Seq<u8>,
    read: JournalRead,
    expected_next: Option<JournalSequence>,
    fact: JournalFact,
    now: UnixMillis,
    r: Result<JournalEntry, JournalError>,
)
    requires
        read.recovery_issue is Some,
        appends(session_id, path, read, expected_next, fact, now, r),
    ensures
        r is Err,
{
}

/// What appending a fact to a journal comes to, for a journal whose lines decode to `decoded`: a
/// problem in its tail, an unexpected position and an invalid fact are refused, in this order; else
/// the new entry stands behind the ones before it, at the next position, and is read back there.
pub proof fn law_appending_extends_the_journal(
    session_id: SessionId,
    path: Seq<u8>,
    decoded: Seq<Result<JournalEntry, String>>,
    problem: Option<LineProblem>,
    read: JournalRead,
    expected_next: Option<JournalSequence>,
    fact: JournalFact,
    now: UnixMillis,
    r: Result<JournalEntry, JournalError>,
)
    requires
        decoded.len() < u64::MAX,
        reads(read, path, read_from(decoded, problem, 0)),
        appends(session_id, path, read, expected_next, fact, now, r),
    ensures
        read.recovery_issue is Some ==> r matches Err(JournalError::NeedsRecovery { .. }),
        read.recovery_issue is None && expected_next is Some && expected_next->0.number
            != read.entries@.len() + 1 ==> r matches Err(JournalError::SequenceConflict { .. }),
        read.recovery_issue is None && (expected_next is Some ==> expected_next->0.number
            == read.entries@.len() + 1) && r is Err ==> r matches Err(
            JournalError::InvalidEntry { .. },
        ),
        read.recovery_issue is None && (expected_next is Some ==> expected_next->0.number
            == read.entries@.len() + 1) && fact.problem() is None && now.milliseconds >= 0
            ==> r is Ok,
        r matches Ok(entry) ==> {
            &&& read.recovery_issue is None
            &&& fact.problem() is None
            &&& entry.sequence.number == read.entries@.len() + 1
            &&& entry.fact == fact
            &&& entry.format_version == JOURNAL_FORMAT_VERSION
            &&& entry.occurred_at == now
            &&& read_from(decoded.push(Ok(entry)), problem, 0) == (JournalReadView {
                entries: read.entries@.push(entry),
                issue: None,
            })
        },
{
    let view = read_from(decoded, problem, 0);
    lemma_whole_prefix(decoded, problem, 0);
    law_positions_are_contiguous(decoded, problem, 0);
    if view.entries.len() > 0 {
        assert(view.entries[view.entries.len() - 1] == view.entries.last());
    }
    if r is Ok {
        law_appended_entry_is_read(decoded, r->Ok_0, 0);
    }
}

/// Where nothing is wrong behind the valid prefix, it holds an entry of every line, and the file
/// ended without a problem.
proof fn lemma_whole_prefix(
    decoded: Seq<Result<JournalEntry, String>>,
    problem: Option<LineProblem>,
    index: int,
)
    requires
        0 <= index <= decoded.len(),
    ensures
        read_from(decoded, problem, index).entries.len() <= decoded.len() - index,
        read_from(decoded, problem, index).issue is None ==> problem is None && read_from(
            decoded,
            problem,
            index,
        ).entries.len() == decoded.len() - index,
    decreases decoded.len() - index,
{
    if index < decoded.len() {
        lemma_whole_prefix(decoded, problem, index + 1);
    }
}

} // verus!

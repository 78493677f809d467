//! What a session refuses before it looks at its state.

use vstd::prelude::*;

use crate::api::{AcceptanceDecision, AcceptanceSubmission, HistoryCursor, SubmitInput, WriteResolution};
use crate::config::MAX_PERSISTED_VALUE_BYTES;
use crate::error::Error;
use crate::ids::SessionId;
use crate::text::{blank, byte_count, byte_len, is_blank};

verus! {

/// The most entries on a page of history.
pub const HISTORY_PAGE_LIMIT: usize = 32;

/// Whether this is how many entries a page holds.
pub open spec fn bounds_page(
    limit: usize,
    most: usize,
    r: usize,
) -> bool {
    r == (if limit < 1 {
        1
    } else if limit > most {
        most
    } else {
        limit
    })
}

/// A page size within its bounds: at least one, at most `most`.
pub fn page_limit(limit: usize, most: usize) -> (r: usize)
    requires
        most >= 1,
    ensures
        bounds_page(limit, most, r),
{
    if limit < 1 {
        1
    } else if limit > most {
        most
    } else {
        limit
    }
}

/// Whether a text is too long to be stored.
pub open spec fn too_long(text: Seq<char>) -> bool {
    byte_count(text) > MAX_PERSISTED_VALUE_BYTES
}

fn check_length(text: &str, complaint: &str) -> (r: Result<(), Error>)
    ensures
        if too_long(text@) {
            r matches Err(error) && error.is_invalid(complaint@)
        } else {
            r is Ok
        },
{
    if byte_len(text) > MAX_PERSISTED_VALUE_BYTES {
        Err(Error::invalid(complaint))
    } else {
        Ok(())
    }
}

/// Whether this says if an input can be submitted.
pub open spec fn admits_input(
    input: SubmitInput,
    r: Result<(), Error>,
) -> bool {
    if too_long(input.text@) {
        r matches Err(error) && error.is_invalid("input exceeds 1 MiB"@)
    } else {
        r is Ok
    }
}

/// Checks an input before it is submitted.
pub fn check_input(input: &SubmitInput) -> (r: Result<(), Error>)
    ensures
        admits_input(*input, r),
{
    check_length(input.text.as_str(), "input exceeds 1 MiB")
}

/// Whether this says if a draft can be kept.
pub open spec fn admits_draft(
    draft: Seq<char>,
    r: Result<(), Error>,
) -> bool {
    if too_long(draft) {
        r matches Err(error) && error.is_invalid("draft exceeds 1 MiB"@)
    } else {
        r is Ok
    }
}

/// Checks a draft before it is saved.
pub fn check_draft(draft: &str) -> (r: Result<(), Error>)
    ensures
        admits_draft(draft@, r),
{
    check_length(draft, "draft exceeds 1 MiB")
}

/// Whether this says if a finding can be kept.
pub open spec fn admits_resolution(
    resolution: WriteResolution,
    r: Result<(), Error>,
) -> bool {
    if too_long(resolution.evidence@) {
        r matches Err(error) && error.is_invalid("write resolution evidence exceeds 1 MiB"@)
    } else {
        r is Ok
    }
}

/// Checks the evidence for settling a write.
pub fn check_resolution(resolution: &WriteResolution) -> (r: Result<(), Error>)
    ensures
        admits_resolution(*resolution, r),
{
    check_length(resolution.evidence.as_str(), "write resolution evidence exceeds 1 MiB")
}

/// Whether this says if a place in the history can be read from.
pub open spec fn admits_cursor(
    session: SessionId,
    cursor: Option<HistoryCursor>,
    r: Result<(), Error>,
) -> bool {
    match cursor {
        Some(cursor) if cursor.session != session => r matches Err(error) && error.is_invalid(
            "history cursor belongs to another session"@,
        ),
        _ => r is Ok,
    }
}

/// Checks that a cursor belongs to a session's history.
pub fn check_history_cursor(session: SessionId, cursor: Option<HistoryCursor>) -> (r: Result<(), Error>)
    ensures
        admits_cursor(session, cursor, r),
{
    match cursor {
        Some(cursor) => {
            if cursor.session() != session {
                Err(Error::invalid("history cursor belongs to another session"))
            } else {
                Ok(())
            }
        },
        None => Ok(()),
    }
}

/// What is wrong with a decision on a result, if anything: it is of this session, its reason is not
/// too long and there where it is needed, and a rejection, and nothing else, comes with a new
/// standalone input.
pub open spec fn acceptance_complaint(session: SessionId, submission: AcceptanceSubmission) -> Option<
    Seq<char>,
> {
    if submission.result.session != session {
        Some("acceptance result belongs to another session"@)
    } else if too_long(submission.reason@) {
        Some("acceptance reason exceeds 1 MiB"@)
    } else if submission.decision != AcceptanceDecision::Accepted && is_blank(submission.reason@) {
        Some("this acceptance decision requires a reason"@)
    } else if submission.decision == AcceptanceDecision::Rejected {
        match submission.rework {
            None => Some("rejected acceptance requires a new rework input"@),
            Some(input) => if too_long(input.text@) || input.reply_to is Some {
                Some("rework must be a new standalone input of at most 1 MiB"@)
            } else {
                None
            },
        }
    } else if submission.rework is Some {
        Some("only a rejected result can include rework input"@)
    } else {
        None
    }
}

/// Whether this says if a decision can be recorded.
pub open spec fn admits_acceptance(
    session: SessionId,
    submission: AcceptanceSubmission,
    r: Result<(), Error>,
) -> bool {
    match acceptance_complaint(session, submission) {
        Some(message) => r matches Err(error) && error.is_invalid(message),
        None => r is Ok,
    }
}

/// Checks a decision on a result before it is submitted to a session.
pub fn check_acceptance(session: SessionId, submission: &AcceptanceSubmission) -> (r: Result<
    (),
    Error,
>)
    ensures
        admits_acceptance(session, *submission, r),
{
    if submission.result.session != session {
        return Err(Error::invalid("acceptance result belongs to another session"));
    }
    if byte_len(submission.reason.as_str()) > MAX_PERSISTED_VALUE_BYTES {
        return Err(Error::invalid("acceptance reason exceeds 1 MiB"));
    }
    if submission.decision != AcceptanceDecision::Accepted && blank(submission.reason.as_str()) {
        return Err(Error::invalid("this acceptance decision requires a reason"));
    }
    if submission.decision == AcceptanceDecision::Rejected {
        match &submission.rework {
            None => Err(Error::invalid("rejected acceptance requires a new rework input")),
            Some(input) => {
                if byte_len(input.text.as_str()) > MAX_PERSISTED_VALUE_BYTES
                    || input.reply_to.is_some() {
                    Err(
                        Error::invalid("rework must be a new standalone input of at most 1 MiB"),
                    )
                } else {
                    Ok(())
                }
            },
        }
    } else if submission.rework.is_some() {
        Err(Error::invalid("only a rejected result can include rework input"))
    } else {
        Ok(())
    }
}

} // verus!

//! What the application shows of agent records: public events, results and sources.

use vstd::prelude::*;

use super::{
    texts, StoredEvent, StoredEventView, StoredEvidenceSource, StoredResult, StoredResultView,
};
use crate::api::{
    CallRef, EvidenceRef, EvidenceSourceKind, JobRef, QuestionId, ResultRef, SessionEvent,
    SessionEventView, SessionSeq,
};
use crate::config::copy_strings;
use crate::ids::{RuntimeId, SessionId};
use crate::json::{pretty_json, pretty_json_of};
use crate::record::{copy_inputs, Record, RecordBody, RecordBodyView, RecordView};

verus! {

/// The event that a record is shown as. A question without inputs, and records of other kinds,
/// are not shown.
pub open spec fn public_event(runtime: RuntimeId, record: RecordView) -> Option<SessionEventView> {
    match record.body {
        RecordBodyView::Reply { job, inputs, text } => Some(
            SessionEventView::Reply { job: JobRef { runtime, id: job }, inputs, text },
        ),
        RecordBodyView::Clarification { inputs, question } => if inputs.len() == 0 {
            None
        } else {
            Some(
                SessionEventView::QuestionAsked {
                    question: QuestionId { runtime, record: record.seq, reply_to: inputs[0] },
                    inputs,
                    text: question,
                },
            )
        },
        RecordBodyView::InputRoutingFailed { inputs, message } => Some(
            SessionEventView::RoutingFailed { runtime, inputs, message },
        ),
        RecordBodyView::Outcome { job, kind, summary, remaining, .. } => Some(
            SessionEventView::JobFinished {
                job: JobRef { runtime, id: job },
                outcome: kind,
                summary,
                remaining,
            },
        ),
        RecordBodyView::InputFinished { input, outcome } => Some(
            SessionEventView::InputFinished { runtime, input, outcome },
        ),
        RecordBodyView::ToolFinished { job, call, tool, outcome } => Some(
            SessionEventView::ToolFinished {
                call: CallRef { runtime, id: call },
                job: JobRef { runtime, id: job },
                tool,
                outcome,
            },
        ),
        _ => None,
    }
}

/// The event that a record is shown as.
pub fn public_agent_event(runtime: RuntimeId, record: &Record) -> (r: Option<SessionEvent>)
    ensures
        match r {
            Some(event) => public_event(runtime, record@) == Some(event@),
            None => public_event(runtime, record@) is None,
        },
{
    match &record.body {
        RecordBody::Reply { job, inputs, text } => Some(
            SessionEvent::Reply {
                job: JobRef { runtime, id: *job },
                inputs: copy_inputs(inputs),
                text: text.clone(),
            },
        ),
        RecordBody::Clarification { inputs, question } => {
            if inputs.len() == 0 {
                None
            } else {
                Some(
                    SessionEvent::QuestionAsked {
                        question: QuestionId { runtime, record: record.seq, reply_to: inputs[0] },
                        inputs: copy_inputs(inputs),
                        text: question.clone(),
                    },
                )
            }
        },
        RecordBody::InputRoutingFailed { inputs, message } => Some(
            SessionEvent::RoutingFailed {
                runtime,
                inputs: copy_inputs(inputs),
                message: message.clone(),
            },
        ),
        RecordBody::Outcome { job, kind, summary, remaining, .. } => Some(
            SessionEvent::JobFinished {
                job: JobRef { runtime, id: *job },
                outcome: *kind,
                summary: summary.clone(),
                remaining: copy_strings(remaining),
            },
        ),
        RecordBody::InputFinished { input, outcome } => Some(
            SessionEvent::InputFinished { runtime, input: *input, outcome: *outcome },
        ),
        RecordBody::ToolFinished { job, call, tool, outcome } => Some(
            SessionEvent::ToolFinished {
                call: CallRef { runtime, id: *call },
                job: JobRef { runtime, id: *job },
                tool: tool.clone(),
                outcome: outcome.clone(),
            },
        ),
        _ => None,
    }
}

/// The event that a journal entry is shown as.
pub open spec fn shown(stored: StoredEventView) -> Option<SessionEventView> {
    match stored {
        StoredEventView::App(event) => Some(event),
        StoredEventView::Agent { runtime, record } => public_event(runtime, record),
    }
}

/// The event that a journal entry is shown as.
pub fn shown_event(stored: &StoredEvent) -> (r: Option<SessionEvent>)
    ensures
        match r {
            Some(event) => shown(stored@) == Some(event@),
            None => shown(stored@) is None,
        },
{
    match stored {
        StoredEvent::App(event) => Some(event.copy()),
        StoredEvent::Agent { runtime, record } => public_agent_event(*runtime, record),
    }
}

/// The sources that a journal entry cites.
pub open spec fn cited(session: SessionId, stored: StoredEventView) -> Seq<EvidenceRef> {
    match stored {
        StoredEventView::App(_) => Seq::empty(),
        StoredEventView::Agent { record, .. } => match record.body {
            RecordBodyView::Outcome { evidence, .. } => evidence.map_values(
                |record: u64| EvidenceRef { session, record },
            ),
            _ => Seq::empty(),
        },
    }
}

/// The result that a journal entry at the given position holds: that of a finished job.
pub open spec fn result_at(
    session: SessionId,
    version: SessionSeq,
    stored: StoredEventView,
) -> Option<StoredResultView> {
    match shown(stored) {
        Some(SessionEventView::JobFinished { job, outcome, summary, remaining }) => Some(
            StoredResultView {
                result: ResultRef { session, job, version },
                outcome,
                summary: summary@,
                remaining: texts(remaining),
                evidence: cited(session, stored),
            },
        ),
        _ => None,
    }
}

fn cite(session: SessionId, stored: &StoredEvent) -> (r: Vec<EvidenceRef>)
    ensures
        r@ == cited(session, stored@),
{
    let mut r: Vec<EvidenceRef> = Vec::new();
    match stored {
        StoredEvent::App(_) => {},
        StoredEvent::Agent { record, .. } => match &record.body {
            RecordBody::Outcome { evidence, .. } => {
                let mut i: usize = 0;
                while i < evidence.len()
                    invariant
                        i <= evidence@.len(),
                        r@.len() == i,
                        forall|j: int| #![trigger r@[j]]
                            0 <= j < i ==> r@[j] == (EvidenceRef { session, record: evidence@[j] }),
                    decreases evidence@.len() - i,
                {
                    r.push(EvidenceRef { session, record: evidence[i] });
                    i = i + 1;
                }
            },
            _ => {},
        },
    }
    proof {
        assert(r@ =~= cited(session, stored@));
    }
    r
}

/// The result that a journal entry at the given position holds.
pub fn result_summary(session: SessionId, version: SessionSeq, stored: &StoredEvent) -> (r: Option<
    StoredResult,
>)
    ensures
        match r {
            Some(result) => result_at(session, version, stored@) == Some(result@),
            None => result_at(session, version, stored@) is None,
        },
{
    match shown_event(stored) {
        Some(SessionEvent::JobFinished { job, outcome, summary, remaining }) => Some(
            StoredResult {
                result: ResultRef { session, job, version },
                outcome,
                summary,
                remaining,
                evidence: cite(session, stored),
            },
        ),
        _ => None,
    }
}

/// A source by its values.
pub ghost enum SourceView {
    Public { kind: EvidenceSourceKind, title: Seq<char>, body: Seq<char> },
    Private,
}

impl View for StoredEvidenceSource {
    type V = SourceView;

    open spec fn view(&self) -> SourceView {
        match self {
            StoredEvidenceSource::Public { kind, title, body } => SourceView::Public {
                kind: *kind,
                title: title@,
                body: body@,
            },
            StoredEvidenceSource::Private => SourceView::Private,
        }
    }
}

/// The source that a record is cited as: results of tools, published reports and replies by their
/// text, every other record by its existence alone.
pub open spec fn source_of(record: RecordView) -> SourceView {
    match record.body {
        RecordBodyView::ToolFinished { tool, outcome, .. } => SourceView::Public {
            kind: EvidenceSourceKind::ToolResult,
            title: tool@,
            body: match outcome.result {
                Ok(value) => match pretty_json_of(value@) {
                    Some(text) => text,
                    None => "null"@,
                },
                Err(error) => error@,
            },
        },
        RecordBodyView::Published { summary } => SourceView::Public {
            kind: EvidenceSourceKind::PublishedReport,
            title: "Published report"@,
            body: summary@,
        },
        RecordBodyView::Reply { text, .. } => SourceView::Public {
            kind: EvidenceSourceKind::Reply,
            title: "Reply"@,
            body: text@,
        },
        _ => SourceView::Private,
    }
}

/// The source that a record is cited as.
pub fn evidence_source_projection(record: &Record) -> (r: StoredEvidenceSource)
    ensures
        r@ == source_of(record@),
{
    match &record.body {
        RecordBody::ToolFinished { tool, outcome, .. } => {
            let body = match &outcome.result {
                Ok(value) => match pretty_json(value.as_str()) {
                    Some(text) => text,
                    None => "null".to_owned(),
                },
                Err(error) => error.clone(),
            };
            StoredEvidenceSource::Public {
                kind: EvidenceSourceKind::ToolResult,
                title: tool.clone(),
                body,
            }
        },
        RecordBody::Published { summary } => StoredEvidenceSource::Public {
            kind: EvidenceSourceKind::PublishedReport,
            title: "Published report".to_owned(),
            body: summary.clone(),
        },
        RecordBody::Reply { text, .. } => StoredEvidenceSource::Public {
            kind: EvidenceSourceKind::Reply,
            title: "Reply".to_owned(),
            body: text.clone(),
        },
        _ => StoredEvidenceSource::Private,
    }
}

/// Nothing of a private record reaches its source but that it exists: records of other kinds than
/// tool results, reports and replies all give the same source.
pub proof fn law_private_records_stay_private(record: RecordView)
    requires
        !(record.body is ToolFinished),
        !(record.body is Published),
        !(record.body is Reply),
    ensures
        source_of(record) == SourceView::Private,
{
}

} // verus!

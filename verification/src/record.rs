//! Records of the agent core, by what the application reads of them.

use vstd::prelude::*;

use crate::api::InputId;
use crate::config::copy_strings;

verus! {

/// How a job ended. Only completion has a meaning here; other kinds are carried by their number.
#[derive(Clone, Copy, Debug, PartialEq, Eq, Structural)]
pub enum OutcomeKind {
    Completed,
    Other(u32),
}

/// How an input ended. Only failure has a meaning here; other outcomes are carried by their number.
#[derive(Clone, Copy, Debug, PartialEq, Eq, Structural)]
pub enum InputOutcome {
    Failed,
    Other(u32),
}

/// Whether a write changed anything outside the agent.
#[derive(Clone, Copy, Debug, PartialEq, Eq, Structural)]
pub enum ExternalEffect {
    NotApplied,
    Applied,
    Unknown,
}

/// The outcome of a tool call: the JSON text of its result or the text of its error, and its
/// effect.
#[derive(Debug, PartialEq, Eq)]
pub struct ToolOutcome {
    pub result: Result<String, String>,
    pub external_effect: ExternalEffect,
}

impl Clone for ToolOutcome {
    fn clone(&self) -> (r: ToolOutcome)
        ensures
            r == *self,
    {
        let result = match &self.result {
            Ok(value) => Ok(value.clone()),
            Err(error) => Err(error.clone()),
        };
        ToolOutcome { result, external_effect: self.external_effect }
    }
}

/// The content of a record.
#[derive(Debug, PartialEq, Eq)]
pub enum RecordBody {
    Input { reply_to: Option<InputId>, expected_question: Option<u64> },
    RoutingStarted { inputs: Vec<InputId> },
    Clarification { inputs: Vec<InputId>, question: String },
    InputRoutingFailed { inputs: Vec<InputId>, message: String },
    InputFinished { input: InputId, outcome: InputOutcome },
    Reply { job: u64, inputs: Vec<InputId>, text: String },
    Outcome {
        job: u64,
        kind: OutcomeKind,
        summary: String,
        remaining: Vec<String>,
        evidence: Vec<u64>,
    },
    CallStarted { call: u64 },
    ToolFinished { job: u64, call: u64, tool: String, outcome: ToolOutcome },
    Published { summary: String },
    Report { summary: String },
    Audit { message: String },
}

/// The content of a record by its values.
pub ghost enum RecordBodyView {
    Input { reply_to: Option<InputId>, expected_question: Option<u64> },
    RoutingStarted { inputs: Seq<InputId> },
    Clarification { inputs: Seq<InputId>, question: String },
    InputRoutingFailed { inputs: Seq<InputId>, message: String },
    InputFinished { input: InputId, outcome: InputOutcome },
    Reply { job: u64, inputs: Seq<InputId>, text: String },
    Outcome {
        job: u64,
        kind: OutcomeKind,
        summary: String,
        remaining: Seq<String>,
        evidence: Seq<u64>,
    },
    CallStarted { call: u64 },
    ToolFinished { job: u64, call: u64, tool: String, outcome: ToolOutcome },
    Published { summary: String },
    Report { summary: String },
    Audit { message: String },
}

impl View for RecordBody {
    type V = RecordBodyView;

    open spec fn view(&self) -> RecordBodyView {
        match self {
            RecordBody::Input { reply_to, expected_question } => RecordBodyView::Input {
                reply_to: *reply_to,
                expected_question: *expected_question,
            },
            RecordBody::RoutingStarted { inputs } => RecordBodyView::RoutingStarted {
                inputs: inputs@,
            },
            RecordBody::Clarification { inputs, question } => RecordBodyView::Clarification {
                inputs: inputs@,
                question: *question,
            },
            RecordBody::InputRoutingFailed { inputs, message } =>
                RecordBodyView::InputRoutingFailed { inputs: inputs@, message: *message },
            RecordBody::InputFinished { input, outcome } => RecordBodyView::InputFinished {
                input: *input,
                outcome: *outcome,
            },
            RecordBody::Reply { job, inputs, text } => RecordBodyView::Reply {
                job: *job,
                inputs: inputs@,
                text: *text,
            },
            RecordBody::Outcome { job, kind, summary, remaining, evidence } =>
                RecordBodyView::Outcome {
                job: *job,
                kind: *kind,
                summary: *summary,
                remaining: remaining@,
                evidence: evidence@,
            },
            RecordBody::CallStarted { call } => RecordBodyView::CallStarted { call: *call },
            RecordBody::ToolFinished { job, call, tool, outcome } => RecordBodyView::ToolFinished {
                job: *job,
                call: *call,
                tool: *tool,
                outcome: *outcome,
            },
            RecordBody::Published { summary } => RecordBodyView::Published { summary: *summary },
            RecordBody::Report { summary } => RecordBodyView::Report { summary: *summary },
            RecordBody::Audit { message } => RecordBodyView::Audit { message: *message },
        }
    }
}

/// One record of the agent core.
#[derive(Debug, PartialEq, Eq)]
pub struct Record {
    pub seq: u64,
    pub body: RecordBody,
}

/// A record by its values.
pub ghost struct RecordView {
    pub seq: u64,
    pub body: RecordBodyView,
}

impl View for Record {
    type V = RecordView;

    open spec fn view(&self) -> RecordView {
        RecordView { seq: self.seq, body: self.body@ }
    }
}

/// Records by their values.
pub open spec fn record_views(records: Seq<Record>) -> Seq<RecordView> {
    records.map_values(|record: Record| record@)
}

/// A copy of some input numbers.
pub fn copy_inputs(inputs: &Vec<InputId>) -> (r: Vec<InputId>)
    ensures
        r@ == inputs@,
{
    let mut r: Vec<InputId> = Vec::new();
    let mut i: usize = 0;
    while i < inputs.len()
        invariant
            i <= inputs@.len(),
            r@ == inputs@.take(i as int),
        decreases inputs@.len() - i,
    {
        r.push(inputs[i]);
        proof {
            assert(r@ =~= inputs@.take(i + 1));
        }
        i = i + 1;
    }
    proof {
        assert(inputs@.take(i as int) =~= inputs@);
    }
    r
}

/// A copy of some numbers.
pub fn copy_numbers(numbers: &Vec<u64>) -> (r: Vec<u64>)
    ensures
        r@ == numbers@,
{
    let mut r: Vec<u64> = Vec::new();
    let mut i: usize = 0;
    while i < numbers.len()
        invariant
            i <= numbers@.len(),
            r@ == numbers@.take(i as int),
        decreases numbers@.len() - i,
    {
        r.push(numbers[i]);
        proof {
            assert(r@ =~= numbers@.take(i + 1));
        }
        i = i + 1;
    }
    proof {
        assert(numbers@.take(i as int) =~= numbers@);
    }
    r
}

impl Record {
    /// A copy of this record.
    pub fn copy(&self) -> (r: Record)
        ensures
            r@ == self@,
    {
        let body = match &self.body {
            RecordBody::Input { reply_to, expected_question } => RecordBody::Input {
                reply_to: *reply_to,
                expected_question: *expected_question,
            },
            RecordBody::RoutingStarted { inputs } => RecordBody::RoutingStarted {
                inputs: copy_inputs(inputs),
            },
            RecordBody::Clarification { inputs, question } => RecordBody::Clarification {
                inputs: copy_inputs(inputs),
                question: question.clone(),
            },
            RecordBody::InputRoutingFailed { inputs, message } => RecordBody::InputRoutingFailed {
                inputs: copy_inputs(inputs),
                message: message.clone(),
            },
            RecordBody::InputFinished { input, outcome } => RecordBody::InputFinished {
                input: *input,
                outcome: *outcome,
            },
            RecordBody::Reply { job, inputs, text } => RecordBody::Reply {
                job: *job,
                inputs: copy_inputs(inputs),
                text: text.clone(),
            },
            RecordBody::Outcome { job, kind, summary, remaining, evidence } =>
                RecordBody::Outcome {
                job: *job,
                kind: *kind,
                summary: summary.clone(),
                remaining: copy_strings(remaining),
                evidence: copy_numbers(evidence),
            },
            RecordBody::CallStarted { call } => RecordBody::CallStarted { call: *call },
            RecordBody::ToolFinished { job, call, tool, outcome } => RecordBody::ToolFinished {
                job: *job,
                call: *call,
                tool: tool.clone(),
                outcome: outcome.clone(),
            },
            RecordBody::Published { summary } => RecordBody::Published {
                summary: summary.clone(),
            },
            RecordBody::Report { summary } => RecordBody::Report { summary: summary.clone() },
            RecordBody::Audit { message } => RecordBody::Audit { message: message.clone() },
        };
        Record { seq: self.seq, body }
    }
}

} // verus!

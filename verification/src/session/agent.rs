//! What the agent core shows of its state, and how a session shows it to its users.

use vstd::prelude::*;

use crate::api::{
    ActivityKind, ActivityView, CallRef, CommandReceipt, InputId, InputState, InputView, JobOwner,
    JobRef, JobReport, JobState, JobView, WaitReason,
};
use crate::config::ConfigProblem;
use crate::error::Error;
use crate::ids::RuntimeId;
use crate::record::{
    copy_inputs, record_views, ExternalEffect, OutcomeKind, Record, RecordBody, RecordBodyView,
    RecordView, ToolOutcome,
};
use crate::seqs::{lemma_filter_none, lemma_filter_step, lemma_take_all};

verus! {

/// How far the agent is with an input. Only two stages have a meaning here.
#[derive(Clone, Copy, Debug, PartialEq, Eq, Structural)]
pub enum AgentInputStatus {
    Routing,
    Handled,
    Other,
}

/// An input as the agent shows it.
#[derive(Clone, Copy, Debug, PartialEq, Eq, Structural)]
pub struct AgentInput {
    pub id: InputId,
    pub status: AgentInputStatus,
}

/// Who asked the agent for a job.
#[derive(Clone, Copy, Debug, PartialEq, Eq, Structural)]
pub enum Owner {
    User,
    Job(u64),
    Routing,
}

/// What a job of the agent waits for.
#[derive(Debug, PartialEq, Eq)]
pub enum WaitView {
    Tool(u64),
    Until,
    Jobs(Vec<u64>),
    User,
    Job(u64),
    Result(u64),
    Inquiry,
    Coordination,
    Commit,
}

/// How far the agent is with a job.
#[derive(Debug, PartialEq, Eq)]
pub enum JobStatus {
    Ready,
    Running,
    Waiting(WaitView),
    Paused,
    Finished { kind: OutcomeKind, summary: String },
}

/// A job as the agent shows it. `report` is the position of its latest report.
#[derive(Debug, PartialEq, Eq)]
pub struct AgentJob {
    pub id: u64,
    pub owner: Owner,
    pub inputs: Vec<InputId>,
    pub goal: String,
    pub scope: String,
    pub done_when: String,
    pub status: JobStatus,
    pub report: Option<u64>,
}

/// What a call of the agent does.
#[derive(Clone, Copy, Debug, PartialEq, Eq, Structural)]
pub enum CallKind {
    Coordinate,
    Work,
    Compact,
    Tool,
}

/// Whether a call of the agent has ended, and what it changed outside.
#[derive(Clone, Copy, Debug, PartialEq, Eq, Structural)]
pub enum CallStatus {
    Active,
    Finished { external_effect: ExternalEffect },
}

/// A call as the agent shows it.
#[derive(Debug, PartialEq, Eq)]
pub struct AgentCall {
    pub id: u64,
    pub job: Option<u64>,
    pub kind: CallKind,
    pub tool: Option<String>,
    pub status: CallStatus,
    pub progress: Option<String>,
}

/// The state of the agent core at one moment.
#[derive(Debug, PartialEq, Eq)]
pub struct AgentView {
    pub inputs: Vec<AgentInput>,
    pub jobs: Vec<AgentJob>,
    pub calls: Vec<AgentCall>,
    pub records: Vec<Record>,
}

/// Whether a control of the agent changed anything.
#[derive(Clone, Copy, Debug, PartialEq, Eq, Structural)]
pub enum ControlOutcome {
    Applied,
    Unchanged,
}

/// Why the agent refused or failed.
#[derive(Debug, PartialEq, Eq)]
pub enum AgentError {
    /// It takes no input for the moment.
    Busy(String),
    /// It does not take this input.
    Admission(String),
    InvalidConfiguration(String),
    Other(String),
}

impl AgentError {
    /// The message of this error.
    pub open spec fn text(self) -> Seq<char> {
        match self {
            AgentError::Busy(message) => message@,
            AgentError::Admission(message) => message@,
            AgentError::InvalidConfiguration(message) => message@,
            AgentError::Other(message) => message@,
        }
    }

    /// The message of this error.
    pub fn message(&self) -> (r: String)
        ensures
            r@ == self.text(),
    {
        match self {
            AgentError::Busy(message) => message.clone(),
            AgentError::Admission(message) => message.clone(),
            AgentError::InvalidConfiguration(message) => message.clone(),
            AgentError::Other(message) => message.clone(),
        }
    }
}

/// An error of the agent as one of the application.
pub fn agent_error(error: &AgentError) -> (r: Error)
    ensures
        r.is_agent(error.text()),
{
    Error::Agent(error.message())
}

/// An error of the agent while it takes a configuration: an invalid one is a configuration problem.
pub fn reconfigure_error(error: AgentError) -> (r: Error)
    ensures
        match error {
            AgentError::InvalidConfiguration(message) => r == Error::Configuration(
                ConfigProblem::Invalid(message),
            ),
            _ => r.is_agent(error.text()),
        },
{
    match error {
        AgentError::InvalidConfiguration(message) => Error::Configuration(
            ConfigProblem::Invalid(message),
        ),
        AgentError::Busy(message) => agent_error(&AgentError::Busy(message)),
        AgentError::Admission(message) => agent_error(&AgentError::Admission(message)),
        AgentError::Other(message) => agent_error(&AgentError::Other(message)),
    }
}

/// What a control of the agent comes to for the user.
pub open spec fn receipt_of(outcome: ControlOutcome) -> CommandReceipt {
    match outcome {
        ControlOutcome::Applied => CommandReceipt::Applied,
        ControlOutcome::Unchanged => CommandReceipt::Unchanged,
    }
}

/// What a control of the agent comes to for the user.
pub fn receipt(outcome: ControlOutcome) -> (r: CommandReceipt)
    ensures
        r == receipt_of(outcome),
{
    match outcome {
        ControlOutcome::Applied => CommandReceipt::Applied,
        ControlOutcome::Unchanged => CommandReceipt::Unchanged,
    }
}

/// The outcome that the agent is told of a write that the user settled.
pub fn host_resolution_outcome(external_effect: ExternalEffect) -> (r: ToolOutcome)
    ensures
        settled_by_host(r, external_effect),
{
    ToolOutcome {
        result: Err(
            "write effect resolved by host; original tool result unavailable".to_owned(),
        ),
        external_effect,
    }
}

/// Whether an outcome is the one that the agent is told of a write that the user settled.
pub open spec fn settled_by_host(outcome: ToolOutcome, external_effect: ExternalEffect) -> bool {
    &&& outcome.external_effect == external_effect
    &&& outcome.result matches Err(message)
    &&& message@ == "write effect resolved by host; original tool result unavailable"@
}

/// The write that a record ends, with the job that it belongs to.
pub open spec fn ended_write(runtime: RuntimeId, record: RecordView) -> Option<(CallRef, JobRef)> {
    match record.body {
        RecordBodyView::ToolFinished { call, job, .. } => Some(
            (CallRef { runtime, id: call }, JobRef { runtime, id: job }),
        ),
        _ => None,
    }
}

/// The write that a record ends, with the job that it belongs to.
pub fn write_job(runtime: RuntimeId, record: &Record) -> (r: Option<(CallRef, JobRef)>)
    ensures
        r == ended_write(runtime, record@),
{
    match &record.body {
        RecordBody::ToolFinished { call, job, .. } => Some(
            (CallRef { runtime, id: *call }, JobRef { runtime, id: *job }),
        ),
        _ => None,
    }
}

/// Whether a shown reason is the one that a job waits for.
pub open spec fn shows_wait(runtime: RuntimeId, wait: WaitView, shown: WaitReason) -> bool {
    match wait {
        WaitView::Tool(call) => shown == WaitReason::Tool(CallRef { runtime, id: call }),
        WaitView::Until => shown == WaitReason::Timer,
        WaitView::Jobs(jobs) => shown matches WaitReason::Jobs(refs) && refs@ == jobs@.map_values(
            |job: u64| JobRef { runtime, id: job },
        ),
        WaitView::User => shown == WaitReason::User,
        WaitView::Job(job) => shown == WaitReason::Job(JobRef { runtime, id: job }),
        WaitView::Result(job) => shown == WaitReason::Result(JobRef { runtime, id: job }),
        WaitView::Inquiry => shown == WaitReason::Inquiry,
        WaitView::Coordination => shown == WaitReason::Coordination,
        WaitView::Commit => shown == WaitReason::Commit,
    }
}

/// What a job waits for, as it is shown.
pub fn wait_reason(runtime: RuntimeId, wait: &WaitView) -> (r: WaitReason)
    ensures
        shows_wait(runtime, *wait, r),
{
    match wait {
        WaitView::Tool(call) => WaitReason::Tool(CallRef { runtime, id: *call }),
        WaitView::Until => WaitReason::Timer,
        WaitView::Jobs(jobs) => {
            let mut refs: Vec<JobRef> = Vec::new();
            let mut i: usize = 0;
            while i < jobs.len()
                invariant
                    i <= jobs@.len(),
                    refs@.len() == i,
                    forall|j: int| #![trigger refs@[j]]
                        0 <= j < i ==> refs@[j] == (JobRef { runtime, id: jobs@[j] }),
                decreases jobs@.len() - i,
            {
                refs.push(JobRef { runtime, id: jobs[i] });
                i = i + 1;
            }
            proof {
                assert(refs@ =~= jobs@.map_values(|job: u64| JobRef { runtime, id: job }));
            }
            WaitReason::Jobs(refs)
        },
        WaitView::User => WaitReason::User,
        WaitView::Job(job) => WaitReason::Job(JobRef { runtime, id: *job }),
        WaitView::Result(job) => WaitReason::Result(JobRef { runtime, id: *job }),
        WaitView::Inquiry => WaitReason::Inquiry,
        WaitView::Coordination => WaitReason::Coordination,
        WaitView::Commit => WaitReason::Commit,
    }
}

/// Whether the first record at a position of the agent's log stands at `index`.
pub open spec fn record_at(records: Seq<RecordView>, seq: u64, index: int) -> bool {
    &&& 0 <= index < records.len()
    &&& records[index].seq == seq
    &&& forall|i: int| 0 <= i < index ==> (#[trigger] records[i]).seq != seq
}

/// The summary of the report at a position of the agent's log, if there is one.
pub open spec fn reported(records: Seq<RecordView>, seq: u64) -> Option<String> {
    if exists|i: int| record_at(records, seq, i) {
        match records[choose|i: int| record_at(records, seq, i)].body {
            RecordBodyView::Report { summary } => Some(summary),
            _ => None,
        }
    } else {
        None
    }
}

fn find_report(records: &Vec<Record>, seq: u64) -> (r: Option<JobReport>)
    ensures
        match reported(record_views(records@), seq) {
            Some(summary) => r matches Some(report) && report.summary == summary,
            None => r is None,
        },
{
    let ghost views = record_views(records@);
    let mut i: usize = 0;
    while i < records.len()
        invariant
            i <= records@.len(),
            views == record_views(records@),
            forall|j: int| 0 <= j < i ==> (#[trigger] views[j]).seq != seq,
        decreases records@.len() - i,
    {
        assert(views[i as int] == records@[i as int]@);
        if records[i].seq == seq {
            proof {
                assert(record_at(views, seq, i as int));
                let k = choose|k: int| record_at(views, seq, k);
                if k < i {
                    assert(views[k].seq != seq);
                } else if i < k {
                    assert(views[i as int].seq != seq);
                }
            }
            return match &records[i].body {
                RecordBody::Report { summary } => Some(JobReport { summary: summary.clone() }),
                _ => None,
            };
        }
        i = i + 1;
    }
    proof {
        if exists|k: int| record_at(views, seq, k) {
            let k = choose|k: int| record_at(views, seq, k);
            assert(views[k].seq != seq);
        }
    }
    None
}

/// Whether a shown state is the one that a job of the agent is in.
pub open spec fn shows_status(runtime: RuntimeId, status: JobStatus, shown: JobState) -> bool {
    match status {
        JobStatus::Ready => shown == JobState::Ready,
        JobStatus::Running => shown == JobState::Running,
        JobStatus::Waiting(wait) => shown matches JobState::Waiting(reason) && shows_wait(
            runtime,
            wait,
            reason,
        ),
        JobStatus::Paused => shown == JobState::Paused,
        JobStatus::Finished { kind, summary } => shown == (JobState::Finished {
            outcome: kind,
            summary,
        }),
    }
}

/// Who asked for a job, as it is shown.
pub open spec fn owner_of(runtime: RuntimeId, owner: Owner) -> JobOwner {
    match owner {
        Owner::User => JobOwner::User,
        Owner::Job(job) => JobOwner::Job(JobRef { runtime, id: job }),
        Owner::Routing => JobOwner::Routing,
    }
}

/// Whether a shown job is the one of the agent, in every part.
pub open spec fn shows_job(
    runtime: RuntimeId,
    records: Seq<RecordView>,
    job: AgentJob,
    shown: JobView,
) -> bool {
    &&& shown.id == (JobRef { runtime, id: job.id })
    &&& shown.owner == owner_of(runtime, job.owner)
    &&& shown.inputs@ == job.inputs@
    &&& shown.goal == job.goal
    &&& shown.scope == job.scope
    &&& shown.done_when == job.done_when
    &&& shows_status(runtime, job.status, shown.state)
    &&& match job.report {
        Some(seq) => match reported(records, seq) {
            Some(summary) => shown.report matches Some(report) && report.summary == summary,
            None => shown.report is None,
        },
        None => shown.report is None,
    }
}

/// Whether a call has not ended.
pub open spec fn is_active() -> spec_fn(AgentCall) -> bool {
    |call: AgentCall| call.status is Active
}

/// Whether a shown call is the one of the agent, in every part.
pub open spec fn shows_call(runtime: RuntimeId, call: AgentCall, shown: ActivityView) -> bool {
    &&& shown.call == (CallRef { runtime, id: call.id })
    &&& shown.job == (match call.job {
        Some(job) => Some(JobRef { runtime, id: job }),
        None => None,
    })
    &&& match call.kind {
        CallKind::Coordinate => shown.kind is Coordinate,
        CallKind::Work => shown.kind is Work,
        CallKind::Compact => shown.kind is Compact,
        CallKind::Tool => shown.kind matches ActivityKind::Tool { name } && name@ == (
        match call.tool {
            Some(tool) => tool@,
            None => "tool"@,
        }),
    }
    &&& shown.progress == call.progress
}

fn project_job(runtime: RuntimeId, job: &AgentJob, records: &Vec<Record>) -> (r: JobView)
    ensures
        shows_job(runtime, record_views(records@), *job, r),
{
    JobView {
        id: JobRef { runtime, id: job.id },
        owner: match job.owner {
            Owner::User => JobOwner::User,
            Owner::Job(owner) => JobOwner::Job(JobRef { runtime, id: owner }),
            Owner::Routing => JobOwner::Routing,
        },
        inputs: copy_inputs(&job.inputs),
        goal: job.goal.clone(),
        scope: job.scope.clone(),
        done_when: job.done_when.clone(),
        state: match &job.status {
            JobStatus::Ready => JobState::Ready,
            JobStatus::Running => JobState::Running,
            JobStatus::Waiting(wait) => JobState::Waiting(wait_reason(runtime, wait)),
            JobStatus::Paused => JobState::Paused,
            JobStatus::Finished { kind, summary } => JobState::Finished {
                outcome: *kind,
                summary: summary.clone(),
            },
        },
        report: match job.report {
            Some(seq) => find_report(records, seq),
            None => None,
        },
    }
}

fn project_call(runtime: RuntimeId, call: &AgentCall) -> (r: ActivityView)
    ensures
        shows_call(runtime, *call, r),
{
    ActivityView {
        call: CallRef { runtime, id: call.id },
        job: match call.job {
            Some(job) => Some(JobRef { runtime, id: job }),
            None => None,
        },
        kind: match call.kind {
            CallKind::Coordinate => ActivityKind::Coordinate,
            CallKind::Work => ActivityKind::Work,
            CallKind::Compact => ActivityKind::Compact,
            CallKind::Tool => ActivityKind::Tool {
                name: match &call.tool {
                    Some(tool) => tool.clone(),
                    None => "tool".to_owned(),
                },
            },
        },
        progress: call.progress.clone(),
    }
}

/// Whether shown jobs and calls are those of the agent: every job, and the calls that have not
/// ended, in the agent's order.
pub open spec fn shows_agent(
    runtime: RuntimeId,
    view: AgentView,
    jobs: Seq<JobView>,
    activity: Seq<ActivityView>,
) -> bool {
    let active = view.calls@.filter(is_active());
    &&& jobs.len() == view.jobs@.len()
    &&& forall|i: int| #![trigger jobs[i]]
        0 <= i < jobs.len() ==> shows_job(
            runtime,
            record_views(view.records@),
            view.jobs@[i],
            jobs[i],
        )
    &&& activity.len() == active.len()
    &&& forall|i: int| #![trigger activity[i]]
        0 <= i < activity.len() ==> shows_call(runtime, active[i], activity[i])
}

/// The jobs and the running calls of the agent, as they are shown.
pub fn project_runtime(runtime: RuntimeId, view: &AgentView) -> (r: (Vec<JobView>, Vec<ActivityView>))
    ensures
        shows_agent(runtime, *view, r.0@, r.1@),
{
    let mut jobs: Vec<JobView> = Vec::new();
    let mut i: usize = 0;
    while i < view.jobs.len()
        invariant
            i <= view.jobs@.len(),
            jobs@.len() == i,
            forall|j: int| #![trigger jobs@[j]]
                0 <= j < i ==> shows_job(
                    runtime,
                    record_views(view.records@),
                    view.jobs@[j],
                    jobs@[j],
                ),
        decreases view.jobs@.len() - i,
    {
        jobs.push(project_job(runtime, &view.jobs[i], &view.records));
        i = i + 1;
    }
    let mut activity: Vec<ActivityView> = Vec::new();
    let mut k: usize = 0;
    proof {
        lemma_filter_none(view.calls@, is_active());
    }
    while k < view.calls.len()
        invariant
            k <= view.calls@.len(),
            activity@.len() == view.calls@.take(k as int).filter(is_active()).len(),
            forall|j: int| #![trigger activity@[j]]
                0 <= j < activity@.len() ==> shows_call(
                    runtime,
                    view.calls@.take(k as int).filter(is_active())[j],
                    activity@[j],
                ),
        decreases view.calls@.len() - k,
    {
        proof {
            lemma_filter_step(view.calls@, k as int, is_active());
        }
        match view.calls[k].status {
            CallStatus::Active => {
                activity.push(project_call(runtime, &view.calls[k]));
            },
            CallStatus::Finished { .. } => {},
        }
        k = k + 1;
    }
    proof {
        lemma_take_all(view.calls@);
    }
    (jobs, activity)
}

/// Whether the agent has a job or a call that has not ended.
pub open spec fn has_active_work(view: AgentView) -> bool {
    ||| exists|i: int| 0 <= i < view.jobs@.len() && !((#[trigger] view.jobs@[i]).status is Finished)
    ||| exists|i: int| 0 <= i < view.calls@.len() && (#[trigger] view.calls@[i]).status is Active
}

/// Whether the agent has a job or a call that has not ended.
pub fn active_work(view: &AgentView) -> (r: bool)
    ensures
        r == has_active_work(*view),
{
    let mut i: usize = 0;
    while i < view.jobs.len()
        invariant
            i <= view.jobs@.len(),
            forall|j: int| 0 <= j < i ==> (#[trigger] view.jobs@[j]).status is Finished,
        decreases view.jobs@.len() - i,
    {
        let ended = match &view.jobs[i].status {
            JobStatus::Finished { .. } => true,
            _ => false,
        };
        if !ended {
            assert(!(view.jobs@[i as int].status is Finished));
            return true;
        }
        i = i + 1;
    }
    let mut k: usize = 0;
    while k < view.calls.len()
        invariant
            k <= view.calls@.len(),
            forall|j: int| 0 <= j < k ==> !((#[trigger] view.calls@[j]).status is Active),
        decreases view.calls@.len() - k,
    {
        match view.calls[k].status {
            CallStatus::Active => {
                assert(view.calls@[k as int].status is Active);
                return true;
            },
            CallStatus::Finished { .. } => {},
        }
        k = k + 1;
    }
    false
}

/// Whether a call has ended without anybody knowing what it changed.
pub open spec fn is_uncertain(call: AgentCall) -> bool {
    call.status == (CallStatus::Finished { external_effect: ExternalEffect::Unknown })
}

/// Whether a call has ended without anybody knowing what it changed.
pub fn uncertain(call: &AgentCall) -> (r: bool)
    ensures
        r == is_uncertain(*call),
{
    match call.status {
        CallStatus::Finished { external_effect } => external_effect == ExternalEffect::Unknown,
        CallStatus::Active => false,
    }
}

/// Whether the agent shows a call as ended without anybody knowing what it changed.
pub open spec fn awaits_settlement(view: AgentView, call: u64) -> bool {
    exists|i: int|
        0 <= i < view.calls@.len() && (#[trigger] view.calls@[i]).id == call && is_uncertain(
            view.calls@[i],
        )
}

/// Whether the agent shows a call as ended without anybody knowing what it changed.
pub fn needs_settlement(view: &AgentView, call: u64) -> (r: bool)
    ensures
        r == awaits_settlement(*view, call),
{
    let mut i: usize = 0;
    while i < view.calls.len()
        invariant
            i <= view.calls@.len(),
            forall|j: int|
                0 <= j < i ==> !((#[trigger] view.calls@[j]).id == call && is_uncertain(
                    view.calls@[j],
                )),
        decreases view.calls@.len() - i,
    {
        if view.calls[i].id == call && uncertain(&view.calls[i]) {
            assert(view.calls@[i as int].id == call);
            return true;
        }
        i = i + 1;
    }
    false
}

/// Whether an input failed to be routed by a runtime.
pub open spec fn failed_in(input: InputView, runtime: RuntimeId) -> bool {
    input.state matches InputState::RoutingFailed { runtime: owner, .. } && owner == runtime
}

/// Whether an input failed to be routed by a runtime.
pub fn has_failed_in(input: &InputView, runtime: RuntimeId) -> (r: bool)
    ensures
        r == failed_in(*input, runtime),
{
    match &input.state {
        InputState::RoutingFailed { runtime: owner, .. } => *owner == runtime,
        _ => false,
    }
}

/// Whether the agent has taken an input up.
pub open spec fn taken_up(input: AgentInput) -> bool {
    input.status == AgentInputStatus::Routing || input.status == AgentInputStatus::Handled
}

} // verus!

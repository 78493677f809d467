//! How agent records change the states of inputs.

use vstd::prelude::*;

use crate::api::{InputId, InputState, InputView, QuestionId};
use crate::ids::RuntimeId;
use crate::record::{Record, RecordBody, RecordBodyView, RecordView};
use crate::seqs::{lemma_filter_none, lemma_filter_step, lemma_take_all};

verus! {

/// Whether an input waits for the answer to a question of a runtime.
pub open spec fn awaits(input: InputView, runtime: RuntimeId, record: u64) -> bool {
    match input.state {
        InputState::WaitingForUser { runtime: owner, question, .. } => owner == runtime
            && question.record == record,
        _ => false,
    }
}

/// Whether the first input with the given number is at `index`.
pub open spec fn input_at(inputs: Seq<InputView>, id: InputId, index: int) -> bool {
    &&& 0 <= index < inputs.len()
    &&& inputs[index].id == id
    &&& forall|i: int| 0 <= i < index ==> (#[trigger] inputs[i]).id != id
}

/// Whether the input with the given number waits for the answer to a question of a runtime.
pub open spec fn asked(inputs: Seq<InputView>, id: InputId, runtime: RuntimeId, record: u64) -> bool {
    exists|i: int| #[trigger] input_at(inputs, id, i) && awaits(inputs[i], runtime, record)
}

/// The changes that a record makes to inputs: an answer releases all inputs that wait for it,
/// routing accepts, a question makes wait, a routing failure and an end are noted.
pub open spec fn changes_of(runtime: RuntimeId, record: RecordView, inputs: Seq<InputView>) -> Seq<
    (InputId, InputState),
> {
    match record.body {
        RecordBodyView::Input { reply_to, expected_question } => {
            if reply_to is Some && expected_question is Some && asked(
                inputs,
                reply_to->0,
                runtime,
                expected_question->0,
            ) {
                inputs.filter(|input: InputView| awaits(input, runtime, expected_question->0))
                    .map_values(
                    |input: InputView| (input.id, InputState::Accepted { runtime }),
                )
            } else {
                Seq::empty()
            }
        },
        RecordBodyView::RoutingStarted { inputs: routed } => routed.map_values(
            |id: InputId| (id, InputState::Accepted { runtime }),
        ),
        RecordBodyView::Clarification { inputs: unclear, question } => unclear.map_values(
            |id: InputId|
                (
                    id,
                    InputState::WaitingForUser {
                        runtime,
                        question: QuestionId { runtime, record: record.seq, reply_to: id },
                        text: question,
                    },
                ),
        ),
        RecordBodyView::InputRoutingFailed { inputs: failed, message } => failed.map_values(
            |id: InputId| (id, InputState::RoutingFailed { runtime, message }),
        ),
        RecordBodyView::InputFinished { input, outcome } => seq![
            (input, InputState::Finished { runtime, outcome }),
        ],
        _ => Seq::empty(),
    }
}

fn waits_for(input: &InputView, runtime: RuntimeId, record: u64) -> (r: bool)
    ensures
        r == awaits(*input, runtime, record),
{
    match &input.state {
        InputState::WaitingForUser { runtime: owner, question, .. } => *owner == runtime
            && question.record == record,
        _ => false,
    }
}

fn is_asked(inputs: &Vec<InputView>, id: InputId, runtime: RuntimeId, record: u64) -> (r: bool)
    ensures
        r == asked(inputs@, id, runtime, record),
{
    let mut i: usize = 0;
    while i < inputs.len()
        invariant
            i <= inputs@.len(),
            forall|j: int| 0 <= j < i ==> (#[trigger] inputs@[j]).id != id,
        decreases inputs@.len() - i,
    {
        if inputs[i].id == id {
            proof {
                assert(input_at(inputs@, id, i as int));
                if asked(inputs@, id, runtime, record) {
                    let k = choose|k: int| #[trigger]
                        input_at(inputs@, id, k) && awaits(inputs@[k], runtime, record);
                    if k < i {
                        assert(inputs@[k].id != id);
                    } else if i < k {
                        assert(inputs@[i as int].id != id);
                    }
                }
            }
            return waits_for(&inputs[i], runtime, record);
        }
        i = i + 1;
    }
    proof {
        if asked(inputs@, id, runtime, record) {
            let k = choose|k: int| #[trigger]
                input_at(inputs@, id, k) && awaits(inputs@[k], runtime, record);
            assert(inputs@[k].id != id);
        }
    }
    false
}

fn to_state(ids: &Vec<InputId>, state: &InputState) -> (r: Vec<(InputId, InputState)>)
    ensures
        r@ == ids@.map_values(|id: InputId| (id, *state)),
{
    let mut r: Vec<(InputId, InputState)> = Vec::new();
    let mut i: usize = 0;
    while i < ids.len()
        invariant
            i <= ids@.len(),
            r@.len() == i,
            forall|j: int| #![trigger r@[j]] 0 <= j < i ==> r@[j] == (ids@[j], *state),
        decreases ids@.len() - i,
    {
        r.push((ids[i], state.clone()));
        i = i + 1;
    }
    proof {
        assert(r@ =~= ids@.map_values(|id: InputId| (id, *state)));
    }
    r
}

/// The changes that a record makes to inputs.
pub fn input_changes(runtime: RuntimeId, record: &Record, inputs: &Vec<InputView>) -> (r: Vec<
    (InputId, InputState),
>)
    ensures
        r@ == changes_of(runtime, record@, inputs@),
{
    match &record.body {
        RecordBody::Input { reply_to, expected_question } => {
            let mut r: Vec<(InputId, InputState)> = Vec::new();
            match (*reply_to, *expected_question) {
                (Some(id), Some(expected)) => {
                    if is_asked(inputs, id, runtime, expected) {
                        let ghost wanted = |input: InputView| awaits(input, runtime, expected);
                        let ghost change = |input: InputView|
                            (input.id, InputState::Accepted { runtime });
                        proof {
                            lemma_filter_none(inputs@, wanted);
                            assert(r@ =~= inputs@.take(0).filter(wanted).map_values(change));
                        }
                        let mut i: usize = 0;
                        while i < inputs.len()
                            invariant
                                i <= inputs@.len(),
                                wanted == (|input: InputView| awaits(input, runtime, expected)),
                                change == (|input: InputView|
                                    (input.id, InputState::Accepted { runtime })),
                                r@ == inputs@.take(i as int).filter(wanted).map_values(change),
                            decreases inputs@.len() - i,
                        {
                            proof {
                                lemma_filter_step(inputs@, i as int, wanted);
                            }
                            if waits_for(&inputs[i], runtime, expected) {
                                r.push((inputs[i].id, InputState::Accepted { runtime }));
                            }
                            proof {
                                assert(r@ =~= inputs@.take(i + 1).filter(wanted).map_values(change));
                            }
                            i = i + 1;
                        }
                        proof {
                            lemma_take_all(inputs@);
                        }
                    }
                },
                _ => {},
            }
            r
        },
        RecordBody::RoutingStarted { inputs: routed } => to_state(
            routed,
            &InputState::Accepted { runtime },
        ),
        RecordBody::Clarification { inputs: unclear, question } => {
            let mut r: Vec<(InputId, InputState)> = Vec::new();
            let mut i: usize = 0;
            while i < unclear.len()
                invariant
                    i <= unclear@.len(),
                    r@.len() == i,
                    forall|j: int| #![trigger r@[j]]
                        0 <= j < i ==> r@[j] == (
                            unclear@[j],
                            InputState::WaitingForUser {
                                runtime,
                                question: QuestionId {
                                    runtime,
                                    record: record.seq,
                                    reply_to: unclear@[j],
                                },
                                text: *question,
                            },
                        ),
                decreases unclear@.len() - i,
            {
                let id = unclear[i];
                r.push(
                    (
                        id,
                        InputState::WaitingForUser {
                            runtime,
                            question: QuestionId { runtime, record: record.seq, reply_to: id },
                            text: question.clone(),
                        },
                    ),
                );
                i = i + 1;
            }
            proof {
                assert(r@ =~= changes_of(runtime, record@, inputs@));
            }
            r
        },
        RecordBody::InputRoutingFailed { inputs: failed, message } => {
            let r = to_state(
                failed,
                &InputState::RoutingFailed { runtime, message: message.clone() },
            );
            proof {
                assert(r@ =~= changes_of(runtime, record@, inputs@));
            }
            r
        },
        RecordBody::InputFinished { input, outcome } => {
            let mut r: Vec<(InputId, InputState)> = Vec::new();
            r.push((*input, InputState::Finished { runtime, outcome: *outcome }));
            proof {
                assert(r@ =~= changes_of(runtime, record@, inputs@));
            }
            r
        },
        _ => {
            let r: Vec<(InputId, InputState)> = Vec::new();
            r
        },
    }
}

/// The inputs after one change: the first with the changed number is in the new state.
pub open spec fn changed_one(inputs: Seq<InputView>, change: (InputId, InputState)) -> Seq<InputView> {
    Seq::new(
        inputs.len(),
        |i: int|
            if input_at(inputs, change.0, i) {
                InputView { state: change.1, ..inputs[i] }
            } else {
                inputs[i]
            },
    )
}

/// The inputs after changes, one after the other.
pub open spec fn changed(inputs: Seq<InputView>, changes: Seq<(InputId, InputState)>) -> Seq<
    InputView,
>
    decreases changes.len(),
{
    if changes.len() == 0 {
        inputs
    } else {
        changed_one(changed(inputs, changes.drop_last()), changes.last())
    }
}

fn change_one(inputs: &mut Vec<InputView>, id: InputId, state: &InputState)
    ensures
        final(inputs)@ == changed_one(old(inputs)@, (id, *state)),
{
    let ghost start = inputs@;
    let mut i: usize = 0;
    while i < inputs.len()
        invariant
            i <= inputs@.len(),
            start == old(inputs)@,
            inputs@ == start,
            forall|j: int| 0 <= j < i ==> (#[trigger] start[j]).id != id,
        decreases inputs@.len() - i,
    {
        if inputs[i].id == id {
            let input = InputView {
                id: inputs[i].id,
                request_id: inputs[i].request_id,
                text: inputs[i].text.clone(),
                reply_to: inputs[i].reply_to,
                state: state.clone(),
            };
            inputs.set(i, input);
            proof {
                assert(input_at(start, id, i as int));
                assert forall|j: int| 0 <= j < start.len() && j != i implies !input_at(
                    start,
                    id,
                    j,
                ) by {
                    if j > i {
                        assert(start[i as int].id == id);
                    }
                }
                assert(inputs@ =~= changed_one(start, (id, *state)));
            }
            return ;
        }
        i = i + 1;
    }
    proof {
        assert(inputs@ =~= changed_one(start, (id, *state)));
    }
}

/// Changes the states of inputs, one change after the other.
pub fn apply_to(inputs: &mut Vec<InputView>, changes: &Vec<(InputId, InputState)>)
    ensures
        final(inputs)@ == changed(old(inputs)@, changes@),
{
    let ghost start = inputs@;
    let mut i: usize = 0;
    proof {
        assert(changes@.take(0) =~= Seq::<(InputId, InputState)>::empty());
    }
    while i < changes.len()
        invariant
            i <= changes@.len(),
            inputs@ == changed(start, changes@.take(i as int)),
        decreases changes@.len() - i,
    {
        proof {
            assert(changes@.take(i + 1).drop_last() =~= changes@.take(i as int));
            assert(changes@.take(i + 1).last() == changes@[i as int]);
        }
        change_one(inputs, changes[i].0, &changes[i].1);
        i = i + 1;
    }
    proof {
        lemma_take_all(changes@);
    }
}

/// An answer from another runtime, or to another question than the one that is open, changes
/// nothing.
pub proof fn law_stale_answer_changes_nothing(
    runtime: RuntimeId,
    record: RecordView,
    inputs: Seq<InputView>,
)
    requires
        record.body matches RecordBodyView::Input { reply_to, expected_question } ==> reply_to
            is None || expected_question is None || !asked(
            inputs,
            reply_to->0,
            runtime,
            expected_question->0,
        ),
        record.body is Input,
    ensures
        changes_of(runtime, record, inputs) == Seq::<(InputId, InputState)>::empty(),
{
}

} // verus!

//! The overview of a workspace: its sessions, and what in them needs the user.

use vstd::prelude::*;

use super::keys::make_session_key;
use super::{AttentionProjectionState, DataStore, StoreView, WaitingRecord};
use crate::api::{
    AttentionItem, CallRef, InputId, QuestionId, SessionSeq, SessionSummary, UnresolvedWriteView,
    WorkspaceInfo, WorkspaceOverview,
};
use crate::document::{last_of, listing, DocumentKey, KeyRange};
use crate::error::StoreError;
use crate::ids::{RuntimeId, SessionId, WorkspaceId};
use super::writes::{call_of, insert_by_call};
use crate::seqs::{
    lemma_filter_keeps, lemma_filter_step, lemma_slot, lemma_slot_bounds, slot, sorted_by,
};
use crate::text::{byte_count, byte_len};

verus! {

/// How many documents of each kind one step of the collection of attention items reads.
pub const ATTENTION_WINDOW: usize = 128;

/// Where the collection of attention items starts.
pub open spec fn first_attention_state() -> AttentionProjectionState {
    AttentionProjectionState {
        input_before: None,
        inputs_complete: false,
        write_before: None,
        writes_complete: false,
    }
}

/// The keys that the next step of a collection reads, with whether there are earlier ones.
pub open spec fn window(all: Set<DocumentKey>, before: Option<DocumentKey>) -> (
    Seq<DocumentKey>,
    bool,
) {
    let keys = listing(all, KeyRange { owner: None, item: None, before });
    (last_of(keys, ATTENTION_WINDOW as nat), keys.len() > ATTENTION_WINDOW)
}

/// Where a collection goes on behind a window.
pub open spec fn first_key(keys: Seq<DocumentKey>) -> Option<DocumentKey> {
    if keys.len() == 0 {
        None
    } else {
        Some(keys[0])
    }
}

impl StoreView {
    /// The session that an input's key names.
    pub open spec fn input_session(self, key: DocumentKey) -> SessionId {
        SessionId(key.owner)
    }

    /// Whether the session of every one of these inputs exists.
    pub open spec fn input_sessions_exist(self, keys: Seq<DocumentKey>) -> bool {
        forall|i: int| #![trigger keys[i]]
            0 <= i < keys.len() ==> self.has_session(self.input_session(keys[i]))
    }

    /// Whether the session of every one of these writes exists.
    pub open spec fn write_sessions_exist(self, keys: Seq<DocumentKey>) -> bool {
        forall|i: int| #![trigger keys[i]]
            0 <= i < keys.len() ==> self.has_session(self.writes[keys[i]].session)
    }

    /// The store with the attention items of these inputs, the last ones first.
    pub open spec fn with_waiting(self, keys: Seq<DocumentKey>) -> StoreView
        decreases keys.len(),
    {
        if keys.len() == 0 {
            self
        } else {
            let session = self.input_session(keys.last());
            self.with_attention(
                self.session(session).info.workspace,
                session,
                self.inputs[keys.last()],
            ).with_waiting(keys.drop_last())
        }
    }

    /// The store with the attention items of these writes, the last ones first.
    pub open spec fn with_unsettled(self, keys: Seq<DocumentKey>) -> StoreView
        decreases keys.len(),
    {
        if keys.len() == 0 {
            self
        } else {
            let attempt = self.writes[keys.last()];
            self.with_write_attention(
                self.session(attempt.session).info.workspace,
                attempt,
            ).with_unsettled(keys.drop_last())
        }
    }

    /// One step of the collection of attention items: the store after it and whether more is to
    /// be read.
    pub open spec fn attention_backfill(self) -> Result<(StoreView, bool), StoreError> {
        let state = match self.attention_state {
            Some(state) => state,
            None => first_attention_state(),
        };
        let (inputs, older_inputs) = window(self.inputs.dom(), state.input_before);
        let (writes, older_writes) = window(self.writes.dom(), state.write_before);
        if state.inputs_complete && state.writes_complete {
            Ok((self, false))
        } else if !state.inputs_complete && !self.input_sessions_exist(inputs) {
            Err(StoreError::Corrupt { message: "input belongs to a missing session" })
        } else if !state.writes_complete && !self.write_sessions_exist(writes) {
            Err(StoreError::Corrupt { message: "write attempt belongs to a missing session" })
        } else {
            let waiting = if state.inputs_complete {
                self
            } else {
                self.with_waiting(inputs)
            };
            let collected = if state.writes_complete {
                waiting
            } else {
                waiting.with_unsettled(writes)
            };
            let next = AttentionProjectionState {
                input_before: if state.inputs_complete {
                    state.input_before
                } else {
                    first_key(inputs)
                },
                inputs_complete: state.inputs_complete || !older_inputs,
                write_before: if state.writes_complete {
                    state.write_before
                } else {
                    first_key(writes)
                },
                writes_complete: state.writes_complete || !older_writes,
            };
            Ok(
                (
                    StoreView { attention_state: Some(next), ..collected },
                    !(next.inputs_complete && next.writes_complete),
                ),
            )
        }
    }

    /// What a list shows of a session.
    pub open spec fn session_summary(self, key: DocumentKey) -> SessionSummary {
        let saved = self.sessions[key];
        SessionSummary {
            session: saved.info,
            has_draft: saved.draft@.len() > 0,
            draft_bytes: byte_count(saved.draft@) as u64,
            persisted_runtime: match saved.runtime {
                Some(runtime) => Some(runtime.id),
                None => None,
            },
            history_through: SessionSeq(self.history(saved.info.id).len() as u64),
        }
    }
}

/// Attention items of inputs change nothing else.
proof fn lemma_waiting_frame(store: StoreView, keys: Seq<DocumentKey>)
    ensures
        store.with_waiting(keys) == (StoreView {
            waiting: store.with_waiting(keys).waiting,
            ..store
        }),
    decreases keys.len(),
{
    if keys.len() > 0 {
        let session = store.input_session(keys.last());
        let next = store.with_attention(
            store.session(session).info.workspace,
            session,
            store.inputs[keys.last()],
        );
        lemma_waiting_frame(next, keys.drop_last());
    }
}

/// Attention items of writes change nothing else.
proof fn lemma_unsettled_frame(store: StoreView, keys: Seq<DocumentKey>)
    ensures
        store.with_unsettled(keys) == (StoreView {
            unsettled: store.with_unsettled(keys).unsettled,
            ..store
        }),
    decreases keys.len(),
{
    if keys.len() > 0 {
        let attempt = store.writes[keys.last()];
        let next = store.with_write_attention(
            store.session(attempt.session).info.workspace,
            attempt,
        );
        lemma_unsettled_frame(next, keys.drop_last());
    }
}

/// Which question an input waits for: the record of a runtime of a session.
#[derive(Clone, Copy, Debug, PartialEq, Eq, Structural)]
pub struct GroupId {
    pub session: SessionId,
    pub runtime: RuntimeId,
    pub record: u64,
}

impl GroupId {
    /// The order of questions.
    pub open spec fn precedes(self, other: GroupId) -> bool {
        ||| self.session.0 < other.session.0
        ||| self.session == other.session && self.runtime.0 < other.runtime.0
        ||| self.session == other.session && self.runtime == other.runtime && self.record
            < other.record
    }

    /// The order of questions.
    pub fn is_before(&self, other: &GroupId) -> (r: bool)
        ensures
            r == self.precedes(*other),
    {
        self.session.0 < other.session.0 || self.session == other.session && (self.runtime.0
            < other.runtime.0 || self.runtime == other.runtime && self.record < other.record)
    }
}

/// The question that a record waits for.
pub open spec fn group_id(record: WaitingRecord) -> GroupId {
    GroupId { session: record.session, runtime: record.runtime, record: record.question.record }
}

/// A question with the inputs that wait for it.
pub struct WaitingGroup {
    pub id: GroupId,
    pub question: QuestionId,
    pub text: String,
    pub inputs: Vec<InputId>,
}

/// A question with the inputs that wait for it, by its values.
#[verifier::ext_equal]
pub ghost struct WaitingGroupView {
    pub id: GroupId,
    pub question: QuestionId,
    pub text: String,
    pub inputs: Seq<InputId>,
}

impl View for WaitingGroup {
    type V = WaitingGroupView;

    open spec fn view(&self) -> WaitingGroupView {
        WaitingGroupView {
            id: self.id,
            question: self.question,
            text: self.text,
            inputs: self.inputs@,
        }
    }
}

/// Groups by their values.
pub open spec fn group_views(groups: Seq<WaitingGroup>) -> Seq<WaitingGroupView> {
    groups.map_values(|group: WaitingGroup| group@)
}

/// The records that wait for a question.
pub open spec fn members(records: Seq<WaitingRecord>, id: GroupId) -> Seq<WaitingRecord> {
    records.filter(|record: WaitingRecord| group_id(record) == id)
}

/// The number of an input.
pub open spec fn number_of() -> spec_fn(InputId) -> int {
    |id: InputId| id.0 as int
}

/// The inputs of records, by their numbers.
pub open spec fn member_inputs(records: Seq<WaitingRecord>) -> Seq<InputId> {
    sorted_by(records.map_values(|record: WaitingRecord| record.input), number_of())
}

/// Whether a group is what the records say of its question: its wording is that of the first
/// record, its inputs are all that wait for it.
pub open spec fn is_group(group: WaitingGroupView, records: Seq<WaitingRecord>) -> bool {
    let waiting = members(records, group.id);
    &&& waiting.len() > 0
    &&& group.question == waiting[0].question
    &&& group.text == waiting[0].text
    &&& group.inputs == member_inputs(waiting)
}

/// Whether a group for a question is among the groups.
pub open spec fn holds_group(groups: Seq<WaitingGroupView>, id: GroupId) -> bool {
    exists|i: int| 0 <= i < groups.len() && (#[trigger] groups[i]).id == id
}

/// Whether `groups` are the questions of the records, each once, in order.
pub open spec fn groups_records(groups: Seq<WaitingGroupView>, records: Seq<WaitingRecord>) -> bool {
    &&& forall|i: int, j: int|
        0 <= i < j < groups.len() ==> (#[trigger] groups[i]).id.precedes((#[trigger] groups[j]).id)
    &&& forall|i: int|
        0 <= i < groups.len() ==> is_group(#[trigger] groups[i], records)
    &&& forall|i: int|
        0 <= i < records.len() ==> holds_group(groups, group_id(#[trigger] records[i]))
}

/// Adding a record changes only the group of its question.
proof fn lemma_members_step(records: Seq<WaitingRecord>, i: int, id: GroupId)
    requires
        0 <= i < records.len(),
    ensures
        members(records.take(i + 1), id) == (if group_id(records[i]) == id {
            members(records.take(i), id).push(records[i])
        } else {
            members(records.take(i), id)
        }),
{
    lemma_filter_step(records, i, |record: WaitingRecord| group_id(record) == id);
}

/// A question without a group has no records.
proof fn lemma_no_members(groups: Seq<WaitingGroupView>, records: Seq<WaitingRecord>, id: GroupId)
    requires
        groups_records(groups, records),
        !holds_group(groups, id),
    ensures
        members(records, id).len() == 0,
{
    if members(records, id).len() > 0 {
        lemma_filter_keeps(records, |record: WaitingRecord| group_id(record) == id, 0);
        let found = members(records, id)[0];
        let n = choose|n: int| 0 <= n < records.len() && records[n] == found;
        assert(holds_group(groups, group_id(records[n])));
    }
}

/// Puts an input in its place by number.
fn insert_by_number(items: &mut Vec<InputId>, item: InputId)
    ensures
        final(items)@ == old(items)@.insert(
            slot(old(items)@.map_values(number_of()), item.0 as int),
            item,
        ),
{
    let ghost keys = items@.map_values(number_of());
    let mut at: usize = items.len();
    while at > 0 && items[at - 1].0 > item.0
        invariant
            at <= items@.len(),
            keys == items@.map_values(number_of()),
            forall|i: int| at <= i < keys.len() ==> keys[i] > item.0,
        decreases at,
    {
        at = at - 1;
        proof {
            assert(keys[at as int] == items@[at as int].0);
        }
    }
    proof {
        if at > 0 {
            assert(keys[at - 1] == items@[at - 1].0);
        }
        lemma_slot(keys, item.0 as int, at as int);
    }
    let ghost before = items@;
    items.insert(at, item);
    proof {
        assert(items@ =~= before.insert(at as int, item));
    }
}

/// Adds a record to the group of its question.
fn add_waiting(
    groups: &mut Vec<WaitingGroup>,
    record: &WaitingRecord,
    Ghost(records): Ghost<Seq<WaitingRecord>>,
    Ghost(n): Ghost<int>,
)
    requires
        0 <= n < records.len(),
        records[n] == *record,
        groups_records(group_views(old(groups)@), records.take(n)),
    ensures
        groups_records(group_views(final(groups)@), records.take(n + 1)),
{
    let id = GroupId {
        session: record.session,
        runtime: record.runtime,
        record: record.question.record,
    };
    let ghost start = group_views(groups@);
    let ghost earlier = records.take(n);
    let ghost all = records.take(n + 1);
    proof {
        assert forall|other: GroupId| #[trigger] members(all, other) == (if id == other {
            members(earlier, other).push(*record)
        } else {
            members(earlier, other)
        }) by {
            lemma_members_step(records, n, other);
        }
        assert forall|i: int| 0 <= i < all.len() implies #[trigger] all[i] == (if i < n {
            earlier[i]
        } else {
            *record
        }) by {}
    }
    let mut at: usize = 0;
    while at < groups.len() && groups[at].id.is_before(&id)
        invariant
            at <= groups@.len(),
            start == group_views(groups@),
            forall|i: int| 0 <= i < at ==> (#[trigger] start[i]).id.precedes(id),
        decreases groups@.len() - at,
    {
        proof {
            assert(start[at as int] == groups@[at as int]@);
        }
        at = at + 1;
    }
    proof {
        if at < groups@.len() {
            assert(start[at as int] == groups@[at as int]@);
        }
    }
    if at < groups.len() && groups[at].id == id {
        let ghost before = groups@;
        let mut group = groups.remove(at);
        let ghost inputs = group.inputs@;
        insert_by_number(&mut group.inputs, record.input);
        let ghost grown = group@;
        groups.insert(at, group);
        proof {
            let views = group_views(groups@);
            assert(views =~= start.update(at as int, grown));
            let old_members = members(earlier, id);
            let new_members = members(all, id);
            assert(is_group(start[at as int], earlier));
            assert(new_members[0] == old_members[0]);
            let input_of = |record: WaitingRecord| record.input;
            assert(new_members.map_values(input_of).drop_last() =~= old_members.map_values(
                input_of,
            ));
            assert(new_members.map_values(input_of).last() == record.input);
            assert(grown.inputs == member_inputs(new_members));
            assert(is_group(grown, all));
            assert forall|i: int| 0 <= i < views.len() implies is_group(
                #[trigger] views[i],
                all,
            ) by {
                if i != at {
                    assert(is_group(start[i], earlier));
                    if i < at {
                        assert(start[i].id.precedes(start[at as int].id));
                    } else {
                        assert(start[at as int].id.precedes(start[i].id));
                    }
                }
            }
            assert forall|i: int, j: int| 0 <= i < j < views.len() implies (
            #[trigger] views[i]).id.precedes((#[trigger] views[j]).id) by {
                assert(start[i].id.precedes(start[j].id));
            }
            assert forall|i: int| 0 <= i < all.len() implies holds_group(
                views,
                group_id(#[trigger] all[i]),
            ) by {
                if i < n {
                    assert(holds_group(start, group_id(earlier[i])));
                    let k = choose|k: int|
                        0 <= k < start.len() && (#[trigger] start[k]).id == group_id(earlier[i]);
                    assert(views[k].id == group_id(earlier[i]));
                } else {
                    assert(views[at as int].id == id);
                }
            }
        }
    } else {
        let mut inputs: Vec<InputId> = Vec::new();
        inputs.push(record.input);
        let group = WaitingGroup {
            id,
            question: record.question,
            text: record.text.clone(),
            inputs,
        };
        let ghost fresh = group@;
        proof {
            if holds_group(start, id) {
                let k = choose|k: int| 0 <= k < start.len() && (#[trigger] start[k]).id == id;
                if k < at {
                    assert(start[k].id.precedes(id));
                } else {
                    assert(start[at as int].id.precedes(start[k].id) || k == at);
                }
            }
            lemma_no_members(start, earlier, id);
        }
        groups.insert(at, group);
        proof {
            let views = group_views(groups@);
            assert(views =~= start.insert(at as int, fresh));
            let new_members = members(all, id);
            assert(new_members =~= seq![*record]);
            let input_of = |record: WaitingRecord| record.input;
            assert(new_members.map_values(input_of) =~= seq![record.input]);
            reveal_with_fuel(sorted_by, 2);
            assert(seq![record.input].drop_last() =~= Seq::<InputId>::empty());
            assert(member_inputs(new_members) =~= seq![record.input]);
            assert(fresh.inputs =~= member_inputs(new_members));
            assert(is_group(fresh, all));
            assert forall|i: int| 0 <= i < views.len() implies is_group(
                #[trigger] views[i],
                all,
            ) by {
                if i < at {
                    assert(views[i] == start[i]);
                    assert(is_group(start[i], earlier));
                } else if i > at {
                    assert(views[i] == start[i - 1]);
                    assert(is_group(start[i - 1], earlier));
                    assert(start[i - 1].id != id);
                }
            }
            assert forall|i: int, j: int| 0 <= i < j < views.len() implies (
            #[trigger] views[i]).id.precedes((#[trigger] views[j]).id) by {
                let a = if i < at { i } else { i - 1 };
                let b = if j < at { j } else { j - 1 };
                if i != at {
                    assert(views[i] == start[a]);
                }
                if j != at {
                    assert(views[j] == start[b]);
                }
                if i == at {
                    assert(id.precedes(start[at as int].id));
                    assert(b == at || start[at as int].id.precedes(start[b].id));
                } else if j == at {
                    assert(start[i].id.precedes(id));
                } else {
                    assert(start[a].id.precedes(start[b].id));
                }
            }
            assert forall|i: int| 0 <= i < all.len() implies holds_group(
                views,
                group_id(#[trigger] all[i]),
            ) by {
                if i < n {
                    assert(holds_group(start, group_id(earlier[i])));
                    let k = choose|k: int|
                        0 <= k < start.len() && (#[trigger] start[k]).id == group_id(earlier[i]);
                    let m = if k < at { k } else { k + 1 };
                    assert(views[m].id == group_id(earlier[i]));
                } else {
                    assert(views[at as int].id == id);
                }
            }
        }
    }
}

/// An attention item by its values.
pub ghost enum AttentionItemView {
    WaitingForUser {
        session: SessionId,
        inputs: Seq<InputId>,
        runtime: RuntimeId,
        question: QuestionId,
        text: String,
    },
    UnresolvedWrite { session: SessionId, call: CallRef, status: crate::api::UnresolvedWriteStatus },
}

impl View for AttentionItem {
    type V = AttentionItemView;

    open spec fn view(&self) -> AttentionItemView {
        match self {
            AttentionItem::WaitingForUser { session, inputs, runtime, question, text } =>
                AttentionItemView::WaitingForUser {
                session: *session,
                inputs: inputs@,
                runtime: *runtime,
                question: *question,
                text: *text,
            },
            AttentionItem::UnresolvedWrite { session, call, status } =>
                AttentionItemView::UnresolvedWrite {
                session: *session,
                call: *call,
                status: *status,
            },
        }
    }
}

/// The attention item of a question.
pub open spec fn question_item(group: WaitingGroupView) -> AttentionItemView {
    AttentionItemView::WaitingForUser {
        session: group.id.session,
        inputs: group.inputs,
        runtime: group.id.runtime,
        question: group.question,
        text: group.text,
    }
}

/// The attention item of a write.
pub open spec fn write_item(write: UnresolvedWriteView) -> AttentionItemView {
    AttentionItemView::UnresolvedWrite {
        session: write.session,
        call: write.call,
        status: write.status,
    }
}

impl StoreView {
    /// The waiting inputs of a workspace.
    pub open spec fn waiting_records(self, workspace: WorkspaceId) -> Seq<WaitingRecord> {
        listing(self.waiting.dom(), KeyRange::of(workspace.0)).map_values(
            |key: DocumentKey| self.waiting[key],
        )
    }

    /// The attention items of a workspace that are writes.
    pub open spec fn attention_writes(self, workspace: WorkspaceId) -> Seq<UnresolvedWriteView> {
        listing(self.unsettled.dom(), KeyRange::of(workspace.0)).map_values(
            |key: DocumentKey| self.unsettled[key],
        )
    }

    /// The unsettled writes of a workspace, by their calls.
    pub open spec fn unsettled_writes(self, workspace: WorkspaceId) -> Seq<UnresolvedWriteView> {
        sorted_by(self.attention_writes(workspace), call_of())
    }

    /// What is wrong with the attention items of a workspace.
    pub open spec fn attention_problem(self, workspace: WorkspaceId) -> Option<StoreError> {
        let records = self.waiting_records(workspace);
        let writes = self.attention_writes(workspace);
        if !(forall|i: int| #![trigger records[i]]
            0 <= i < records.len() ==> records[i].workspace == workspace) {
            Some(
                StoreError::Corrupt {
                    message: "attention record is stored under the wrong workspace",
                },
            )
        } else if !(forall|i: int| #![trigger writes[i]]
            0 <= i < writes.len() ==> writes[i].workspace == workspace) {
            Some(
                StoreError::Corrupt {
                    message: "write attention is stored under the wrong workspace",
                },
            )
        } else {
            None
        }
    }
}

/// Attention items by their values.
pub open spec fn item_views(items: Seq<AttentionItem>) -> Seq<AttentionItemView> {
    items.map_values(|item: AttentionItem| item@)
}

/// The items of questions, then those of writes.
pub open spec fn attention_views(
    groups: Seq<WaitingGroupView>,
    writes: Seq<UnresolvedWriteView>,
) -> Seq<AttentionItemView> {
    groups.map_values(|group: WaitingGroupView| question_item(group)) + writes.map_values(
        |write: UnresolvedWriteView| write_item(write),
    )
}

/// Whether attention items are the questions of the records and then the writes.
pub open spec fn is_attention(
    items: Seq<AttentionItem>,
    records: Seq<WaitingRecord>,
    writes: Seq<UnresolvedWriteView>,
) -> bool {
    exists|groups: Seq<WaitingGroupView>| #[trigger]
        groups_records(groups, records) && item_views(items) == attention_views(groups, writes)
}

/// Whether asking for an overview gives this store and this answer.
pub open spec fn shows_overview(
    before: StoreView,
    workspace: WorkspaceInfo,
    after: StoreView,
    r: Result<WorkspaceOverview, StoreError>,
) -> bool {
    match before.attention_backfill() {
        Err(error) => {
            &&& after == before
            &&& r matches Err(e) && e == error
        },
        Ok((store, pending)) => {
            &&& after == store
            &&& match store.attention_problem(workspace.id) {
                Some(error) => r matches Err(e) && e == error,
                None => {
                    let writes = store.unsettled_writes(workspace.id);
                    &&& r matches Ok(overview)
                    &&& overview.workspace == workspace
                    &&& overview.sessions@ == store.listed_sessions(
                        workspace.id,
                    ).map_values(|key: DocumentKey| store.session_summary(key))
                    &&& is_attention(
                        overview.attention@,
                        store.waiting_records(workspace.id),
                        writes,
                    )
                    &&& overview.unresolved_writes@ == writes
                    &&& overview.attention_projection_pending == pending
                },
            }
        },
    }
}

impl DataStore {
    /// The keys that the next step of a collection of attention items reads from the inputs.
    fn input_window(&self, before: Option<DocumentKey>) -> (r: (Vec<DocumentKey>, bool))
        ensures
            (r.0@, r.1) == window(self@.inputs.dom(), before),
            forall|i: int| #![trigger r.0@[i]]
                0 <= i < r.0@.len() ==> self@.inputs.dom().contains(r.0@[i]),
    {
        self.inputs.recent(&KeyRange { owner: None, item: None, before }, ATTENTION_WINDOW)
    }

    /// The keys that the next step of a collection of attention items reads from the writes.
    fn write_window(&self, before: Option<DocumentKey>) -> (r: (Vec<DocumentKey>, bool))
        ensures
            (r.0@, r.1) == window(self@.writes.dom(), before),
            forall|i: int| #![trigger r.0@[i]]
                0 <= i < r.0@.len() ==> self@.writes.dom().contains(r.0@[i]),
    {
        self.writes.recent(&KeyRange { owner: None, item: None, before }, ATTENTION_WINDOW)
    }

    /// Whether the session of every one of these inputs exists.
    fn inputs_have_sessions(&self, keys: &Vec<DocumentKey>) -> (r: bool)
        ensures
            r == self@.input_sessions_exist(keys@),
    {
        let mut i: usize = 0;
        while i < keys.len()
            invariant
                i <= keys@.len(),
                forall|j: int| #![trigger keys@[j]]
                    0 <= j < i ==> self@.has_session(self@.input_session(keys@[j])),
            decreases keys@.len() - i,
        {
            if !self.sessions.has(&make_session_key(SessionId(keys[i].owner))) {
                proof {
                    assert(!self@.has_session(self@.input_session(keys@[i as int])));
                }
                return false;
            }
            i = i + 1;
        }
        true
    }

    /// Whether the session of every one of these writes exists.
    fn writes_have_sessions(&self, keys: &Vec<DocumentKey>) -> (r: bool)
        requires
            forall|i: int| #![trigger keys@[i]]
                0 <= i < keys@.len() ==> self@.writes.dom().contains(keys@[i]),
        ensures
            r == self@.write_sessions_exist(keys@),
    {
        let mut i: usize = 0;
        while i < keys.len()
            invariant
                i <= keys@.len(),
                forall|j: int| #![trigger keys@[j]]
                    0 <= j < keys@.len() ==> self@.writes.dom().contains(keys@[j]),
                forall|j: int| #![trigger keys@[j]]
                    0 <= j < i ==> self@.has_session(self@.writes[keys@[j]].session),
            decreases keys@.len() - i,
        {
            proof {
                assert(self@.writes.dom().contains(keys@[i as int]));
            }
            let attempt = self.writes.get(&keys[i]).unwrap();
            if !self.sessions.has(&make_session_key(attempt.session)) {
                proof {
                    assert(!self@.has_session(self@.writes[keys@[i as int]].session));
                }
                return false;
            }
            i = i + 1;
        }
        true
    }

    /// Runs one step of the collection of attention items. Returns whether more is to be read.
    pub fn backfill_attention_projection(&mut self) -> (r: Result<bool, StoreError>)
        ensures
            match old(self)@.attention_backfill() {
                Ok((store, pending)) => final(self)@ == store && r == Ok::<bool, StoreError>(
                    pending,
                ),
                Err(error) => final(self)@ == old(self)@ && r == Err::<bool, StoreError>(error),
            },
    {
        let ghost start = self@;
        let mut state = match self.attention_state {
            Some(state) => state,
            None => AttentionProjectionState {
                input_before: None,
                inputs_complete: false,
                write_before: None,
                writes_complete: false,
            },
        };
        let ghost first = state;
        if state.inputs_complete && state.writes_complete {
            return Ok(false);
        }
        let (inputs, older_inputs) = self.input_window(state.input_before);
        let (writes, older_writes) = self.write_window(state.write_before);
        if !state.inputs_complete && !self.inputs_have_sessions(&inputs) {
            return Err(StoreError::Corrupt { message: "input belongs to a missing session" });
        }
        if !state.writes_complete && !self.writes_have_sessions(&writes) {
            return Err(
                StoreError::Corrupt { message: "write attempt belongs to a missing session" },
            );
        }
        if !state.inputs_complete {
            let mut i: usize = inputs.len();
            proof {
                assert(inputs@.take(i as int) =~= inputs@);
            }
            while i > 0
                invariant
                    i <= inputs@.len(),
                    start.input_sessions_exist(inputs@),
                    forall|j: int| #![trigger inputs@[j]]
                        0 <= j < inputs@.len() ==> start.inputs.dom().contains(inputs@[j]),
                    self@ == (StoreView { waiting: self@.waiting, ..start }),
                    start.with_waiting(inputs@) == self@.with_waiting(inputs@.take(i as int)),
                decreases i,
            {
                i = i - 1;
                let ghost before = self@;
                let key = inputs[i];
                let session = SessionId(key.owner);
                proof {
                    assert(inputs@.take(i + 1).drop_last() =~= inputs@.take(i as int));
                    assert(inputs@.take(i + 1).last() == key);
                    assert(start.inputs.dom().contains(inputs@[i as int]));
                    assert(start.has_session(start.input_session(inputs@[i as int])));
                }
                let workspace = self.sessions.get(&make_session_key(session)).unwrap().info.workspace;
                let input = self.inputs.get(&key).unwrap().clone();
                self.sync_input_attention(workspace, session, &input);
                proof {
                    assert(before.session(session).info.workspace == workspace);
                }
            }
            proof {
                assert(inputs@.take(0) =~= Seq::<DocumentKey>::empty());
            }
            state.inputs_complete = !older_inputs;
            state.input_before = if inputs.len() == 0 {
                None
            } else {
                Some(inputs[0])
            };
        }
        let ghost waiting = self@;
        if !state.writes_complete {
            let mut i: usize = writes.len();
            proof {
                assert(writes@.take(i as int) =~= writes@);
            }
            while i > 0
                invariant
                    i <= writes@.len(),
                    start.write_sessions_exist(writes@),
                    forall|j: int| #![trigger writes@[j]]
                        0 <= j < writes@.len() ==> start.writes.dom().contains(writes@[j]),
                    self@ == (StoreView { unsettled: self@.unsettled, ..waiting }),
                    waiting == (StoreView { waiting: waiting.waiting, ..start }),
                    waiting.with_unsettled(writes@) == self@.with_unsettled(
                        writes@.take(i as int),
                    ),
                decreases i,
            {
                i = i - 1;
                let ghost before = self@;
                let key = writes[i];
                proof {
                    assert(writes@.take(i + 1).drop_last() =~= writes@.take(i as int));
                    assert(writes@.take(i + 1).last() == key);
                    assert(start.writes.dom().contains(writes@[i as int]));
                    assert(start.has_session(start.writes[writes@[i as int]].session));
                }
                let attempt = self.writes.get(&key).unwrap();
                let workspace = self.sessions.get(
                    &make_session_key(attempt.session),
                ).unwrap().info.workspace;
                let copy = attempt.clone();
                self.sync_write_attention(workspace, &copy);
                proof {
                    assert(before.session(copy.session).info.workspace == workspace);
                }
            }
            proof {
                assert(writes@.take(0) =~= Seq::<DocumentKey>::empty());
            }
            state.writes_complete = !older_writes;
            state.write_before = if writes.len() == 0 {
                None
            } else {
                Some(writes[0])
            };
        }
        let ghost collected = self@;
        self.attention_state = Some(state);
        proof {
            lemma_waiting_frame(start, inputs@);
            lemma_unsettled_frame(waiting, writes@);
            assert(self@ =~= (StoreView { attention_state: Some(state), ..collected }));
        }
        Ok(!(state.inputs_complete && state.writes_complete))
    }

    /// What a list shows of the sessions of a workspace.
    fn session_summaries(&self, workspace: WorkspaceId) -> (r: Vec<SessionSummary>)
        ensures
            r@ == self@.listed_sessions(workspace).map_values(
                |key: DocumentKey| self@.session_summary(key),
            ),
    {
        let keys = self.session_keys(workspace);
        let mut r: Vec<SessionSummary> = Vec::new();
        let mut i: usize = 0;
        while i < keys.len()
            invariant
                i <= keys@.len(),
                forall|j: int| #![trigger keys@[j]]
                    0 <= j < keys@.len() ==> self.sessions@.dom().contains(keys@[j]),
                r@.len() == i,
                forall|j: int| #![trigger r@[j]]
                    0 <= j < i ==> r@[j] == self@.session_summary(keys@[j]),
            decreases keys@.len() - i,
        {
            proof {
                assert(self.sessions@.dom().contains(keys@[i as int]));
            }
            let saved = self.sessions.get(&keys[i]).unwrap();
            let draft_bytes: usize = byte_len(saved.draft.as_str());
            let has_draft = !crate::text::same_text(saved.draft.as_str(), "");
            proof {
                reveal_strlit("");
                if saved.draft@.len() == 0 {
                    assert(saved.draft@ =~= ""@);
                }
            }
            r.push(
                SessionSummary {
                    session: saved.info.clone(),
                    has_draft,
                    draft_bytes: draft_bytes as u64,
                    persisted_runtime: saved.runtime_id(),
                    history_through: self.history_through(saved.info.id),
                },
            );
            i = i + 1;
        }
        proof {
            assert(r@ =~= self@.listed_sessions(workspace).map_values(
                |key: DocumentKey| self@.session_summary(key),
            ));
        }
        r
    }

    /// The questions of a workspace that inputs wait for.
    fn waiting_groups(&self, workspace: WorkspaceId) -> (r: Result<Vec<WaitingGroup>, StoreError>)
        ensures
            ({
                let records = self@.waiting_records(workspace);
                if forall|i: int| #![trigger records[i]]
                    0 <= i < records.len() ==> records[i].workspace == workspace {
                    r matches Ok(groups) && groups_records(group_views(groups@), records)
                } else {
                    r matches Err(e) && e == (StoreError::Corrupt {
                        message: "attention record is stored under the wrong workspace",
                    })
                }
            }),
    {
        let keys = self.waiting.select(&KeyRange::owned_by(workspace.0));
        let ghost records = keys@.map_values(|key: DocumentKey| self@.waiting[key]);
        let mut groups: Vec<WaitingGroup> = Vec::new();
        let mut i: usize = 0;
        proof {
            assert(records == self@.waiting_records(workspace));
            assert(group_views(groups@).len() == 0);
            assert(records.take(0).len() == 0);
        }
        while i < keys.len()
            invariant
                i <= keys@.len(),
                records == keys@.map_values(|key: DocumentKey| self@.waiting[key]),
                records == self@.waiting_records(workspace),
                forall|j: int| #![trigger keys@[j]]
                    0 <= j < keys@.len() ==> self.waiting@.dom().contains(keys@[j]),
                groups_records(group_views(groups@), records.take(i as int)),
                forall|j: int| #![trigger records[j]]
                    0 <= j < i ==> records[j].workspace == workspace,
            decreases keys@.len() - i,
        {
            proof {
                assert(self.waiting@.dom().contains(keys@[i as int]));
                assert(records[i as int] == self@.waiting[keys@[i as int]]);
            }
            let record = self.waiting.get(&keys[i]).unwrap();
            if record.workspace != workspace {
                return Err(
                    StoreError::Corrupt {
                        message: "attention record is stored under the wrong workspace",
                    },
                );
            }
            add_waiting(&mut groups, record, Ghost(records), Ghost(i as int));
            i = i + 1;
        }
        proof {
            assert(records.take(i as int) =~= records);
        }
        Ok(groups)
    }

    /// The unsettled writes of a workspace, as they are shown.
    fn shown_writes(&self, workspace: WorkspaceId) -> (r: Result<
        Vec<UnresolvedWriteView>,
        StoreError,
    >)
        ensures
            ({
                let writes = self@.attention_writes(workspace);
                if forall|i: int| #![trigger writes[i]]
                    0 <= i < writes.len() ==> writes[i].workspace == workspace {
                    r matches Ok(shown) && shown@ == self@.unsettled_writes(workspace)
                } else {
                    r matches Err(e) && e == (StoreError::Corrupt {
                        message: "write attention is stored under the wrong workspace",
                    })
                }
            }),
    {
        let keys = self.unsettled.select(&KeyRange::owned_by(workspace.0));
        let ghost writes = keys@.map_values(|key: DocumentKey| self@.unsettled[key]);
        let mut r: Vec<UnresolvedWriteView> = Vec::new();
        let mut i: usize = 0;
        while i < keys.len()
            invariant
                i <= keys@.len(),
                writes == keys@.map_values(|key: DocumentKey| self@.unsettled[key]),
                writes == self@.attention_writes(workspace),
                forall|j: int| #![trigger keys@[j]]
                    0 <= j < keys@.len() ==> self.unsettled@.dom().contains(keys@[j]),
                r@ == sorted_by(writes.take(i as int), call_of()),
                forall|j: int| #![trigger writes[j]]
                    0 <= j < i ==> writes[j].workspace == workspace,
            decreases keys@.len() - i,
        {
            proof {
                assert(self.unsettled@.dom().contains(keys@[i as int]));
                assert(writes[i as int] == self@.unsettled[keys@[i as int]]);
            }
            let write = self.unsettled.get(&keys[i]).unwrap();
            if write.workspace != workspace {
                return Err(
                    StoreError::Corrupt {
                        message: "write attention is stored under the wrong workspace",
                    },
                );
            }
            let copy = write.clone();
            proof {
                assert(writes.take(i + 1).drop_last() =~= writes.take(i as int));
                assert(writes.take(i + 1).last() == copy);
                lemma_slot_bounds(
                    sorted_by(writes.take(i as int), call_of()).map_values(call_of()),
                    copy.call.rank(),
                );
            }
            insert_by_call(&mut r, copy);
            i = i + 1;
        }
        proof {
            assert(writes.take(i as int) =~= writes);
        }
        Ok(r)
    }

    /// The overview of a workspace, after one step of the collection of attention items: its
    /// sessions, the questions that inputs wait for, and its unsettled writes.
    pub fn workspace_overview(&mut self, workspace: WorkspaceInfo) -> (r: Result<
        WorkspaceOverview,
        StoreError,
    >)
        ensures
            shows_overview(old(self)@, workspace, final(self)@, r),
    {
        let pending = match self.backfill_attention_projection() {
            Ok(pending) => pending,
            Err(error) => {
                return Err(error);
            },
        };
        let sessions = self.session_summaries(workspace.id);
        let groups = match self.waiting_groups(workspace.id) {
            Ok(groups) => groups,
            Err(error) => {
                return Err(error);
            },
        };
        let unresolved_writes = match self.shown_writes(workspace.id) {
            Ok(writes) => writes,
            Err(error) => {
                return Err(error);
            },
        };
        let ghost views = group_views(groups@);
        let ghost writes = unresolved_writes@;
        let mut attention: Vec<AttentionItem> = Vec::new();
        let mut i: usize = 0;
        while i < groups.len()
            invariant
                i <= groups@.len(),
                views == group_views(groups@),
                attention@.len() == i,
                forall|j: int| #![trigger attention@[j]]
                    0 <= j < i ==> attention@[j]@ == question_item(views[j]),
            decreases groups@.len() - i,
        {
            let group = &groups[i];
            proof {
                assert(views[i as int] == group@);
            }
            attention.push(
                AttentionItem::WaitingForUser {
                    session: group.id.session,
                    inputs: crate::record::copy_inputs(&group.inputs),
                    runtime: group.id.runtime,
                    question: group.question,
                    text: group.text.clone(),
                },
            );
            i = i + 1;
        }
        let ghost questions = attention@;
        let mut i: usize = 0;
        while i < unresolved_writes.len()
            invariant
                i <= unresolved_writes@.len(),
                writes == unresolved_writes@,
                attention@.len() == questions.len() + i,
                forall|j: int| #![trigger attention@[j]]
                    0 <= j < questions.len() ==> attention@[j] == questions[j],
                forall|j: int| #![trigger attention@[j]]
                    questions.len() <= j < attention@.len() ==> attention@[j]@ == write_item(
                        writes[j - questions.len()],
                    ),
            decreases unresolved_writes@.len() - i,
        {
            let write = &unresolved_writes[i];
            attention.push(
                AttentionItem::UnresolvedWrite {
                    session: write.session,
                    call: write.call,
                    status: write.status,
                },
            );
            i = i + 1;
        }
        proof {
            assert(item_views(attention@) =~= attention_views(views, writes));
        }
        Ok(
            WorkspaceOverview {
                workspace,
                sessions,
                attention,
                unresolved_writes,
                attention_projection_pending: pending,
            },
        )
    }
}

/// A step of the collection of attention items changes nothing but the attention items and how far
/// they are collected. It reads at most one window of inputs and one of writes. Once a step says
/// that nothing is left, the collection is complete: every later step says the same and stores
/// nothing.
pub proof fn law_collected_attention_stays_collected(store: StoreView)
    ensures
        store.attention_backfill() matches Ok((after, pending)) ==> {
            &&& after == (StoreView {
                waiting: after.waiting,
                unsettled: after.unsettled,
                attention_state: after.attention_state,
                ..store
            })
            &&& after.attention_state matches Some(state) && pending == !(state.inputs_complete
                && state.writes_complete)
            &&& !pending ==> after.attention_backfill() == Ok::<(StoreView, bool), StoreError>(
                (after, false),
            )
        },
        forall|before: Option<DocumentKey>|
            (#[trigger] window(store.inputs.dom(), before)).0.len() <= ATTENTION_WINDOW,
        forall|before: Option<DocumentKey>|
            (#[trigger] window(store.writes.dom(), before)).0.len() <= ATTENTION_WINDOW,
{
    let state = match store.attention_state {
        Some(state) => state,
        None => first_attention_state(),
    };
    let (inputs, older_inputs) = window(store.inputs.dom(), state.input_before);
    let (writes, older_writes) = window(store.writes.dom(), state.write_before);
    lemma_waiting_frame(store, inputs);
    lemma_unsettled_frame(store, writes);
    lemma_unsettled_frame(store.with_waiting(inputs), writes);
}

} // verus!

//! What the overview of a workspace shows.

use vstd::prelude::*;

use crate::api::{AttentionItem, UnresolvedWriteView, WorkspaceInfo, WorkspaceOverview};
use crate::document::DocumentKey;
use crate::error::StoreError;

use crate::persistence::laws::lemma_sorting_keeps;
use crate::persistence::overview::{
    attention_views, group_id, item_views, is_attention, is_group, members, number_of,
    question_item, groups_records, shows_overview, write_item, WaitingGroupView, AttentionItemView,
};
use crate::persistence::{StoreView, WaitingRecord};
use crate::seqs::{lemma_filter_keeps, lemma_sorted_by, lemma_sorted_was_there};
use crate::text::byte_count;

verus! {

/// Nothing that needs the user is left out: every input that waits is in the item of its question,
/// and every open write has an item of its own.
pub proof fn law_attention_leaves_nothing_out(
    items: Seq<AttentionItem>,
    records: Seq<WaitingRecord>,
    writes: Seq<UnresolvedWriteView>,
    waiting: int,
    write: int,
)
    requires
        is_attention(items, records, writes),
    ensures
        0 <= waiting < records.len() ==> exists|i: int| {
            &&& 0 <= i < items.len()
            &&& #[trigger] items[i]@ matches AttentionItemView::WaitingForUser {
                session,
                inputs,
                runtime,
                question,
                ..
            }
            &&& session == records[waiting].session
            &&& runtime == records[waiting].runtime
            &&& question.record == records[waiting].question.record
            &&& inputs.contains(records[waiting].input)
        },
        0 <= write < writes.len() ==> exists|i: int| {
            &&& 0 <= i < items.len()
            &&& #[trigger] items[i]@ matches AttentionItemView::UnresolvedWrite {
                session,
                call,
                status,
            }
            &&& session == writes[write].session
            &&& call == writes[write].call
            &&& status == writes[write].status
        },
{
    let groups = choose|groups: Seq<WaitingGroupView>| #[trigger]
        groups_records(groups, records) && item_views(items) == attention_views(groups, writes);
    let views = item_views(items);
    assert(items.len() == views.len());
    if 0 <= waiting < records.len() {
        let record = records[waiting];
        let g = choose|g: int| 0 <= g < groups.len() && (#[trigger] groups[g]).id == group_id(record);
        assert(is_group(groups[g], records));
        let keep = |other: WaitingRecord| group_id(other) == group_id(record);
        let own = members(records, group_id(record));
        assert(own == records.filter(keep));
        records.lemma_filter_contains(keep, waiting);
        let n = choose|n: int| 0 <= n < own.len() && own[n] == record;
        let numbers = own.map_values(|record: WaitingRecord| record.input);
        assert(numbers[n] == record.input);
        lemma_sorting_keeps(numbers, number_of(), n);
        lemma_filter_keeps(records, keep, 0);
        assert(views[g] == question_item(groups[g]));
        assert(items[g]@ == views[g]);
    }
    if 0 <= write < writes.len() {
        let i = groups.len() + write;
        assert(views[i] == write_item(writes[write]));
        assert(items[i]@ == views[i]);
    }
}

/// Every item has its reason: a question that its inputs wait for, in a runtime of the session that
/// the item names, or an open write.
pub proof fn law_attention_has_its_reasons(
    items: Seq<AttentionItem>,
    records: Seq<WaitingRecord>,
    writes: Seq<UnresolvedWriteView>,
    i: int,
)
    requires
        is_attention(items, records, writes),
        0 <= i < items.len(),
    ensures
        items[i]@ matches AttentionItemView::WaitingForUser {
            session,
            inputs,
            runtime,
            question,
            text,
        } ==> {
            &&& inputs.len() > 0
            &&& exists|n: int| 0 <= n < records.len() && (#[trigger] records[n]).question == question
                && records[n].text == text && records[n].session == session && records[n].runtime
                == runtime
            &&& forall|k: int|
                0 <= k < inputs.len() ==> exists|n: int|
                    0 <= n < records.len() && (#[trigger] records[n]).input == #[trigger] inputs[k]
                        && records[n].session == session && records[n].runtime == runtime
                        && records[n].question.record == question.record
        },
        items[i]@ matches AttentionItemView::UnresolvedWrite { session, call, status }
            ==> exists|n: int|
            0 <= n < writes.len() && (#[trigger] writes[n]).session == session && writes[n].call
                == call && writes[n].status == status,
{
    let groups = choose|groups: Seq<WaitingGroupView>| #[trigger]
        groups_records(groups, records) && item_views(items) == attention_views(groups, writes);
    let views = item_views(items);
    assert(items.len() == views.len());
    assert(items[i]@ == views[i]);
    if i < groups.len() {
        let group = groups[i];
        assert(is_group(group, records));
        let own = members(records, group.id);
        let keep = |other: WaitingRecord| group_id(other) == group.id;
        assert(own == records.filter(keep));
        lemma_filter_keeps(records, keep, 0);
        let numbers = own.map_values(|record: WaitingRecord| record.input);
        lemma_sorted_by(numbers, number_of());
        let inputs = group.inputs;
        assert forall|k: int| 0 <= k < inputs.len() implies exists|n: int|
            0 <= n < records.len() && (#[trigger] records[n]).input == #[trigger] inputs[k]
                && records[n].session == group.id.session && records[n].runtime
                == group.id.runtime && records[n].question.record == group.question.record by {
            lemma_sorted_was_there(numbers, number_of(), k);
            let m = choose|m: int| 0 <= m < numbers.len() && numbers[m] == inputs[k];
            lemma_filter_keeps(records, keep, m);
            let n = choose|n: int| 0 <= n < records.len() && records[n] == own[m];
            assert(records[n].input == inputs[k]);
        }
    } else {
        let n = i - groups.len();
        assert(views[i] == write_item(writes[n]));
    }
}

/// A session is summed up by what is known of it, the size of its draft, the runtime that is noted
/// for it and the end of its history.
pub proof fn law_summaries_are_true(store: StoreView, key: DocumentKey)
    requires
        store.history(store.sessions[key].info.id).len() <= u64::MAX,
        byte_count(store.sessions[key].draft@) <= u64::MAX,
    ensures
        ({
            let summary = store.session_summary(key);
            let saved = store.sessions[key];
            &&& summary.session == saved.info
            &&& summary.has_draft == (saved.draft@.len() != 0)
            &&& summary.draft_bytes == byte_count(saved.draft@)
            &&& (summary.persisted_runtime is Some) == (saved.runtime is Some)
            &&& saved.runtime is Some ==> summary.persisted_runtime == Some(saved.runtime->0.id)
            &&& summary.history_through.0 == store.history(saved.info.id).len()
        }),
{
}

/// An overview is of the workspace that was asked for, sums up each of its listed sessions, and
/// shows exactly the attention items and open writes that are collected for it. It says whether
/// collecting goes on.
pub proof fn law_overview_shows_the_workspace(
    before: StoreView,
    workspace: WorkspaceInfo,
    after: StoreView,
    r: Result<WorkspaceOverview, StoreError>,
)
    requires
        shows_overview(before, workspace, after, r),
        r is Ok,
    ensures
        ({
            let overview = r->Ok_0;
            let listed = after.listed_sessions(workspace.id);
            &&& overview.workspace == workspace
            &&& overview.sessions@.len() == listed.len()
            &&& forall|i: int|
                0 <= i < listed.len() ==> (#[trigger] overview.sessions@[i]).session
                    == after.sessions[listed[i]].info
            &&& is_attention(
                overview.attention@,
                after.waiting_records(workspace.id),
                overview.unresolved_writes@,
            )
            &&& forall|write: UnresolvedWriteView| #[trigger]
                overview.unresolved_writes@.contains(write) ==> write.workspace == workspace.id
            &&& after.attention_state matches Some(state) ==> overview.attention_projection_pending
                == !(state.inputs_complete && state.writes_complete)
        }),
{
    let overview = r->Ok_0;
    let writes = after.attention_writes(workspace.id);
    let key = crate::persistence::writes::call_of();
    assert forall|write: UnresolvedWriteView| #[trigger]
        overview.unresolved_writes@.contains(write) implies write.workspace == workspace.id by {
        let i = choose|i: int|
            0 <= i < overview.unresolved_writes@.len() && overview.unresolved_writes@[i] == write;
        lemma_sorted_was_there(writes, key, i);
        let n = choose|n: int| 0 <= n < writes.len() && writes[n] == write;
        assert(writes[n].workspace == workspace.id);
    }
}

/// Questions are shown in the order of their sessions, those of a session in the order of its
/// runtimes, and those of a runtime in the order in which they were asked. The inputs that wait for
/// a question stand in the order in which they were submitted.
pub proof fn law_questions_are_in_order(
    groups: Seq<WaitingGroupView>,
    records: Seq<WaitingRecord>,
    i: int,
    j: int,
    a: int,
    b: int,
)
    requires
        groups_records(groups, records),
        0 <= i < j < groups.len(),
        0 <= a < b < groups[i].inputs.len(),
    ensures
        groups[i].id.session.0 <= groups[j].id.session.0,
        groups[i].id.session == groups[j].id.session ==> groups[i].id.runtime.0
            <= groups[j].id.runtime.0,
        groups[i].id.session == groups[j].id.session && groups[i].id.runtime == groups[j].id.runtime
            ==> groups[i].id.record < groups[j].id.record,
        groups[i].inputs[a].0 <= groups[i].inputs[b].0,
{
    assert(groups[i].id.precedes(groups[j].id));
    assert(is_group(groups[i], records));
    let inputs = members(records, groups[i].id).map_values(|record: WaitingRecord| record.input);
    lemma_sorted_by(inputs, number_of());
    assert(number_of()(groups[i].inputs[a]) <= number_of()(groups[i].inputs[b]));
}

} // verus!

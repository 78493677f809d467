//! What the durable data shows of results and of the sources that they cite.

use vstd::prelude::*;
use vstd::utf8::encode_utf8;

use crate::api::{
    EvidenceAvailability, EvidenceCursor, EvidencePage, EvidenceRef, EvidenceSourceKind,
    HistoryCursor, JobRef, ResultArtifact, ResultPage, ResultRef, ResultSummary, SessionSeq,
};
use crate::document::{law_listings_are_complete, last_of, listing, DocumentKey};
use crate::error::StoreError;
use crate::ids::{RuntimeId, SessionId};
use crate::persistence::evidence::{
    law_page_is_part_of_body, metadata_of, reads_page, StoredEvidencePage,
};
use crate::persistence::keys::{evidence_key, result_key, session_key};
use crate::persistence::laws::lemma_sorting_keeps;
use crate::persistence::projection::{result_at, source_of, SourceView};
use crate::persistence::results::{
    gives_artifact, gives_result, pages_evidence, pages_results, results_before, version_of,
};
use crate::persistence::{
    texts, ProjectionState, StoreView, StoredEventView, StoredEvidenceMetadataView,
};
use crate::record::{RecordBodyView, RecordView};
use crate::seqs::{lemma_sorted_by, lemma_sorted_was_there, sorted_by};

verus! {

/// A result is what the agent concluded: its job under the record's runtime, its kind, its summary,
/// what remains, and the records that it cites, in their order. No other record is a result.
pub proof fn law_results_are_what_was_concluded(
    session: SessionId,
    version: SessionSeq,
    runtime: RuntimeId,
    record: RecordView,
)
    ensures
        ({
            let made = result_at(session, version, StoredEventView::Agent { runtime, record });
            &&& (made is Some) == (record.body is Outcome)
            &&& record.body matches RecordBodyView::Outcome {
                job,
                kind,
                summary,
                remaining,
                evidence,
            } ==> {
                let result = made->0;
                &&& result.result.session == session
                &&& result.result.version == version
                &&& result.result.job == (JobRef { runtime, id: job })
                &&& result.outcome == kind
                &&& result.summary == summary@
                &&& result.remaining == texts(remaining)
                &&& result.evidence.len() == evidence.len()
                &&& forall|i: int| #![trigger evidence[i]]
                    0 <= i < evidence.len() ==> result.evidence[i] == (EvidenceRef {
                        session,
                        record: evidence[i],
                    })
            }
        }),
{
}

/// A collected result is given back as it is stored, to the reference that names it. A result that
/// is not collected yet is read from its place in the history. Where there is none, or where
/// another job's result has that place, nothing is given.
pub proof fn law_results_are_given_back(
    store: StoreView,
    result: ResultRef,
    r: Result<Option<ResultSummary>, StoreError>,
    artifact: Result<Option<ResultArtifact>, StoreError>,
)
    requires
        gives_result(store, result, r),
        gives_artifact(store, result, artifact),
    ensures
        ({
            let key = result_key(result.session, result.version);
            let kept = store.results[key];
            let place = result.version.0 - 1;
            let history = store.history(result.session);
            &&& store.results.dom().contains(key) && kept.result == result ==> {
                &&& r matches Ok(Some(found))
                &&& found.result == result
                &&& found.outcome == kept.outcome
                &&& found.summary@ == kept.summary
                &&& texts(found.remaining@) == kept.remaining
                &&& artifact matches Ok(Some(whole))
                &&& whole.result == result
                &&& whole.outcome == kept.outcome
                &&& whole.summary@ == kept.summary
                &&& texts(whole.remaining@) == kept.remaining
                &&& whole.evidence_count == kept.evidence.len()
            }
            &&& store.results.dom().contains(key) && kept.result != result ==> r is Err
                && artifact is Err
            &&& !store.results.dom().contains(key) && 0 <= place < history.len() ==> (
            history[place].event matches StoredEventView::Agent { runtime, record } ==> {
                let own = record.body is Outcome && result.job == (JobRef {
                    runtime,
                    id: record.body->Outcome_job,
                });
                &&& own ==> {
                    &&& r matches Ok(Some(found))
                    &&& found.result == result
                    &&& found.outcome == record.body->Outcome_kind
                    &&& found.summary@ == record.body->Outcome_summary@
                    &&& texts(found.remaining@) == texts(record.body->Outcome_remaining)
                    &&& artifact matches Ok(Some(whole))
                    &&& whole.evidence_count == record.body->Outcome_evidence.len()
                }
                &&& !own ==> (r matches Ok(None))
            })
            &&& !store.results.dom().contains(key) && !(0 <= place < history.len())
                ==> (r matches Ok(None))
        }),
{
}

/// A page of results loses nothing. It shows the newest results before its end, in the order of
/// their places and with what is stored of each, at least one and at most as many as asked for. Any
/// older one is before the page's older cursor, which is there exactly where something is left out.
pub proof fn law_result_pages_lose_nothing(
    before: StoreView,
    session: SessionId,
    cursor: Option<HistoryCursor>,
    limit: usize,
    after: StoreView,
    r: Result<ResultPage, StoreError>,
    key: DocumentKey,
)
    requires
        pages_results(before, session, cursor, limit, after, r),
        r is Ok,
        after.results.dom().finite(),
        forall|k: DocumentKey| #[trigger]
            after.results.dom().contains(k) ==> k == result_key(
                SessionId(k.owner),
                after.results[k].result.version,
            ),
        after.results.dom().contains(key),
        key.owner == session.0,
        cursor matches Some(c) ==> after.results[key].result.version.0 < c.before.0,
        cursor is None ==> after.results[key].result.version.0 <= after.history(session).len(),
        after.history(session).len() < u64::MAX,
    ensures
        ({
            let page = r->Ok_0;
            let shown = exists|i: int| {
                &&& 0 <= i < page.items@.len()
                &&& (#[trigger] page.items@[i]).result == after.results[key].result
                &&& page.items@[i].outcome == after.results[key].outcome
                &&& page.items@[i].summary@ == after.results[key].summary
                &&& texts(page.items@[i].remaining@) == after.results[key].remaining
            };
            &&& shown || (page.older_cursor matches Some(older) && older.session == session
                && after.results[key].result.version.0 < older.before.0)
            &&& page.items@.len() <= (if limit == 0 { 1 } else { limit as int })
            &&& page.items@.len() > 0
            &&& page.older_cursor is None ==> shown
        }),
{
    let (store, pending) = before.result_backfill(session)->Ok_0;
    let (end, through) = after.results_end(session, cursor)->Ok_0;
    let range = results_before(session, end);
    let all = listing(after.results.dom(), range);
    law_listings_are_complete(after.results.dom(), range);
    let most = crate::persistence::history::at_least_one(limit) as nat;
    let keys = last_of(all, most);
    let show = |key: DocumentKey| after.results[key].public();
    let values = keys.map_values(show);
    let items = sorted_by(values, version_of());
    lemma_sorted_by(values, version_of());
    let page = r->Ok_0;
    assert(page@.items == items);
    assert(key == result_key(SessionId(key.owner), after.results[key].result.version));
    assert(range.admits(key));
    assert(all.contains(key));
    let at = choose|at: int| 0 <= at < all.len() && all[at] == key;
    let left = all.len() - keys.len();
    if at >= left {
        assert(keys[at - left] == key);
        lemma_sorting_keeps(values, version_of(), at - left);
        let i = choose|i: int| 0 <= i < items.len() && items[i] == values[at - left];
        assert(page@.items[i] == page.items@[i]@);
        assert(page.items@[i].result == after.results[key].result);
    } else {
        assert(all.len() > most);
        lemma_sorted_was_there(values, version_of(), 0);
        let n = choose|n: int| 0 <= n < values.len() && values[n] == items[0];
        assert(keys[n] == all[left + n]);
        assert(all.contains(keys[n]));
        assert(after.results.dom().contains(keys[n]));
        assert(keys[n] == result_key(SessionId(keys[n].owner), after.results[keys[n]].result.version));
        assert(all[at].precedes(all[left + n]));
        assert(items[0].result.version == after.results[keys[n]].result.version);
    }
}

/// The sources of a record are what was recorded: a published report and a reply with their text,
/// the failure of a tool with its message, under the name of the tool. Nothing of any other record
/// is shown.
pub proof fn law_sources_are_what_was_recorded(record: RecordView)
    ensures
        ({
            let source = source_of(record);
            &&& record.body matches RecordBodyView::Reply { text, .. } ==> source
                == (SourceView::Public {
                kind: EvidenceSourceKind::Reply,
                title: "Reply"@,
                body: text@,
            })
            &&& record.body matches RecordBodyView::Published { summary } ==> source
                == (SourceView::Public {
                kind: EvidenceSourceKind::PublishedReport,
                title: "Published report"@,
                body: summary@,
            })
            &&& record.body matches RecordBodyView::ToolFinished { tool, outcome, .. } ==> {
                &&& source matches SourceView::Public { kind, title, body }
                &&& kind == EvidenceSourceKind::ToolResult
                &&& title == tool@
                &&& outcome.result matches Err(message) ==> body == message@
            }
            &&& !(record.body is Reply) && !(record.body is Published)
                && !(record.body is ToolFinished) ==> source is Private
        }),
{
}

/// A page of a stored source is a part of its text: what is read begins at the offset, is whole
/// characters, and the next page begins where this one ends, up to the end of the text. Nothing is
/// read of a private source, nor of one that is not stored.
pub proof fn law_source_pages_are_parts_of_the_text(
    store: StoreView,
    source: EvidenceRef,
    content: SourceView,
    offset: u64,
    max_bytes: usize,
    after: StoreView,
    r: Result<Option<StoredEvidencePage>, StoreError>,
)
    requires
        reads_page(store.with_source(source, content), source, offset, max_bytes, after, r),
        content is Public ==> encode_utf8(content->Public_body).len() <= usize::MAX,
    ensures
        r is Ok ==> {
            let text = encode_utf8(content->Public_body);
            &&& r matches Ok(Some(page))
            &&& content is Private ==> page.text is None && page.next_offset is None
            &&& content is Public ==> {
                &&& page.text matches Some(part)
                &&& page.offset == offset
                &&& offset + encode_utf8(part@).len() <= text.len()
                &&& encode_utf8(part@) == text.subrange(
                    offset as int,
                    offset + encode_utf8(part@).len(),
                )
                &&& page.next_offset is None ==> offset + encode_utf8(part@).len() == text.len()
                &&& page.next_offset matches Some(next) ==> next == offset + encode_utf8(
                    part@,
                ).len() && next < text.len()
                &&& page.metadata@ matches StoredEvidenceMetadataView::Public {
                    kind,
                    title,
                    byte_len,
                    ..
                }
                &&& kind == content->Public_kind
                &&& title == content->Public_title
                &&& byte_len == text.len()
            }
        },
{
    let kept = store.with_source(source, content);
    let key = evidence_key(source);
    reveal_with_fuel(crate::persistence::evidence::migrate, 2);
    assert(seq![source].drop_last() =~= Seq::<EvidenceRef>::empty());
    assert(kept.evidence_metadata.dom().contains(key));
    assert(after == kept);
    assert(after.evidence_metadata[key] == metadata_of(content));
    if content is Public {
        law_page_is_part_of_body(
            store,
            source,
            content,
            offset,
            crate::persistence::evidence::page_budget(max_bytes),
        );
    }
}

/// A source that was never stored cannot be read: there is no page of it, and it is shown as
/// missing.
pub proof fn law_unknown_sources_are_missing(
    store: StoreView,
    source: EvidenceRef,
    offset: u64,
    max_bytes: usize,
    after: StoreView,
    r: Result<Option<StoredEvidencePage>, StoreError>,
)
    requires
        reads_page(store, source, offset, max_bytes, after, r),
        !store.evidence_metadata.dom().contains(evidence_key(source)),
        !store.evidence_sources.dom().contains(evidence_key(source)),
    ensures
        r matches Ok(None),
        after == store,
        store.availability(source) is Missing,
{
    reveal_with_fuel(crate::persistence::evidence::migrate, 2);
    assert(seq![source].drop_last() =~= Seq::<EvidenceRef>::empty());
}

/// A source can be shown exactly where it is stored and not private; then its kind and title are
/// given.
pub proof fn law_stored_sources_can_be_shown(store: StoreView, source: EvidenceRef, content: SourceView)
    ensures
        ({
            let after = store.with_source(source, content);
            &&& content is Private ==> after.availability(source) is Private
            &&& content matches SourceView::Public { kind, title, .. } ==> after.availability(source)
                == (crate::persistence::results::EvidenceAvailabilityView::Available { kind, title })
        }),
{
}

/// A page of the sources of a result shows the sources that the result cites, from the cursor on and
/// in their order, at least one where there is one and at most as many as asked for. The next cursor
/// is there exactly where sources are left, and begins with the first of them: pages leave no source
/// out and show none twice.
pub proof fn law_source_lists_lose_nothing(
    before: StoreView,
    result: ResultRef,
    cursor: Option<EvidenceCursor>,
    limit: usize,
    after: StoreView,
    r: Result<Option<EvidencePage>, StoreError>,
)
    requires
        pages_evidence(before, result, cursor, limit, after, r),
        r matches Ok(Some(_)),
        ({
            let collected = before.both_backfills(result.session).0;
            let key = result_key(result.session, result.version);
            collected.results.dom().contains(key) && collected.results[key].evidence.len()
                <= usize::MAX
        }),
    ensures
        ({
            let collected = before.both_backfills(result.session).0;
            let cited = collected.results[result_key(result.session, result.version)].evidence;
            let page = r->Ok_0->0;
            let from = if cursor is Some { cursor->0.offset as int } else { 0 };
            let most = if limit == 0 { 1 } else { limit as int };
            &&& page.result == result
            &&& page.items@.len() <= most
            &&& from < cited.len() ==> page.items@.len() > 0
            &&& forall|i: int|
                0 <= i < page.items@.len() ==> from + i < cited.len() && (
                #[trigger] page.items@[i]).source == cited[from + i]
            &&& page.next_cursor is None ==> from + page.items@.len() >= cited.len()
            &&& page.next_cursor matches Some(next) ==> {
                &&& next.result == result
                &&& next.offset == from + page.items@.len()
                &&& next.offset < cited.len()
            }
        }),
{
    let page = r->Ok_0->0;
    let views = crate::persistence::results::evidence_views(page.items@);
    assert(views.len() == page.items@.len());
    let collected = before.both_backfills(result.session).0;
    let cited = collected.results[result_key(result.session, result.version)].evidence;
    let from = if cursor is Some { cursor->0.offset as int } else { 0 };
    let slice = crate::persistence::results::evidence_slice(
        cited,
        from,
        crate::persistence::history::at_least_one(limit),
    );
    assert forall|i: int| 0 <= i < page.items@.len() implies from + i < cited.len() && (
    #[trigger] page.items@[i]).source == cited[from + i] by {
        assert(views[i].0 == page.items@[i].source);
        assert(views[i].0 == slice[i]);
    }
}

/// Every source on a page is shown as it is stored when the page is given: with its kind and title
/// where it is public, as private or as missing else.
pub proof fn law_listed_sources_are_shown_as_stored(
    before: StoreView,
    result: ResultRef,
    cursor: Option<EvidenceCursor>,
    limit: usize,
    after: StoreView,
    r: Result<Option<EvidencePage>, StoreError>,
    i: int,
)
    requires
        pages_evidence(before, result, cursor, limit, after, r),
        r matches Ok(Some(page)) && 0 <= i < page.items@.len(),
    ensures
        ({
            let item = r->Ok_0->0.items@[i];
            let key = evidence_key(item.source);
            let stored = after.evidence_metadata.dom().contains(key);
            &&& (item.availability is Missing) == !stored
            &&& stored ==> ((item.availability is Private) == (after.evidence_metadata[key]
                is Private))
            &&& stored ==> (after.evidence_metadata[key] matches StoredEvidenceMetadataView::Public {
                kind,
                title,
                ..
            } ==> (item.availability matches EvidenceAvailability::Available {
                kind: shown_kind,
                title: shown_title,
            } && shown_kind == kind && shown_title@ == title))
        }),
{
    let page = r->Ok_0->0;
    let views = crate::persistence::results::evidence_views(page.items@);
    assert(views[i] == (page.items@[i].source, page.items@[i].availability@));
    let (collected, outcome) = before.both_backfills(result.session);
    let slice = crate::persistence::results::evidence_slice(
        collected.find_result(result)->Ok_0->0.evidence,
        if cursor is Some { cursor->0.offset as int } else { 0 },
        crate::persistence::history::at_least_one(limit),
    );
    let migration = crate::persistence::evidence::migrate(collected, slice);
    let show = |source: EvidenceRef| (source, migration.store.availability(source));
    assert(views =~= slice.map_values(show));
    assert(views[i] == show(slice[i]));
    assert(after == migration.store);
}

/// A step of collecting older results takes up one window of the history, the last that was not
/// taken up: every result in it is then stored under its place, as it was concluded. Results that
/// were collected stay, and nothing but results changes. It says that it goes on exactly while
/// something before the window is left.
pub proof fn law_collecting_takes_up_the_last_window(
    store: StoreView,
    session: SessionId,
    state: ProjectionState,
    place: int,
)
    requires
        store.result_projections.dom().contains(session_key(session)),
        state == store.result_projections[session_key(session)],
        !state.complete,
        1 <= state.before.0 <= state.snapshot_through.0 + 1,
        state.snapshot_through.0 <= store.history(session).len(),
        store.history(session).len() < u64::MAX,
        store.result_backfill(session) is Ok,
        state.before.0 - 1 - 256 <= place < state.before.0 - 1,
        0 <= place,
    ensures
        ({
            let (after, pending) = store.result_backfill(session)->Ok_0;
            let end = state.before.0 - 1;
            let start = if end > 256 { end - 256 } else { 0 };
            let key = result_key(session, SessionSeq((place + 1) as u64));
            let next = after.result_projections[session_key(session)];
            &&& store.history(session)[place].event matches StoredEventView::Agent { runtime, record }
                ==> record.body is Outcome ==> {
                &&& after.results.dom().contains(key)
                &&& after.results[key].result.version.0 == place + 1
                &&& after.results[key].result.session == session
                &&& after.results[key].result.job == (JobRef {
                    runtime,
                    id: record.body->Outcome_job,
                })
                &&& after.results[key].outcome == record.body->Outcome_kind
                &&& after.results[key].summary == record.body->Outcome_summary@
                &&& after.results[key].remaining == texts(record.body->Outcome_remaining)
                &&& after.results[key].evidence.len() == record.body->Outcome_evidence.len()
            }
            &&& next.snapshot_through == state.snapshot_through
            &&& next.before.0 == start + 1
            &&& next.complete == (start == 0)
            &&& pending == (start != 0)
            &&& after == (StoreView {
                results: after.results,
                result_projections: after.result_projections,
                ..store
            })
        }),
{
    let end = state.before.0 - 1;
    let start = if end > 256 { end - 256 } else { 0 };
    assert(crate::persistence::results::step_bounds(store.history(session).len() as int, state) == (
        start,
        end,
    ));
    lemma_collected(store, session, start, end, place);
}

/// The results between two places are stored under their places.
proof fn lemma_collected(store: StoreView, session: SessionId, from: int, to: int, place: int)
    requires
        0 <= from <= place,
        to < u64::MAX,
    ensures
        ({
            let after = store.with_results(session, from, to);
            let found = result_at(
                session,
                SessionSeq((place + 1) as u64),
                store.history(session)[place].event,
            );
            let key = result_key(session, SessionSeq((place + 1) as u64));
            &&& place < to && found is Some ==> after.results.dom().contains(key)
                && after.results[key] == found->0
            &&& after == (StoreView { results: after.results, ..store })
        }),
    decreases to - from,
{
    if from < to {
        lemma_collected(store, session, from, to - 1, place);
        if place < to - 1 {
            let last = result_key(session, SessionSeq(to as u64));
            assert(last.number == to);
        }
    }
}

/// Where results and sources are both to be collected, something is left to collect as long as one
/// of them has something left.
pub proof fn law_both_are_collected_in_the_end(store: StoreView, session: SessionId)
    ensures
        ({
            let (after, pending) = store.both_backfills(session);
            let results = store.result_backfill(session);
            &&& results matches Err(error) ==> after == store && pending == Err::<bool, StoreError>(
                error,
            )
            &&& results matches Ok((between, first)) ==> (match between.evidence_backfill(
                session,
            ) {
                Err(error) => after == between && pending == Err::<bool, StoreError>(error),
                Ok((last, second)) => after == last && (pending matches Ok(left) && (left <==> first
                    || second)),
            })
        }),
{
}

} // verus!

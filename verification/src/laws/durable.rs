//! What journals, session records and the registry of workspaces promise.

use vstd::prelude::*;
use vstd::utf8::{encode_utf8, is_char_boundary};

use crate::durable::error::{
    JournalError, RecordError, RegistryError, SessionLeaseError, SessionStoreError, WorkspaceError,
};
use crate::durable::journal::{
    lines_from, newline_from, read_from, JournalEntry, JournalFact, LineProblem,
};
use crate::durable::registry::{
    lookup, registry_key, registry_refused, resolved, RegistryDocument,
    WorkspaceRegistry,
};
use crate::durable::repository::{
    accepts_turn, appends_fact, creates_writer, gives_facts, gives_record, newest_first,
    opens_writer, releases, replaced, takes_draft, takes_model, takes_opening, takes_status,
    takes_title, JournalFailure, SessionStoreView, SessionWriter, StoredView,
};
use crate::durable::session::{
    starts_record, title_problem, RuntimeAttachment, SessionAttention,
    SessionAvailability, SessionDraft, SessionExecution, SessionLifecycle, SessionMetadata,
    SessionRecord, SessionRecordView, SessionStatus,
};
use crate::durable::time::UnixMillis;
use crate::durable::workspace::{
    discovers, is_discovered, makes_context, CanonicalPath, WorkspaceContext,
};
use crate::ids::{SessionId, WorkspaceId};
use crate::path::{absolute, FilePath};
use crate::persistence::keys::session_key;
use crate::config::ModelSelection;
use crate::text::{byte_count, is_blank};

verus! {

/// A text of a fact is there, and is not too long.
pub open spec fn fits(text: Seq<char>, most: int) -> bool {
    !is_blank(text) && byte_count(text) <= most
}

/// A fact is valid exactly where its texts are there and fit, and its turn is counted from one.
pub proof fn law_valid_facts_say_something(fact: JournalFact)
    ensures
        fact matches JournalFact::UserTurnAccepted {
            turn,
            text,
            effective_config_revision,
            solver_model,
        } ==> (fact.problem() is None <==> turn > 0 && fits(text@, 524_288) && fits(
            effective_config_revision@,
            256,
        ) && fits(solver_model@, 512)),
        fact matches JournalFact::UserMessageAccepted {
            text,
            effective_config_revision,
            solver_model,
        } ==> (fact.problem() is None <==> fits(text@, 524_288) && (effective_config_revision is Some
            ==> fits(effective_config_revision->0@, 256)) && (solver_model is Some ==> fits(
            solver_model->0@,
            512,
        ))),
        fact matches JournalFact::TurnStarted { turn, effective_config_revision, solver_model } ==> (
        fact.problem() is None <==> turn > 0 && fits(effective_config_revision@, 256) && fits(
            solver_model@,
            512,
        )),
        fact matches JournalFact::AssistantReply { text } ==> (fact.problem() is None <==> fits(
            text@,
            524_288,
        )),
        fact matches JournalFact::RuntimeInterrupted { reason } ==> (fact.problem() is None <==> fits(
            reason@,
            524_288,
        )),
        fact matches JournalFact::UnresolvedExternalEffect { summary } ==> (fact.problem() is None
            <==> fits(summary@, 524_288)),
        fact matches JournalFact::TurnFinished { turn, .. } ==> (fact.problem() is None <==> turn
            > 0),
{
}

/// An entry is valid exactly where its format is known, its position is counted from one, its time
/// is not before the epoch, and its fact is valid.
pub proof fn law_valid_entries_are_placed(entry: JournalEntry)
    ensures
        entry.problem() is None <==> (entry.format_version == 1 || entry.format_version == 2)
            && entry.sequence.number >= 1 && entry.occurred_at.milliseconds >= 0
            && entry.fact.problem() is None,
{
}

/// Reading a journal gives its entries in their order up to the first that is damaged: one that does
/// not decode, is not valid or stands in the wrong place. A problem is reported exactly where
/// something is left out or the tail is damaged, with its line.
pub proof fn law_reading_stops_at_the_first_damage(
    decoded: Seq<Result<JournalEntry, String>>,
    problem: Option<LineProblem>,
    index: int,
    i: int,
)
    requires
        0 <= index <= decoded.len(),
    ensures
        ({
            let read = read_from(decoded, problem, index);
            let stop = index + read.entries.len();
            &&& stop <= decoded.len()
            &&& 0 <= i < read.entries.len() ==> decoded[index + i] == Ok::<JournalEntry, String>(
                read.entries[i],
            )
            &&& read.issue is None <==> stop == decoded.len() && problem is None
            &&& read.issue matches Some((line, _)) ==> line == stop + 1
            &&& stop < decoded.len() ==> (decoded[stop] is Err || decoded[stop]->Ok_0.problem()
                is Some || decoded[stop]->Ok_0.sequence.number != stop + 1)
        }),
    decreases decoded.len() - index,
{
    if index < decoded.len() {
        law_reading_stops_at_the_first_damage(decoded, problem, index + 1, i - 1);
        let rest = read_from(decoded, problem, index + 1);
        let read = read_from(decoded, problem, index);
        if read.entries.len() > 0 && i > 0 && i < read.entries.len() {
            assert(read.entries[i] == rest.entries[i - 1]);
        }
    }
}

/// Lines put together again, each with its newline.
pub open spec fn put_together(lines: Seq<Seq<u8>>) -> Seq<u8>
    decreases lines.len(),
{
    if lines.len() == 0 {
        Seq::empty()
    } else {
        lines[0] + seq![10u8] + put_together(lines.skip(1))
    }
}

/// The lines of a journal are all of it: each is there, without a newline and within its size, and
/// together they are what was written, up to the first damage. Without damage they are everything.
pub proof fn law_lines_are_the_whole_journal(bytes: Seq<u8>, offset: int, i: int)
    requires
        0 <= offset <= bytes.len(),
    ensures
        ({
            let (lines, problem) = lines_from(bytes, offset);
            let whole = put_together(lines);
            &&& whole.len() <= bytes.len() - offset
            &&& whole == bytes.subrange(offset, offset + whole.len())
            &&& problem is None <==> whole.len() == bytes.len() - offset
            &&& 0 <= i < lines.len() ==> 0 < lines[i].len() <= 1_048_576 && !lines[i].contains(10)
        }),
    decreases bytes.len() - offset,
{
    if offset < bytes.len() {
        let end = newline_from(bytes, offset);
        lemma_newline(bytes, offset);
        if offset < end < bytes.len() && end - offset <= 1_048_576 {
            law_lines_are_the_whole_journal(bytes, end + 1, i - 1);
            let (rest, problem) = lines_from(bytes, end + 1);
            let (lines, _) = lines_from(bytes, offset);
            let first = bytes.subrange(offset, end);
            assert(lines =~= seq![first] + rest);
            assert(lines.skip(1) =~= rest);
            let tail = put_together(rest);
            let whole = put_together(lines);
            assert(whole =~= first + seq![10u8] + tail);
            assert(whole =~= bytes.subrange(offset, offset + whole.len()));
            if i == 0 {
                assert(lines[0] == first);
                assert(!first.contains(10)) by {
                    if first.contains(10) {
                        let k = choose|k: int| 0 <= k < first.len() && first[k] == 10;
                        assert(bytes[offset + k] == 10);
                    }
                }
            } else if i > 0 && i < lines.len() {
                assert(lines[i] == rest[i - 1]);
            }
        } else {
            assert(put_together(Seq::<Seq<u8>>::empty()) =~= bytes.subrange(offset, offset));
        }
    } else {
        assert(put_together(Seq::<Seq<u8>>::empty()) =~= bytes.subrange(offset, offset));
    }
}

proof fn lemma_newline(bytes: Seq<u8>, from: int)
    requires
        0 <= from <= bytes.len(),
    ensures
        from <= newline_from(bytes, from) <= bytes.len(),
        forall|i: int| from <= i < newline_from(bytes, from) ==> bytes[i] != 10,
        newline_from(bytes, from) < bytes.len() ==> bytes[newline_from(bytes, from)] == 10,
    decreases bytes.len() - from,
{
    if from < bytes.len() && bytes[from] != 10 {
        lemma_newline(bytes, from + 1);
    }
}

/// A record is valid exactly where it names a session and a workspace with an absolute path, has a
/// title that fits, times in their order, a valid model of its own if any, and a draft that fits
/// with its cursor between characters.
pub proof fn law_valid_records_are_complete(record: SessionRecordView)
    ensures
        record.problem() is None <==> {
            &&& record.id.0 != 0
            &&& record.workspace_id.0 != 0
            &&& absolute(record.canonical_workspace_path)
            &&& fits(record.metadata.title@, 512)
            &&& record.metadata.solver_model_override is Some
                ==> record.metadata.solver_model_override->0.problem() is None
            &&& 0 <= record.metadata.created_at.milliseconds
                <= record.metadata.updated_at.milliseconds
            &&& record.metadata.created_at.milliseconds
                <= record.metadata.last_opened_at.milliseconds
            &&& byte_count(record.draft.text@) <= 1_048_576
            &&& record.draft.cursor_byte_offset <= byte_count(record.draft.text@)
            &&& is_char_boundary(
                encode_utf8(record.draft.text@),
                record.draft.cursor_byte_offset as int,
            )
        },
{
}

/// A replacement that is taken is stored as it is, at the next revision, with a time of change that
/// never goes back; identity, workspace and creation stay. One that is refused changes nothing. A
/// valid replacement by the current writer is taken.
pub proof fn law_replacements_are_stored(
    before: SessionStoreView,
    after: SessionStoreView,
    writer: StoredView,
    written: StoredView,
    next: SessionRecordView,
    now: UnixMillis,
    r: Result<(), SessionStoreError>,
)
    requires
        replaced(before, after, writer, written, next, now, r),
    ensures
        ({
            let key = session_key(writer.value.id);
            &&& r is Err ==> after == before && written == writer
            &&& r is Ok ==> {
                &&& written.revision == writer.revision + 1
                &&& before.documents.dom().contains(key)
                &&& before.documents[key].revision == writer.revision
                &&& after.documents == before.documents.insert(key, written)
                &&& after == (SessionStoreView { documents: after.documents, ..before })
                &&& written.value.id == writer.value.id
                &&& written.value.workspace_id == writer.value.workspace_id
                &&& written.value.canonical_workspace_path == writer.value.canonical_workspace_path
                &&& written.value.metadata.created_at == writer.value.metadata.created_at
                &&& written.value.metadata.title == next.metadata.title
                &&& written.value.metadata.last_opened_at == next.metadata.last_opened_at
                &&& written.value.metadata.solver_model_override
                    == next.metadata.solver_model_override
                &&& written.value.draft == next.draft
                &&& written.value.status == next.status
                &&& written.value.metadata.updated_at.milliseconds
                    >= writer.value.metadata.updated_at.milliseconds
                &&& written.value.metadata.updated_at.milliseconds >= now.milliseconds
                &&& written.value.metadata.updated_at == now
                    || written.value.metadata.updated_at == writer.value.metadata.updated_at
                &&& written.value.problem() is None
            }
        }),
{
}

/// A writer that is current can replace its record with any valid one that keeps what is fixed.
pub proof fn law_current_writers_can_replace(
    before: SessionStoreView,
    after: SessionStoreView,
    writer: StoredView,
    written: StoredView,
    next: SessionRecordView,
    now: UnixMillis,
    r: Result<(), SessionStoreError>,
)
    requires
        replaced(before, after, writer, written, next, now, r),
        before.documents.dom().contains(session_key(writer.value.id)),
        before.documents[session_key(writer.value.id)].revision == writer.revision,
        writer.revision < u64::MAX,
        writer.value.problem() is None,
        next.problem() is None,
        next.id == writer.value.id,
        next.workspace_id == writer.value.workspace_id,
        next.workspace_id == before.workspace.id,
        next.canonical_workspace_path == writer.value.canonical_workspace_path,
        next.canonical_workspace_path == before.workspace.canonical_root@,
        next.metadata.created_at == writer.value.metadata.created_at,
        next.metadata.last_opened_at.milliseconds
            >= writer.value.metadata.last_opened_at.milliseconds,
        now.milliseconds >= 0,
    ensures
        r is Ok,
{
}

/// Each change of a record that is taken changes what it names and nothing else but the time of
/// change: the draft, the status, the title, the opening, the model.
pub proof fn law_record_changes_are_local(
    before: SessionStoreView,
    writer: StoredView,
    now: UnixMillis,
    draft: SessionDraft,
    drafted: (SessionStoreView, StoredView, Result<(), SessionStoreError>),
    status: SessionStatus,
    restated: (SessionStoreView, StoredView, Result<(), SessionStoreError>),
    title: String,
    retitled: (SessionStoreView, StoredView, Result<(), SessionStoreError>),
    opened_at: UnixMillis,
    opened: (SessionStoreView, StoredView, Result<(), SessionStoreError>),
    selection: Option<ModelSelection>,
    chosen: (SessionStoreView, StoredView, Result<(), SessionStoreError>),
)
    requires
        takes_draft(before, writer, draft, now, drafted.0, drafted.1, drafted.2),
        takes_status(before, writer, status, now, restated.0, restated.1, restated.2),
        takes_title(before, writer, title, now, retitled.0, retitled.1, retitled.2),
        takes_opening(before, writer, opened_at, now, opened.0, opened.1, opened.2),
        takes_model(before, writer, selection, now, chosen.0, chosen.1, chosen.2),
    ensures
        ({
            let old_value = writer.value;
            let timed = |value: SessionRecordView| SessionRecordView {
                metadata: SessionMetadata {
                    updated_at: old_value.metadata.updated_at,
                    ..value.metadata
                },
                ..value
            };
            &&& drafted.2 is Ok ==> timed(drafted.1.value) == (SessionRecordView {
                draft,
                ..old_value
            })
            &&& restated.2 is Ok ==> timed(restated.1.value) == (SessionRecordView {
                status,
                ..old_value
            })
            &&& retitled.2 is Ok ==> timed(retitled.1.value) == (SessionRecordView {
                metadata: SessionMetadata { title, ..old_value.metadata },
                ..old_value
            })
            &&& opened.2 is Ok ==> timed(opened.1.value) == (SessionRecordView {
                metadata: SessionMetadata { last_opened_at: opened_at, ..old_value.metadata },
                ..old_value
            })
            &&& chosen.2 is Ok ==> timed(chosen.1.value) == (SessionRecordView {
                metadata: SessionMetadata {
                    solver_model_override: selection,
                    ..old_value.metadata
                },
                ..old_value
            })
            &&& drafted.2 is Err ==> drafted.0 == before && drafted.1 == writer
            &&& restated.2 is Err ==> restated.0 == before && restated.1 == writer
            &&& retitled.2 is Err ==> retitled.0 == before && retitled.1 == writer
            &&& opened.2 is Err ==> opened.0 == before && opened.1 == writer
            &&& chosen.2 is Err ==> chosen.0 == before && chosen.1 == writer
            &&& draft.problem() is Some ==> drafted.2 is Err
            &&& selection is Some && selection->0.problem() is Some ==> chosen.2 is Err
            &&& opened_at.milliseconds < old_value.metadata.last_opened_at.milliseconds
                ==> opened.2 is Err
        }),
{
}

/// A valid fact becomes the next entry of the session's journal, with the time and the position
/// behind the entries before it, which stay. An invalid one changes nothing.
pub proof fn law_facts_are_appended(
    before: SessionStoreView,
    writer: StoredView,
    fact: JournalFact,
    now: UnixMillis,
    after: SessionStoreView,
    r: Result<JournalEntry, JournalError>,
)
    requires
        appends_fact(before, writer, fact, now, after, r),
        before.facts(writer.value.id).len() < u64::MAX,
    ensures
        ({
            let id = writer.value.id;
            &&& (r is Ok) == (fact.problem() is None)
            &&& r is Err ==> after == before
            &&& r matches Ok(entry) ==> {
                &&& entry.fact == fact
                &&& entry.occurred_at == now
                &&& entry.format_version == 2
                &&& entry.sequence.number == before.facts(id).len() + 1
                &&& after.facts(id) == before.facts(id).push(entry)
                &&& after.documents == before.documents
                &&& after.leases == before.leases
            }
        }),
{
}

/// A turn is accepted whole or not at all: the record is replaced and the fact is appended, or
/// nothing changes.
pub proof fn law_turns_are_accepted_whole(
    before: SessionStoreView,
    writer: StoredView,
    next: SessionRecordView,
    fact: JournalFact,
    now: UnixMillis,
    after: SessionStoreView,
    written: StoredView,
    r: Result<JournalEntry, SessionStoreError>,
)
    requires
        accepts_turn(before, writer, next, fact, now, after, written, r),
        before.facts(writer.value.id).len() < u64::MAX,
    ensures
        ({
            let id = writer.value.id;
            &&& r is Err ==> after == before && written == writer
            &&& fact.problem() is Some ==> r is Err
            &&& r matches Ok(entry) ==> {
                &&& entry.fact == fact
                &&& entry.sequence.number == before.facts(id).len() + 1
                &&& after.facts(id) == before.facts(id).push(entry)
                &&& written.revision == writer.revision + 1
                &&& written.value.draft == next.draft
                &&& written.value.status == next.status
                &&& after.documents[session_key(id)] == written
            }
        }),
{
}

/// A created session is stored with its title, the time and an empty draft, and is held by its
/// writer. One that is there or held is not created again.
pub proof fn law_created_records_are_held(
    before: SessionStoreView,
    id: SessionId,
    title: String,
    now: UnixMillis,
    after: SessionStoreView,
    r: Result<Option<SessionWriter>, SessionStoreError>,
)
    requires
        creates_writer(before, id, title, now, after, r),
    ensures
        ({
            let key = session_key(id);
            let taken = before.leases.dom().contains(key) || before.documents.dom().contains(key);
            &&& !(r matches Ok(Some(_))) ==> after == before
            &&& r is Ok && taken ==> (r matches Ok(None))
            &&& r is Ok && !taken ==> {
                &&& r matches Ok(Some(writer))
                &&& after.documents == before.documents.insert(key, writer@)
                &&& after.leases.dom() == before.leases.dom().insert(key)
                &&& after.journals == before.journals
                &&& writer@.revision == 1
                &&& writer@.value.id == id
                &&& writer@.value.workspace_id == before.workspace.id
                &&& writer@.value.canonical_workspace_path == before.workspace.canonical_root@
                &&& writer@.value.metadata.title == title
                &&& writer@.value.metadata.created_at == now
                &&& writer@.value.metadata.updated_at == now
                &&& writer@.value.metadata.last_opened_at == now
                &&& writer@.value.metadata.solver_model_override is None
                &&& writer@.value.draft.text@.len() == 0
            }
            &&& fits(title@, 512) && now.milliseconds >= 0 && id.0 != 0 && before.workspace.id.0 != 0
                && absolute(before.workspace.canonical_root@) ==> r is Ok
        }),
{
    let key = session_key(id);
    if r matches Ok(Some(_)) {
        assert(after.leases.dom() =~= before.leases.dom().insert(key));
    }
}

/// A session has one writer at a time: it can be opened where nobody holds it, and again only after
/// it was released. The writer has what is stored.
pub proof fn law_a_session_has_one_writer(
    before: SessionStoreView,
    id: SessionId,
    after: SessionStoreView,
    r: Result<SessionWriter, SessionLeaseError>,
    again: SessionStoreView,
    second: Result<SessionWriter, SessionLeaseError>,
    writer: StoredView,
    released: SessionStoreView,
)
    requires
        opens_writer(before, id, after, r),
        r is Ok,
        opens_writer(after, id, again, second),
        writer.value.id == id,
        releases(after, writer, released),
    ensures
        !before.leases.dom().contains(session_key(id)),
        r->Ok_0@ == before.documents[session_key(id)],
        after.documents == before.documents,
        after.journals == before.journals,
        second is Err,
        again == after,
        !released.leases.dom().contains(session_key(id)),
        released.documents == after.documents,
        released.journals == after.journals,
{
}

/// A record is given as it is stored, and its facts too; nothing for a session that is not there.
pub proof fn law_records_are_given_as_stored(
    store: SessionStoreView,
    id: SessionId,
    r: Result<Option<SessionRecord>, SessionStoreError>,
    facts: Result<Vec<JournalEntry>, JournalFailure>,
)
    requires
        gives_record(store, id, r),
        gives_facts(store, id, facts),
    ensures
        ({
            let key = session_key(id);
            &&& !store.documents.dom().contains(key) ==> (r matches Ok(None)) && facts is Err
            &&& r matches Ok(Some(record)) ==> record@ == store.documents[key].value && record@.id
                == id && record@.workspace_id == store.workspace.id
            &&& facts matches Ok(entries) ==> entries@ == store.facts(id)
            &&& store.documents.dom().contains(key) && store.documents[key].value.problem() is None
                && store.documents[key].value.id == id && store.documents[key].value.workspace_id
                == store.workspace.id && store.documents[key].value.canonical_workspace_path
                == store.workspace.canonical_root@ ==> r is Ok && facts is Ok
        }),
{
}

/// Records that come newest first come by the time of their last opening, then of their last change.
pub proof fn law_newest_records_come_first(records: Seq<SessionRecordView>, i: int, j: int)
    requires
        newest_first(records),
        0 <= i < j < records.len(),
    ensures
        records[i].metadata.last_opened_at.milliseconds
            >= records[j].metadata.last_opened_at.milliseconds,
        records[i].metadata.last_opened_at.milliseconds
            == records[j].metadata.last_opened_at.milliseconds
            ==> records[i].metadata.updated_at.milliseconds
            >= records[j].metadata.updated_at.milliseconds,
{
}

/// A registry is taken exactly where its format is known, it is not too large, and every entry has an
/// identity and a key of this registry.
pub proof fn law_usable_registries_are_taken(
    document: RegistryDocument,
    r: Result<(), RegistryError>,
)
    requires
        registry_refused(document, r),
    ensures
        r is Ok <==> document.format_version == 1 && document.workspaces@.len() <= 100_000 && forall|
            i: int,
        |
            0 <= i < document.workspaces@.len() ==> (#[trigger] document.workspaces@[i]).id.0 != 0
                && crate::text::has_prefix(document.workspaces@[i].key@, "workspace/v1/"@),
{
    if r is Ok {
        assert forall|i: int| 0 <= i < document.workspaces@.len() implies (
        #[trigger] document.workspaces@[i]).id.0 != 0 && crate::text::has_prefix(
            document.workspaces@[i].key@,
            "workspace/v1/"@,
        ) by {
            assert(crate::durable::registry::usable(document.workspaces@[i]));
        }
    } else if document.format_version == 1 && document.workspaces@.len() <= 100_000 {
        let i = choose|i: int|
            0 <= i < document.workspaces@.len() && !crate::durable::registry::usable(
                #[trigger] document.workspaces@[i],
            );
        assert(!(document.workspaces@[i].id.0 != 0 && crate::text::has_prefix(
            document.workspaces@[i].key@,
            "workspace/v1/"@,
        )));
    }
}

/// A root that the registry knows keeps its identity and changes nothing; a new one gets the fresh
/// identity, and every other entry stays. Only a full registry refuses.
pub proof fn law_roots_keep_their_identity(
    before: WorkspaceRegistry,
    after: WorkspaceRegistry,
    root: Seq<u8>,
    fresh: WorkspaceId,
    r: Result<WorkspaceId, RegistryError>,
)
    requires
        resolved(before, after, root, fresh, r),
    ensures
        ({
            let known = lookup(before.document.workspaces@, registry_key(root));
            &&& known matches Some(id) ==> r == Ok::<WorkspaceId, RegistryError>(id) && after
                == before
            &&& known is None && before.document.workspaces@.len() < 100_000 ==> {
                &&& r == Ok::<WorkspaceId, RegistryError>(fresh)
                &&& after.document.workspaces@.len() == before.document.workspaces@.len() + 1
                &&& exists|i: int|
                    0 <= i < after.document.workspaces@.len() && (
                    #[trigger] after.document.workspaces@[i]).id == fresh
                        && after.document.workspaces@[i].key@ == registry_key(root)
            }
            &&& known is None && before.document.workspaces@.len() >= 100_000 ==> r is Err && after
                == before
        }),
{
    let entries = before.document.workspaces@;
    let known = lookup(entries, registry_key(root));
    if known is None && entries.len() < 100_000 {
        let at = crate::durable::registry::place_of(entries, registry_key(root));
        lemma_place(entries, registry_key(root));
        assert(after.document.workspaces@[at].id == fresh);
    }
}

proof fn lemma_place(entries: Seq<crate::durable::registry::RegistryEntry>, key: Seq<char>)
    ensures
        0 <= crate::durable::registry::place_of(entries, key) <= entries.len(),
    decreases entries.len(),
{
    if entries.len() > 0 && crate::text::text_precedes(key, entries.last().key@) {
        lemma_place(entries.drop_last(), key);
    }
}

/// A workspace is found for a directory with an absolute root, under the identity that it is given,
/// and keeps the root as it was written beside the resolved one. Everything else is refused.
pub proof fn law_discovered_workspaces_are_directories(
    id: WorkspaceId,
    display_root: FilePath,
    canonical_root: FilePath,
    is_dir: bool,
    r: Result<WorkspaceContext, WorkspaceError>,
)
    requires
        is_discovered(id, display_root, canonical_root, is_dir, r),
    ensures
        r is Ok <==> is_dir && absolute(canonical_root@),
        r matches Ok(context) ==> context.id == id && context.canonical_root@ == canonical_root@
            && context.display_root == display_root,
        !is_dir ==> r == Err::<WorkspaceContext, WorkspaceError>(
            WorkspaceError::NotDirectory { path: canonical_root },
        ),
        is_dir && !absolute(canonical_root@) ==> r == Err::<WorkspaceContext, WorkspaceError>(
            WorkspaceError::NonAbsoluteCanonicalPath { path: canonical_root },
        ),
{
}

/// A directory that the registry knows is the workspace that it was before, and the registry stays
/// as it is. A new one gets an identity that is not nil. What is no directory, or has no absolute
/// root, leaves the registry alone.
pub proof fn law_directories_are_the_workspaces_they_were(
    display_root: FilePath,
    canonical_root: FilePath,
    is_dir: bool,
    before: WorkspaceRegistry,
    after: WorkspaceRegistry,
    r: Result<WorkspaceContext, WorkspaceError>,
)
    requires
        discovers(display_root, canonical_root, is_dir, before, after, r),
    ensures
        ({
            let known = lookup(before.document.workspaces@, registry_key(canonical_root@));
            &&& r is Err ==> after == before
            &&& r is Ok ==> is_dir && absolute(canonical_root@)
            &&& r matches Ok(context) ==> context.canonical_root@ == canonical_root@
                && context.display_root == display_root
            &&& r is Ok && known is Some ==> Some(r->Ok_0.id) == known && after == before
            &&& r is Ok && known is None ==> r->Ok_0.id.0 != 0
                && after.document.workspaces@.len() == before.document.workspaces@.len() + 1
            &&& is_dir && absolute(canonical_root@) && (known is Some
                || before.document.workspaces@.len() < 100_000) ==> r is Ok
        }),
{
}

/// A workspace is made from an identity that is not nil and an absolute root, and has what it was
/// made from.
pub proof fn law_made_workspaces_have_an_identity(
    id: WorkspaceId,
    canonical_root: CanonicalPath,
    display_root: FilePath,
    r: Result<WorkspaceContext, WorkspaceError>,
)
    requires
        makes_context(id, canonical_root, display_root, r),
    ensures
        r is Ok <==> id.0 != 0 && absolute(display_root@),
        r matches Ok(context) ==> context.id == id && context.canonical_root == canonical_root
            && context.display_root == display_root,
{
}

/// A new record has its identity, its workspace and its title, all its times are now, it chooses no
/// model of its own, its draft is empty, and its session is an active draft without a runtime. It is
/// refused without an identity, an absolute root, a title that can be used or a time after the
/// epoch.
pub proof fn law_new_records_start_empty(
    workspace: WorkspaceContext,
    id: SessionId,
    title: String,
    now: UnixMillis,
    r: Result<SessionRecord, RecordError>,
)
    requires
        starts_record(workspace, id, title, now, r),
    ensures
        r is Ok <==> title_problem(title@) is None && now.milliseconds >= 0 && id.0 != 0
            && workspace.id.0 != 0 && absolute(workspace.canonical_root@),
        r matches Ok(record) ==> {
            &&& record.id == id
            &&& record.workspace_id == workspace.id
            &&& record@.canonical_workspace_path == workspace.canonical_root@
            &&& record.metadata.title == title
            &&& record.metadata.created_at == now
            &&& record.metadata.updated_at == now
            &&& record.metadata.last_opened_at == now
            &&& record.metadata.solver_model_override is None
            &&& record.draft.text@.len() == 0
            &&& record.draft.cursor_byte_offset == 0
            &&& record.status.lifecycle == SessionLifecycle::Active
            &&& record.status.execution == SessionExecution::Draft
            &&& record.status.attachment == RuntimeAttachment::Detached
            &&& record.status.availability == SessionAvailability::Local
            &&& forall|flag: SessionAttention| !#[trigger] record.status.attention.has(flag)
        },
        now.milliseconds < 0 && title_problem(title@) is None ==> (r matches Err(error) && error
            == RecordError::InvalidTimestamp),
{
}

} // verus!

//! What views show of the values they are views of.

use crate::capture::{Aftermath, CaptureRun, CaptureView, PersistRecord, PersistView, Work};
use crate::file_set::{
    EntryFileSet, EntryFileSetLine, FileSetMemberLocation, PendingFileSetLine, TopLevelFileMember,
};
use crate::files::{DirectoryEntry, FilePath};
use crate::manifest::{
    ManifestReply, ManifestReplyView, ManifestRun, ManifestView, Reading,
};
use crate::records::{
    InboundReceiveRecord, InboundReceiveSettlement, RecordView, SettlementView, SpoolRequest,
};
use crate::traversal::{
    FileSetTraversal, PlacedPath, Progress, ReplyView, TraversalReply, TraversalView, Walk,
};
use crate::views::{view_inside, views};
use vstd::prelude::*;

verus! {

/// Two options that look alike are both empty, or hold values that look
/// alike.
pub proof fn options_show_what_they_hold<T: View>(a: Option<T>)
    ensures
        view_inside(a) is Some <==> a is Some,
        a matches Some(held) ==> view_inside(a) == Some(held@),
{
}

/// A path shows its bytes and its name.
pub proof fn paths_show_bytes_and_name(path: FilePath)
    ensures
        path@.raw == path.raw@,
        path@.file_name is Some <==> path.file_name is Some,
        path.file_name matches Some(name) ==> path@.file_name == Some(name@),
{
}

/// An entry of a directory shows its names and its path.
pub proof fn entries_show_names_and_path(entry: DirectoryEntry)
    ensures
        entry@.raw_name == entry.raw_name@,
        entry@.name is Some <==> entry.name is Some,
        entry.name matches Some(name) ==> entry@.name == Some(name@),
        entry@.path == entry.path@,
{
}

/// A line of a manifest shows its index, its text, where its member stands
/// and what it stands for; a manifest shows its lines.
pub proof fn manifests_show_their_lines(
    location: FileSetMemberLocation,
    line: EntryFileSetLine,
    set: EntryFileSet,
)
    ensures
        location@.root_index == location.root_index,
        location@.root_name == location.root_name@,
        location@.relative_path == location.relative_path@,
        location@.kind == location.kind,
        line@.line_index == line.line_index,
        line@.original_text == line.original_text@,
        line@.member_location is Some <==> line.member_location is Some,
        line.member_location matches Some(held) ==> line@.member_location == Some(held@),
        line@.kind == line.kind,
        set@.len() == set.lines@.len(),
        forall|i: int| 0 <= i < set.lines@.len() ==> set@[i] == (#[trigger] set.lines@[i])@,
{
}

/// A root and a pending line show all that is known of them.
pub proof fn roots_show_what_is_known(root: TopLevelFileMember, line: PendingFileSetLine)
    ensures
        root@.line_index == root.line_index,
        root@.root_index == root.root_index,
        root@.original_text == root.original_text@,
        root@.root_name == root.root_name@,
        root@.path == root.path@,
        root@.known_size == root.known_size,
        line@.line_index == line.line_index,
        line@.original_text == line.original_text@,
        line@.member_location == line.member_location@,
        line@.file_path is Some <==> line.file_path is Some,
        line.file_path matches Some(path) ==> line@.file_path == Some(path@),
{
}

/// An expansion shows the question that it is at, what it has gathered and
/// what is before it.
pub proof fn expansions_show_where_they_are(
    placed: PlacedPath,
    progress: Progress,
    walk: Walk,
    traversal: FileSetTraversal,
)
    ensures
        placed@.path == placed.path@ && placed@.relative_path == placed.relative_path@,
        progress@.caps == progress.caps && progress@.budget == progress.budget
            && progress@.next_line == progress.next_line,
        progress@.lines == views(progress.lines@) && progress@.roots == views(progress.roots@)
            && progress@.pending == views(progress.pending@),
        walk@.root == walk.root@ && walk@.queue == views(walk.queue@) && walk@.members == views(
            walk.members@,
        ),
        match traversal {
            FileSetTraversal::Root { progress, root } => traversal@ == (TraversalView::Root {
                progress: progress@,
                root: root@,
            }),
            FileSetTraversal::Listing { progress, walk, directory } => traversal@ == (
            TraversalView::Listing {
                progress: progress@,
                walk: walk@,
                directory: directory@,
            }),
            FileSetTraversal::Member { progress, walk, relative_directory, rest, member } =>
                traversal@ == (TraversalView::Member {
                progress: progress@,
                walk: walk@,
                relative_directory: relative_directory@,
                rest: views(rest@),
                member: member@,
            }),
            FileSetTraversal::Hashing { progress, line, path } => traversal@ == (
            TraversalView::Hashing { progress: progress@, line: line@, path: path@ }),
            FileSetTraversal::Finished { lines, failure } => traversal@ == (
            TraversalView::Finished { lines: views(lines@), failure }),
        },
{
}

/// Answers show what they answer.
pub proof fn answers_show_what_they_answer(reply: TraversalReply, answer: ManifestReply)
    ensures
        reply matches TraversalReply::Inspected(found) ==> reply@ == ReplyView::Inspected(found),
        reply matches TraversalReply::Listed(Some(entries)) ==> reply@ == ReplyView::Listed(
            Some(views(entries@)),
        ),
        reply matches TraversalReply::Listed(None) ==> reply@ == ReplyView::Listed(None),
        reply matches TraversalReply::Hashed(hash) ==> reply@ == ReplyView::Hashed(hash),
        answer matches ManifestReply::Classified(Some(path)) ==> answer@
            == ManifestReplyView::Classified(Some(path@)),
        answer matches ManifestReply::Classified(None) ==> answer@ == ManifestReplyView::Classified(
            None,
        ),
        answer matches ManifestReply::Traversed(traversed) ==> answer@
            == ManifestReplyView::Traversed(traversed@),
{
}

/// The making of a manifest shows the line or the expansion that it is at, or
/// the manifest.
pub proof fn makings_show_where_they_are(reading: Reading, run: ManifestRun)
    ensures
        reading@.caps == reading.caps && reading@.line_index == reading.line_index
            && reading@.root_index == reading.root_index && reading@.top_level_count
            == reading.top_level_count,
        reading@.rest == views(reading.rest@) && reading@.roots == views(reading.roots@)
            && reading@.others == views(reading.others@),
        run matches ManifestRun::Reading { reading, line } ==> run@ == (ManifestView::Reading {
            reading: reading@,
            line: line@,
        }),
        run matches ManifestRun::Expanding { traversal } ==> run@ == (ManifestView::Expanding {
            traversal: traversal@,
        }),
        run matches ManifestRun::Finished { file_set: Some(set) } ==> run@ == (
        ManifestView::Finished { file_set: Some(set@) }),
        run matches ManifestRun::Finished { file_set: None } ==> run@ == (ManifestView::Finished {
            file_set: None,
        }),
{
}

/// What is written shows all that is written.
pub proof fn records_show_what_is_written(
    payload: SpoolRequest,
    record: InboundReceiveRecord,
    settlement: InboundReceiveSettlement,
    persisted: PersistRecord,
)
    ensures
        payload@.rep_id == payload.rep_id && payload@.bytes == payload.bytes@,
        record matches InboundReceiveRecord::Create { entry, event, representations, selection }
            ==> record@ == (RecordView::Create {
            entry,
            event,
            representations: representations@,
            selection,
        }),
        record matches InboundReceiveRecord::Replace {
            entry_id,
            new_event,
            new_representations,
            new_selection,
            new_total_size,
            new_content_category,
        } ==> record@ == (RecordView::Replace {
            entry_id,
            new_event,
            new_representations: new_representations@,
            new_selection,
            new_total_size,
            new_content_category,
        }),
        settlement matches InboundReceiveSettlement::Complete {
            record,
            attempt_id,
            file_set,
            artifacts,
            now_ms,
        } ==> settlement@ == (SettlementView::Complete {
            record: record@,
            attempt_id,
            file_set,
            artifacts,
            now_ms,
        }),
        settlement matches InboundReceiveSettlement::Partial {
            record,
            attempt_id,
            terminal,
            file_set,
            artifacts,
            now_ms,
        } ==> settlement@ == (SettlementView::Partial {
            record: record@,
            attempt_id,
            terminal,
            file_set,
            artifacts,
            now_ms,
        }),
        persisted matches PersistRecord::Save { entry, selection } ==> persisted@ == (
        PersistView::Save { entry, selection }),
        persisted matches PersistRecord::Replace {
            entry_id,
            event,
            representations,
            selection,
            total_size,
            content_category,
        } ==> persisted@ == (PersistView::Replace {
            entry_id,
            event,
            representations: representations@,
            selection,
            total_size,
            content_category,
        }),
        persisted matches PersistRecord::Commit { port, settlement } ==> persisted@ == (
        PersistView::Commit { port, settlement: settlement@ }),
{
}

/// A capture under way shows what it has in hand.
pub proof fn works_show_what_is_in_hand(work: Work, aftermath: Aftermath)
    ensures
        work@.draft == work.draft,
        work@.event == work.event,
        work@.file_set == view_inside(work.file_set),
        work@.representations == work.representations@,
        aftermath@.use_case == aftermath.use_case,
        aftermath@.outcome == aftermath.outcome,
        aftermath@.file_set == view_inside(aftermath.file_set),
        aftermath@.report == aftermath.report,
{
}

/// A capture shows the question that it is at before its content is
/// identified.
pub proof fn captures_show_where_they_begin(run: CaptureRun)
    ensures
        run matches CaptureRun::NewEventId { draft } ==> run@ == (CaptureView::NewEventId {
            draft,
        }),
        run matches CaptureRun::CurrentDevice { draft, event_id } ==> run@ == (
        CaptureView::CurrentDevice { draft, event_id }),
        run matches CaptureRun::LoadCaps { sourced } ==> run@ == (CaptureView::LoadCaps {
            sourced,
        }),
        run matches CaptureRun::BuildFileSet { sourced, manifest } ==> run@ == (
        CaptureView::BuildFileSet { sourced, manifest: manifest@ }),
        run matches CaptureRun::Contribution { sourced, file_set } ==> run@ == (
        CaptureView::Contribution { sourced, file_set: file_set@ }),
        run matches CaptureRun::HashSnapshot { sourced, file_set } ==> run@ == (
        CaptureView::HashSnapshot { sourced, file_set: view_inside(file_set) }),
        run matches CaptureRun::Lock { work, port } ==> run@ == (CaptureView::Lock {
            work: work@,
            port,
        }),
        run matches CaptureRun::Find { work } ==> run@ == (CaptureView::Find { work: work@ }),
        run matches CaptureRun::Touch { work, existing } ==> run@ == (CaptureView::Touch {
            work: work@,
            existing,
        }),
        run matches CaptureRun::LoadRetention { work, list_entries } ==> run@ == (
        CaptureView::LoadRetention { work: work@, list_entries }),
        run matches CaptureRun::LatestEntry { work, port } ==> run@ == (CaptureView::LatestEntry {
            work: work@,
            port,
        }),
{
}

/// A capture shows the question that it is at while its entry is prepared and
/// written, and what it has ended with.
pub proof fn captures_show_where_they_go(run: CaptureRun)
    ensures
        run matches CaptureRun::Normalize { work } ==> run@ == (CaptureView::Normalize {
            work: work@,
        }),
        run matches CaptureRun::InsertEvent { work } ==> run@ == (CaptureView::InsertEvent {
            work: work@,
        }),
        run matches CaptureRun::Cache { work, payload, rest, kept } ==> run@ == (
        CaptureView::Cache {
            work: work@,
            payload: payload@,
            rest: views(rest@),
            kept: views(kept@),
        }),
        run matches CaptureRun::NewEntryId { work, payloads } ==> run@ == (
        CaptureView::NewEntryId { work: work@, payloads: views(payloads@) }),
        run matches CaptureRun::Select { work, payloads, entry_id } ==> run@ == (
        CaptureView::Select { work: work@, payloads: views(payloads@), entry_id }),
        run matches CaptureRun::Spool { work, choice, payload, rest } ==> run@ == (
        CaptureView::Spool { work: work@, choice, payload: payload@, rest: views(rest@) }),
        run matches CaptureRun::Measure { work, choice } ==> run@ == (CaptureView::Measure {
            work: work@,
            choice,
        }),
        run matches CaptureRun::Clock { work, choice, measure } ==> run@ == (CaptureView::Clock {
            work: work@,
            choice,
            measure,
        }),
        run matches CaptureRun::Persist { record, aftermath } ==> run@ == (CaptureView::Persist {
            record: record@,
            aftermath: aftermath@,
        }),
        run matches CaptureRun::SaveFileSet { aftermath, file_set } ==> run@ == (
        CaptureView::SaveFileSet { aftermath: aftermath@, file_set: file_set@ }),
        run matches CaptureRun::Report { port, report, outcome } ==> run@ == (CaptureView::Report {
            port,
            report,
            outcome,
        }),
        run matches CaptureRun::Done { result } ==> run@ == (CaptureView::Done { result }),
{
}

} // verus!

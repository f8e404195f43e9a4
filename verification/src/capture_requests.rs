//! What a capture asks of its host: each thing of the port that it was wired
//! to, and about what the capture holds.

use crate::capture::{CaptureReply, CaptureRequest, CaptureRun, CaptureView, PersistRecord};
use crate::clipboard::ClipboardPayloadSource;
use crate::manifest::{ManifestRequest, ManifestRun};
use crate::traversal::{FileSetTraversal, TraversalRequest};
use vstd::prelude::*;

verus! {

/// Before anything is written, a capture asks for an event, for the identity
/// of this device where it is the source, for the caps, for what the manifest
/// needs, for what the manifest contributes and for the hash of the snapshot
/// as it then is.
pub proof fn content_is_asked_about(run: CaptureRun, r: CaptureRequest<'_>)
    requires
        call_ensures(CaptureRun::request, (&run,), r),
    ensures
        run is NewEventId ==> r is NewEventId,
        run matches CaptureRun::CurrentDevice { draft, event_id } ==> (
        r matches CaptureRequest::CurrentDevice { port } && port
            == draft.use_case.device_identity),
        run matches CaptureRun::LoadCaps { sourced } ==> (r matches CaptureRequest::LoadSettings {
            port,
        } && port == sourced.draft.use_case.settings),
        run matches CaptureRun::BuildFileSet { sourced, manifest } ==> (
        r matches CaptureRequest::BuildFileSet { port, request } && port
            == sourced.draft.use_case.blob_ingest && manifest.awaits(request)),
        run matches CaptureRun::Contribution { sourced, file_set } ==> (
        r matches CaptureRequest::Contribution { file_set: asked } && *asked == file_set),
        run matches CaptureRun::HashSnapshot { sourced, file_set } ==> (
        r matches CaptureRequest::HashSnapshot { snapshot } && *snapshot
            == sourced.draft.snapshot),
{
}

/// The lock, the look into the history and the touch of what was found are
/// asked for by the identity of the content, and the entry is brought to the
/// time at which the content was copied. Of the history only the latest entry
/// is asked for.
pub proof fn history_is_asked_for_the_content(run: CaptureRun, r: CaptureRequest<'_>)
    requires
        call_ensures(CaptureRun::request, (&run,), r),
    ensures
        run matches CaptureRun::Lock { work, port } ==> (r matches CaptureRequest::Lock {
            port: asked,
            hash,
        } && asked == port && *hash == work.event.snapshot_hash.0),
        run matches CaptureRun::Find { work } ==> (r matches CaptureRequest::Find { port, hash }
            && port == work.draft.use_case.find_entry_by_snapshot_hash && *hash
            == work.event.snapshot_hash.0),
        run matches CaptureRun::Touch { work, existing } ==> (r matches CaptureRequest::Touch {
            port,
            entry_id,
            active_time_ms,
        } && port == work.draft.use_case.touch_entry && *entry_id == existing && active_time_ms
            == work.event.captured_at_ms),
        run matches CaptureRun::LoadRetention { work, list_entries } ==> (
        r matches CaptureRequest::LoadSettings { port } && port == work.draft.use_case.settings),
        run matches CaptureRun::LatestEntry { work, port } ==> (
        r matches CaptureRequest::ListEntries { port: asked, limit, offset } && asked == port
            && limit == 1 && offset == 0),
{
}

/// The representation that is next is asked for: a copied file is taken into
/// the blob store from its path, a payload in memory is normalized.
pub proof fn representations_are_asked_for_in_turn(run: CaptureRun, r: CaptureRequest<'_>)
    requires
        call_ensures(CaptureRun::request, (&run,), r),
        run matches CaptureRun::Normalize { work } && work.representations@.len()
            < work.draft.snapshot.representations@.len(),
    ensures
        run matches CaptureRun::Normalize { work } && {
            let next = work.draft.snapshot.representations@[work.representations@.len() as int];
            match next.source {
                ClipboardPayloadSource::LocalFile { path, display, size_bytes } => r matches
                    CaptureRequest::Ingest { port, path: asked } && port
                    == work.draft.use_case.blob_ingest && *asked == path,
                ClipboardPayloadSource::Inline(bytes) => r matches CaptureRequest::Normalize {
                    port,
                    representation,
                } && port == work.draft.use_case.representation_normalizer && *representation
                    == next,
            }
        },
{
}

/// The event is stored with the representations that go with it, payloads are
/// cached and spooled, and the selection and the measure are asked of the
/// snapshot.
pub proof fn what_an_entry_rests_on_is_written_first(run: CaptureRun, r: CaptureRequest<'_>)
    requires
        call_ensures(CaptureRun::request, (&run,), r),
    ensures
        run matches CaptureRun::InsertEvent { work } ==> (r matches CaptureRequest::InsertEvent {
            port,
            event,
            representations,
        } && port == work.draft.use_case.event_writer && *event == work.event && *representations
            == work.representations),
        run matches CaptureRun::Cache { work, payload, rest, kept } ==> (
        r matches CaptureRequest::Cache { port, payload: asked } && port
            == work.draft.use_case.representation_cache && *asked == payload),
        run is NewEntryId ==> r is NewEntryId,
        run matches CaptureRun::Select { work, payloads, entry_id } ==> (
        r matches CaptureRequest::Select { port, snapshot } && port
            == work.draft.use_case.representation_policy && *snapshot == work.draft.snapshot),
        run matches CaptureRun::Spool { work, choice, payload, rest } ==> (
        r matches CaptureRequest::Spool { port, payload: asked } && port
            == work.draft.use_case.spool_queue && *asked == payload),
        run matches CaptureRun::Measure { work, choice } ==> (
        r matches CaptureRequest::Measure { snapshot } && *snapshot == work.draft.snapshot),
        run is Clock ==> r is ReadClock,
{
}

/// A new entry goes to the port that saves entries, new content for one to
/// the port that replaces it, and a receipt to the port that it names; then
/// the manifest and the report go to theirs. A capture that has ended asks
/// for nothing.
pub proof fn entries_go_to_their_port(run: CaptureRun, r: CaptureRequest<'_>)
    requires
        call_ensures(CaptureRun::request, (&run,), r),
    ensures
        run matches CaptureRun::Persist { record, aftermath } ==> (
        r matches CaptureRequest::Persist { port, record: asked } && *asked == record && (
        match record {
            PersistRecord::Save { entry, selection } => port == aftermath.use_case.save_entry,
            PersistRecord::Replace {
                entry_id,
                event,
                representations,
                selection,
                total_size,
                content_category,
            } => port == aftermath.use_case.replace_entry,
            PersistRecord::Commit { port: commits, settlement } => port == commits,
        })),
        run matches CaptureRun::SaveFileSet { aftermath, file_set } ==> (
        r matches CaptureRequest::SaveFileSet { port, entry_id, file_set: asked } && port
            == aftermath.use_case.entry_file_set_repo && *entry_id == aftermath.outcome.entry_id
            && *asked == file_set),
        run matches CaptureRun::Report { port, report, outcome } ==> (
        r matches CaptureRequest::Report { port: asked, report: told } && asked == port && told
            == report),
        run is Done ==> r is Nothing,
{
}

/// The making of a manifest asks what a line names, or what the expansion
/// needs: what stands at a path, what a directory holds, what a file hashes
/// to.
pub proof fn manifests_ask_for_what_is_next(run: ManifestRun, r: ManifestRequest<'_>)
    requires
        call_ensures(ManifestRun::request, (&run,), r),
    ensures
        run matches ManifestRun::Reading { reading, line } ==> (
        r matches ManifestRequest::Classify(text) && *text == line),
        run matches ManifestRun::Expanding { traversal } ==> (
        r matches ManifestRequest::Traverse(asked) && expansion_asks(traversal, asked)),
        run is Finished ==> r is Nothing,
{
}

/// What an expansion asks for.
pub open spec fn expansion_asks(traversal: FileSetTraversal, r: TraversalRequest<'_>) -> bool {
    match traversal {
        FileSetTraversal::Root { progress, root } => r matches TraversalRequest::Inspect(path)
            && path@ == root.path@,
        FileSetTraversal::Listing { progress, walk, directory } => r matches
            TraversalRequest::List(path) && path@ == directory.path@,
        FileSetTraversal::Member { progress, walk, relative_directory, rest, member } => r matches
            TraversalRequest::Inspect(path) && path@ == member.path@,
        FileSetTraversal::Hashing { progress, line, path: file } => r matches
            TraversalRequest::Hash(path) && path@ == file@,
        FileSetTraversal::Finished { lines, failure } => r is Nothing,
    }
}

/// An expansion asks what stands at the path of a root or of an entry, what a
/// directory holds, and what a file hashes to.
pub proof fn expansions_ask_for_what_is_next(
    traversal: FileSetTraversal,
    r: TraversalRequest<'_>,
)
    requires
        call_ensures(FileSetTraversal::request, (&traversal,), r),
    ensures
        expansion_asks(traversal, r),
{
}

/// An answer to another question than the one that is asked changes nothing,
/// and a capture that has ended is changed by none.
pub proof fn other_answers_change_nothing(state: CaptureView, reply: CaptureReply)
    requires
        state is NewEventId ==> reply !is EventId,
        state is CurrentDevice ==> reply !is Device,
        state is LoadCaps || state is LoadRetention ==> reply !is Settings,
        state is BuildFileSet ==> reply !is Manifest,
        state is Contribution ==> reply !is Contribution,
        state is HashSnapshot ==> reply !is Hash,
        state is Lock ==> reply !is Locked,
        state is Find ==> reply !is Found,
        state is Touch ==> reply !is Touched,
        state is LatestEntry ==> reply !is Entries,
        state is Normalize ==> reply !is Ingested && reply !is Normalized,
        state is InsertEvent ==> reply !is EventInserted,
        state is Cache ==> reply !is Cached,
        state is NewEntryId ==> reply !is EntryId,
        state is Select ==> reply !is Selected,
        state is Spool ==> reply !is Spooled,
        state is Measure ==> reply !is Measured,
        state is Clock ==> reply !is Time,
        state is Persist ==> reply !is Persisted,
        state is SaveFileSet ==> reply !is FileSetSaved,
        state is Report ==> reply !is Reported,
    ensures
        state.step(reply) == state,
{
}

/// What is resumed is what the answer takes it to.
pub proof fn captures_go_where_answers_take_them(
    run: CaptureRun,
    reply: CaptureReply,
    next: CaptureRun,
)
    requires
        call_ensures(CaptureRun::resume, (run, reply), next),
    ensures
        next@ == run@.step(reply),
{
}

} // verus!

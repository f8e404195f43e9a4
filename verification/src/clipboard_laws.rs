//! What is read off snapshots and answers, and what is said of errors.

use crate::capture::{
    CaptureClipboardUseCase, capture_caps, resolve_no_history_target, resurface_candidate,
    resurface_existing_entry,
};
use crate::capture_steps::{is_image_by_name, lists_files_by_name};
use crate::clipboard::{
    CaptureOrigin, ClipboardChangeOrigin, ClipboardPayloadSource, EntryId,
    ObservedClipboardRepresentation, PayloadType, SystemClipboardSnapshot, infer_payload_type,
    is_file_rep, is_image_rep, telemetry_capture_origin,
};
use crate::file_set::FileSetCaps;
use crate::records::{
    CaptureError, CaptureSettings, InboundCaptureCommitContext, InboundReceiveRecord,
    InboundReceiveSettlement, PortRef, settlement,
};
use crate::text_laws::lemma_words;
use vstd::prelude::*;

verus! {

/// A representation lists files, or is an image, by its MIME type or by its
/// format.
pub proof fn kinds_are_told_by_name(rep: ObservedClipboardRepresentation, files: bool, image: bool)
    requires
        call_ensures(is_file_rep, (&rep,), files),
        call_ensures(is_image_rep, (&rep,), image),
    ensures
        files == lists_files_by_name(rep),
        image == is_image_by_name(rep),
{
    lemma_words();
}

/// A snapshot is of files where one representation lists files, else of an
/// image where one is an image, else of text.
pub proof fn payload_types_are_told_by_rank(snapshot: SystemClipboardSnapshot, r: PayloadType)
    requires
        call_ensures(infer_payload_type, (&snapshot,), r),
    ensures
        ({
            let reps = snapshot.representations@;
            let files = exists|i: int|
                0 <= i < reps.len() && lists_files_by_name(#[trigger] reps[i]);
            let images = exists|i: int|
                0 <= i < reps.len() && is_image_by_name(#[trigger] reps[i]);
            &&& files ==> r == PayloadType::File
            &&& !files && images ==> r == PayloadType::Image
            &&& !files && !images ==> r == PayloadType::Text
        }),
{
    let reps = snapshot.representations@;
    lemma_words();
    assert forall|i: int| 0 <= i < reps.len() implies lists_files_by_name(#[trigger] reps[i])
        == reps[i].is_files() && is_image_by_name(reps[i]) == reps[i].is_image() by {}
    assert((exists|i: int| 0 <= i < reps.len() && lists_files_by_name(#[trigger] reps[i])) == (
    exists|i: int| 0 <= i < reps.len() && (#[trigger] reps[i]).is_files()));
    assert((exists|i: int| 0 <= i < reps.len() && is_image_by_name(#[trigger] reps[i])) == (
    exists|i: int| 0 <= i < reps.len() && (#[trigger] reps[i]).is_image()));
}

/// A snapshot may carry files where one representation is a file of this
/// device, or is said by the platform to list files.
pub proof fn files_are_told_by_source_or_platform(snapshot: SystemClipboardSnapshot, r: bool)
    requires
        call_ensures(SystemClipboardSnapshot::is_file_class_snapshot, (&snapshot,), r),
    ensures
        r <==> exists|i: int|
            0 <= i < snapshot.representations@.len() && (
            (#[trigger] snapshot.representations@[i]).source is LocalFile
                || snapshot.representations@[i].lists_files),
{
    let reps = snapshot.representations@;
    assert forall|i: int| 0 <= i < reps.len() implies (#[trigger] reps[i]).is_file_class() == (
    reps[i].source is LocalFile || reps[i].lists_files) by {}
    if snapshot.is_file_class() {
        let i = choose|i: int| 0 <= i < reps.len() && (#[trigger] reps[i]).is_file_class();
        assert(reps[i].source is LocalFile || reps[i].lists_files);
    }
    if exists|i: int|
        0 <= i < reps.len() && ((#[trigger] reps[i]).source is LocalFile || reps[i].lists_files) {
        let i = choose|i: int|
            0 <= i < reps.len() && ((#[trigger] reps[i]).source is LocalFile
                || reps[i].lists_files);
        assert(reps[i].is_file_class());
    }
}

/// A payload in memory has its bytes; a file has none.
pub proof fn only_memory_has_bytes(rep: ObservedClipboardRepresentation, r: Option<&Vec<u8>>)
    requires
        call_ensures(ObservedClipboardRepresentation::inline_bytes, (&rep,), r),
    ensures
        rep.source matches ClipboardPayloadSource::Inline(bytes) ==> r == Some(&bytes),
        rep.source is LocalFile ==> r is None,
{
}

/// What the user copied is reported as seen by the watcher, what was put back
/// as restored by hand; nothing else is reported.
pub proof fn only_local_origins_are_told(origin: ClipboardChangeOrigin, r: Option<CaptureOrigin>)
    requires
        call_ensures(telemetry_capture_origin, (origin,), r),
    ensures
        origin is LocalCapture <==> r == Some(CaptureOrigin::SystemWatcher),
        origin is LocalRestore <==> r == Some(CaptureOrigin::ManualRestore),
        origin is RemotePush || origin is Resend <==> r is None,
{
}

/// An entry was found where the look succeeded and found one. It is brought to
/// the top where the touch succeeded and the entry was still there. The latest
/// entry is the first of those that were listed.
pub proof fn failures_find_nothing(
    found: Result<Option<EntryId>, String>,
    candidate: Option<EntryId>,
    existing: EntryId,
    touched: Result<bool, String>,
    resurfaced: Option<EntryId>,
    entries: Result<Vec<EntryId>, String>,
    latest: Option<EntryId>,
)
    requires
        call_ensures(resurface_candidate, (found,), candidate),
        call_ensures(resurface_existing_entry, (existing, touched), resurfaced),
        call_ensures(resolve_no_history_target, (entries,), latest),
    ensures
        found matches Ok(held) ==> candidate == held,
        found is Err ==> candidate is None,
        touched matches Ok(there) && there ==> resurfaced == Some(existing),
        touched matches Ok(there) ==> (!there ==> resurfaced is None),
        touched is Err ==> resurfaced is None,
        entries matches Ok(listed) ==> (listed@.len() > 0 ==> latest == Some(listed@[0])) && (
        listed@.len() == 0 ==> latest is None),
        entries is Err ==> latest is None,
{
}

/// Caps are those of the settings; where these cannot be loaded, 1 GiB and
/// 2000 members.
pub proof fn caps_come_from_the_settings(
    settings: Result<CaptureSettings, String>,
    r: FileSetCaps,
    fallback: FileSetCaps,
    unbounded: FileSetCaps,
)
    requires
        call_ensures(capture_caps, (settings,), r),
        call_ensures(FileSetCaps::fallback, (), fallback),
        call_ensures(FileSetCaps::unbounded, (), unbounded),
    ensures
        settings matches Ok(loaded) ==> r.max_total_bytes == loaded.max_file_set_total_bytes
            && r.max_member_count == loaded.max_file_set_member_count,
        settings is Err ==> r == fallback,
        fallback.max_total_bytes == 1_073_741_824 && fallback.max_member_count == 2_000,
        unbounded.max_total_bytes == 0 && unbounded.max_member_count == 0,
{
}

/// The settlement of a receipt holds its record, when it was settled, and all
/// that the receipt said of itself; complete receipts are settled as complete
/// and partial ones as partial.
pub proof fn settlements_say_what_the_receipt_said(
    record: InboundReceiveRecord,
    context: InboundCaptureCommitContext,
    now_ms: i64,
    r: InboundReceiveSettlement,
)
    requires
        call_ensures(settlement, (record, context, now_ms), r),
    ensures
        context matches InboundCaptureCommitContext::Complete { attempt_id, file_set, artifacts }
            ==> (r matches InboundReceiveSettlement::Complete {
            record: held,
            attempt_id: attempt,
            file_set: set,
            artifacts: left,
            now_ms: at,
        } && held@ == record@ && attempt == attempt_id && set == file_set && left == artifacts
            && at == now_ms),
        context matches InboundCaptureCommitContext::Partial {
            attempt_id,
            terminal,
            file_set,
            artifacts,
        } ==> (r matches InboundReceiveSettlement::Partial {
            record: held,
            attempt_id: attempt,
            terminal: end,
            file_set: set,
            artifacts: left,
            now_ms: at,
        } && held@ == record@ && attempt == attempt_id && end == terminal && set == file_set
            && left == artifacts && at == now_ms),
{
}

/// The words of an error end with what the host said, behind what failed
/// where that is said; the two errors of the library's own say what is
/// missing.
pub proof fn errors_say_what_failed(error: CaptureError, r: String)
    requires
        call_ensures(CaptureError::message, (&error,), r),
    ensures
        error matches CaptureError::Ingest(cause) ==> r@
            == "LocalFile rep ingest into blob store failed: "@ + cause@,
        error matches CaptureError::Normalize(cause) ==> r@ == cause@,
        error matches CaptureError::InsertEvent(cause) ==> r@ == cause@,
        error matches CaptureError::Select(cause) ==> r@ == cause@,
        error matches CaptureError::Persist(cause) ==> r@ == cause@,
        error matches CaptureError::Spool { rep_id, cause } ==> r@
            == "Failed to durably spool representation "@ + rep_id.0@ + " during capture: "@
            + cause@,
        error matches CaptureError::Clock(cause) ==> r@ == "Failed to get system time: "@ + cause@,
        error is CommitNotWired ==> r@ == "inbound receive commit port is not wired"@,
        error is NothingPersisted ==> r@ == "local capture should always persist an entry"@,
{
}

/// A use case has the ports that it was made with, and commits receipts,
/// locks and lists entries only where it was told by what.
pub proof fn use_cases_have_the_ports_they_were_given(
    ports: Seq<PortRef>,
    made: CaptureClipboardUseCase,
    port: PortRef,
    commits: CaptureClipboardUseCase,
    locks: CaptureClipboardUseCase,
    lists: CaptureClipboardUseCase,
)
    requires
        ports.len() == 14,
        call_ensures(
            CaptureClipboardUseCase::new,
            (
                ports[0],
                ports[1],
                ports[2],
                ports[3],
                ports[4],
                ports[5],
                ports[6],
                ports[7],
                ports[8],
                ports[9],
                ports[10],
                ports[11],
                ports[12],
                ports[13],
            ),
            made,
        ),
        call_ensures(CaptureClipboardUseCase::with_inbound_receive_commit, (made, port), commits),
        call_ensures(CaptureClipboardUseCase::with_entry_identity_coordinator, (made, port), locks),
        call_ensures(CaptureClipboardUseCase::with_list_entries, (made, port), lists),
    ensures
        made.save_entry == ports[0] && made.touch_entry == ports[1]
            && made.find_entry_by_snapshot_hash == ports[2] && made.event_writer == ports[3]
            && made.representation_policy == ports[4] && made.representation_normalizer == ports[5]
            && made.device_identity == ports[6] && made.representation_cache == ports[7]
            && made.spool_queue == ports[8] && made.blob_ingest == ports[9]
            && made.entry_file_set_repo == ports[10] && made.settings == ports[11]
            && made.replace_entry == ports[12] && made.analytics == ports[13],
        made.inbound_receive_commit is None && made.coordinator is None && made.list_entries
            is None,
        commits == (CaptureClipboardUseCase { inbound_receive_commit: Some(port), ..made }),
        locks == (CaptureClipboardUseCase { coordinator: Some(port), ..made }),
        lists == (CaptureClipboardUseCase { list_entries: Some(port), ..made }),
{
}

} // verus!

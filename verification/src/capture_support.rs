//! What is captured, and what is left alone.

use crate::capture::{CaptureClipboardUseCase, CaptureRun, captured_entry};
use crate::clipboard::{
    ClipboardChangeOrigin, EntryId, ObservedClipboardRepresentation, SnapshotHash,
    SystemClipboardSnapshot,
};
use crate::records::{
    CaptureError, CaptureOutcome, CommitMode, CompletedReceiveArtifacts,
    DirectoryCaptureCommitContext, InboundCaptureCommitContext,
};
use crate::text_laws::{is_word, lemma_words};
use vstd::prelude::*;

verus! {

/// A representation whose MIME type begins with `text/` or `image/` can be
/// captured, whatever its format is.
pub proof fn texts_and_images_can_be_captured(rep: ObservedClipboardRepresentation, r: bool)
    requires
        call_ensures(CaptureClipboardUseCase::is_supported_representation, (&rep,), r),
        rep.mime matches Some(mime) && ("text/"@.is_prefix_of(mime.0@) || "image/"@.is_prefix_of(
            mime.0@,
        )),
    ensures
        r,
{
}

/// A representation whose MIME type is that of a list of files, in any case,
/// can be captured, whatever its format is.
pub proof fn lists_of_files_can_be_captured(rep: ObservedClipboardRepresentation, r: bool)
    requires
        call_ensures(CaptureClipboardUseCase::is_supported_representation, (&rep,), r),
        rep.mime matches Some(mime) && (is_word(mime.0@, "file/uri-list"@) || is_word(
            mime.0@,
            "text/uri-list"@,
        )),
    ensures
        r,
{
    lemma_words();
}

/// The format is one of those that platforms name without a MIME type, in any
/// case.
pub open spec fn is_known_format(format: Seq<char>) -> bool {
    ||| is_word(format, "text"@)
    ||| is_word(format, "rtf"@)
    ||| is_word(format, "html"@)
    ||| is_word(format, "files"@)
    ||| is_word(format, "image"@)
    ||| is_word(format, "public.utf8-plain-text"@)
    ||| is_word(format, "public.text"@)
    ||| is_word(format, "NSStringPboardType"@)
}

/// A representation in a known format can be captured, whatever its MIME type
/// is, and without one.
pub proof fn known_formats_can_be_captured(rep: ObservedClipboardRepresentation, r: bool)
    requires
        call_ensures(CaptureClipboardUseCase::is_supported_representation, (&rep,), r),
        is_known_format(rep.format_id.0@),
    ensures
        r,
{
    lemma_words();
}

/// The representation has a MIME type or a format that can be captured.
pub open spec fn can_be_captured(rep: ObservedClipboardRepresentation) -> bool {
    ||| rep.mime matches Some(mime) && ("text/"@.is_prefix_of(mime.0@) || "image/"@.is_prefix_of(
        mime.0@,
    ) || is_word(mime.0@, "file/uri-list"@) || is_word(mime.0@, "text/uri-list"@))
    ||| is_known_format(rep.format_id.0@)
}

/// Nothing else can be captured.
pub proof fn nothing_else_can_be_captured(rep: ObservedClipboardRepresentation, r: bool)
    requires
        call_ensures(CaptureClipboardUseCase::is_supported_representation, (&rep,), r),
        r,
    ensures
        can_be_captured(rep),
{
    lemma_words();
}

/// Some representation of the snapshot can be captured.
pub open spec fn holds_something(snapshot: SystemClipboardSnapshot) -> bool {
    exists|i: int|
        0 <= i < snapshot.representations@.len() && can_be_captured(
            #[trigger] snapshot.representations@[i],
        )
}

proof fn lemma_holds_something(snapshot: SystemClipboardSnapshot)
    ensures
        snapshot.is_supported() == holds_something(snapshot),
{
    let reps = snapshot.representations@;
    lemma_words();
    assert forall|i: int| 0 <= i < reps.len() implies can_be_captured(#[trigger] reps[i])
        == reps[i].is_supported() by {}
    if holds_something(snapshot) {
        let i = choose|i: int| 0 <= i < reps.len() && can_be_captured(#[trigger] reps[i]);
        assert(reps[i].is_supported());
    }
    if snapshot.is_supported() {
        let i = choose|i: int| 0 <= i < reps.len() && (#[trigger] reps[i]).is_supported();
        assert(can_be_captured(reps[i]));
    }
}

/// A snapshot has something to capture exactly where one of its
/// representations can be captured.
pub proof fn one_representation_is_enough(snapshot: SystemClipboardSnapshot, r: bool)
    requires
        call_ensures(CaptureClipboardUseCase::has_supported_representation, (&snapshot,), r),
    ensures
        r == holds_something(snapshot),
{
    lemma_holds_something(snapshot);
}

/// A capture starts with what it is given, and asks for an event, where there
/// is something to capture that was not put back from the history. Else it
/// has ended, without an entry and without an error.
pub proof fn captures_start_with_what_they_are_given(
    use_case: CaptureClipboardUseCase,
    snapshot: SystemClipboardSnapshot,
    origin: ClipboardChangeOrigin,
    preset_entry_id: Option<EntryId>,
    authoritative_hash: Option<SnapshotHash>,
    commit_mode: CommitMode,
    run: CaptureRun,
)
    requires
        call_ensures(
            CaptureClipboardUseCase::execute_with_origin,
            (
                &use_case,
                snapshot,
                origin,
                preset_entry_id,
                authoritative_hash,
                commit_mode,
            ),
            run,
        ),
    ensures
        origin != ClipboardChangeOrigin::LocalRestore && holds_something(snapshot) ==> (
        run matches CaptureRun::NewEventId { draft } && draft.use_case == use_case
            && draft.snapshot == snapshot && draft.origin == origin && draft.preset_entry_id
            == preset_entry_id && draft.authoritative_hash == authoritative_hash
            && draft.commit_mode == commit_mode && draft.commit is None),
        !(origin != ClipboardChangeOrigin::LocalRestore && holds_something(snapshot)) ==> (
        run matches CaptureRun::Done { result: Ok(None) }),
{
    lemma_holds_something(snapshot);
}

/// The capture of what the user copied is one of local origin, of a new entry
/// without an identity fixed beforehand, and of content whose identity is
/// still to be found.
pub proof fn local_captures_start_a_new_entry(
    use_case: CaptureClipboardUseCase,
    snapshot: SystemClipboardSnapshot,
    run: CaptureRun,
)
    requires
        call_ensures(CaptureClipboardUseCase::execute, (&use_case, snapshot), run),
    ensures
        holds_something(snapshot) ==> (run matches CaptureRun::NewEventId { draft }
            && draft.use_case == use_case && draft.snapshot == snapshot && draft.origin
            == ClipboardChangeOrigin::LocalCapture && draft.preset_entry_id is None
            && draft.authoritative_hash is None && draft.commit_mode == CommitMode::Create
            && draft.commit is None),
        !holds_something(snapshot) ==> (run matches CaptureRun::Done { result: Ok(None) }),
{
    lemma_holds_something(snapshot);
}

/// The capture of something received starts with its receipt, for the entry
/// that was fixed for it.
pub proof fn received_captures_start_with_their_receipt(
    use_case: CaptureClipboardUseCase,
    snapshot: SystemClipboardSnapshot,
    origin: ClipboardChangeOrigin,
    preset_entry_id: EntryId,
    authoritative_hash: Option<SnapshotHash>,
    commit_mode: CommitMode,
    commit: InboundCaptureCommitContext,
    run: CaptureRun,
)
    requires
        call_ensures(
            CaptureClipboardUseCase::execute_inbound_with_origin,
            (
                &use_case,
                snapshot,
                origin,
                preset_entry_id,
                authoritative_hash,
                commit_mode,
                commit,
            ),
            run,
        ),
    ensures
        origin != ClipboardChangeOrigin::LocalRestore && holds_something(snapshot) ==> (
        run matches CaptureRun::NewEventId { draft } && draft.use_case == use_case
            && draft.snapshot == snapshot && draft.origin == origin && draft.preset_entry_id
            == Some(preset_entry_id) && draft.authoritative_hash == authoritative_hash
            && draft.commit_mode == commit_mode && draft.commit == Some(commit)),
        !(origin != ClipboardChangeOrigin::LocalRestore && holds_something(snapshot)) ==> (
        run matches CaptureRun::Done { result: Ok(None) }),
{
    lemma_holds_something(snapshot);
}

/// The capture of a directory that was received starts with a receipt that is
/// complete, names the attempt and the manifest that came with it, and says
/// that the directory was published.
pub proof fn received_directories_are_complete(
    use_case: CaptureClipboardUseCase,
    snapshot: SystemClipboardSnapshot,
    origin: ClipboardChangeOrigin,
    preset_entry_id: EntryId,
    authoritative_hash: Option<SnapshotHash>,
    commit_mode: CommitMode,
    directory: DirectoryCaptureCommitContext,
    run: CaptureRun,
)
    requires
        call_ensures(
            CaptureClipboardUseCase::execute_directory_with_origin,
            (
                &use_case,
                snapshot,
                origin,
                preset_entry_id,
                authoritative_hash,
                commit_mode,
                directory,
            ),
            run,
        ),
        origin != ClipboardChangeOrigin::LocalRestore,
        holds_something(snapshot),
    ensures
        run matches CaptureRun::NewEventId { draft } && draft.use_case == use_case
            && draft.snapshot == snapshot && draft.origin == origin && draft.preset_entry_id
            == Some(preset_entry_id) && draft.authoritative_hash == authoritative_hash
            && draft.commit_mode == commit_mode && (draft.commit matches Some(
            InboundCaptureCommitContext::Complete { attempt_id, file_set, artifacts },
        ) && attempt_id == directory.attempt_id && file_set == Some(directory.file_set)
            && artifacts == CompletedReceiveArtifacts::DirectoryPublished),
{
    lemma_holds_something(snapshot);
}

/// A local capture gives its entry or its error back; one that ended without
/// an entry is an error of its own.
pub proof fn local_captures_give_an_entry(
    result: Result<Option<CaptureOutcome>, CaptureError>,
    r: Result<EntryId, CaptureError>,
)
    requires
        call_ensures(captured_entry, (result,), r),
    ensures
        result matches Ok(Some(outcome)) ==> r == Ok::<EntryId, CaptureError>(outcome.entry_id),
        result matches Err(error) ==> r == Err::<EntryId, CaptureError>(error),
        result matches Ok(None) ==> r == Err::<EntryId, CaptureError>(
            CaptureError::NothingPersisted,
        ),
{
}

} // verus!

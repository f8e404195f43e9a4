//! What holds of every capture, whatever the host answers.

use crate::capture::{AftermathView, CaptureReply, CaptureView, Draft, Measure, Sourced, WorkView};
use crate::clipboard::{
    ClipboardChangeOrigin, ClipboardPayloadSource, DeviceId, EntryId, SnapshotHash, reported_origin,
};
use crate::file_set::LineView;
use crate::manifest::ManifestView;
use crate::records::{CaptureOutcome, CommitMode, PayloadView};
use vstd::prelude::*;

verus! {

/// The capture after a series of answers.
#[verifier::opaque]
pub open spec fn capture_after(draft: Draft, replies: Seq<CaptureReply>) -> CaptureView
    decreases replies.len(),
{
    if replies.len() == 0 {
        draft.begun()
    } else {
        capture_after(draft, replies.drop_last()).step(replies.last())
    }
}

/// Before any answer a capture is at its start.
pub proof fn lemma_no_answers(draft: Draft)
    ensures
        capture_after(draft, seq![]) == draft.begun(),
{
    reveal(capture_after);
}

/// One more answer takes a capture one step on.
pub proof fn lemma_one_more(draft: Draft, replies: Seq<CaptureReply>, reply: CaptureReply)
    ensures
        capture_after(draft, replies.push(reply)) == capture_after(draft, replies).step(reply),
{
    reveal(capture_after);
    assert(replies.push(reply).drop_last() == replies);
}

pub(crate) proof fn lemma_last(draft: Draft, replies: Seq<CaptureReply>)
    requires
        replies.len() > 0,
    ensures
        capture_after(draft, replies) == capture_after(draft, replies.drop_last()).step(
            replies.last(),
        ),
{
    reveal(capture_after);
}

/// A capture that has ended is not changed by further answers.
pub proof fn ended_captures_stay_ended(state: CaptureView, reply: CaptureReply)
    requires
        state is Done,
    ensures
        state.step(reply) == state,
{
}

/// What was put back from the history, and a snapshot of which nothing can be
/// captured, ends without an entry and without a single request.
pub proof fn nothing_to_capture(draft: Draft, replies: Seq<CaptureReply>)
    requires
        draft.origin == ClipboardChangeOrigin::LocalRestore || !draft.snapshot.is_supported(),
    ensures
        capture_after(draft, replies) == (CaptureView::Done { result: Ok(None) }),
    decreases replies.len(),
{
    if replies.len() > 0 {
        nothing_to_capture(draft, replies.drop_last());
        lemma_last(draft, replies);
    } else {
        lemma_no_answers(draft);
        assert(replies == Seq::<CaptureReply>::empty());
    }
}

/// The source of the event is the device that sent the content, where one
/// did.
pub open spec fn source_fits(draft: Draft, device: DeviceId) -> bool {
    match draft.origin {
        ClipboardChangeOrigin::RemotePush { from_device: Some(sender) } => device == sender,
        _ => true,
    }
}

/// Files were copied, and nothing is known yet of their content.
pub open spec fn needs_manifest(draft: Draft) -> bool {
    draft.snapshot.is_undigested() && draft.snapshot.is_file_class()
}

/// Everything but what the copied files contribute is as it was given.
spec fn same_job(given: Draft, draft: Draft) -> bool {
    &&& draft.use_case == given.use_case
    &&& draft.origin == given.origin
    &&& draft.preset_entry_id == given.preset_entry_id
    &&& draft.authoritative_hash == given.authoritative_hash
    &&& draft.commit_mode == given.commit_mode
    &&& draft.commit == given.commit
    &&& draft.snapshot.representations == given.snapshot.representations
    &&& draft.snapshot.ts_ms == given.snapshot.ts_ms
}

spec fn sourced_fits(given: Draft, sourced: Sourced) -> bool {
    same_job(given, sourced.draft) && source_fits(given, sourced.source_device)
}

/// The capture is written to what was given, or, where no history is kept,
/// takes the place of an entry.
spec fn target_fits(given: Draft, draft: Draft) -> bool {
    ||| draft.commit_mode == given.commit_mode && draft.preset_entry_id == given.preset_entry_id
    ||| {
        &&& given.origin == ClipboardChangeOrigin::LocalCapture
        &&& given.commit_mode == CommitMode::Create
        &&& given.use_case.list_entries is Some
        &&& draft.commit_mode == CommitMode::Replace
        &&& draft.preset_entry_id is Some
    }
}

spec fn work_fits(given: Draft, work: WorkView) -> bool {
    &&& work.draft.use_case == given.use_case
    &&& work.draft.origin == given.origin
    &&& work.draft.authoritative_hash == given.authoritative_hash
    &&& work.draft.commit == given.commit
    &&& work.draft.snapshot.representations == given.snapshot.representations
    &&& work.draft.snapshot.ts_ms == given.snapshot.ts_ms
    &&& target_fits(given, work.draft)
    &&& work.event.captured_at_ms == given.snapshot.ts_ms
    &&& source_fits(given, work.event.source_device)
    &&& given.authoritative_hash matches Some(hash) ==> work.event.snapshot_hash == hash
    &&& work.file_set is Some ==> needs_manifest(given)
}

spec fn all_stored(given: Draft, work: WorkView) -> bool {
    work.representations.len() == given.snapshot.representations@.len()
}

/// The entry that is written was given, or was newly named.
spec fn outcome_fits(given: Draft, outcome: CaptureOutcome) -> bool {
    &&& given.authoritative_hash matches Some(hash) ==> outcome.snapshot_hash == hash.0
    &&& outcome.deduplicated ==> given.origin == ClipboardChangeOrigin::LocalCapture
    &&& given.origin != ClipboardChangeOrigin::LocalCapture ==> (given.preset_entry_id matches Some(
        preset,
    ) ==> outcome.entry_id == preset)
}

spec fn aftermath_fits(given: Draft, aftermath: AftermathView) -> bool {
    &&& aftermath.use_case == given.use_case
    &&& outcome_fits(given, aftermath.outcome)
    &&& !aftermath.outcome.deduplicated
    &&& aftermath.report is Some ==> reported_origin(given.origin) is Some
    &&& aftermath.file_set is Some ==> given.commit is None && needs_manifest(given)
}

spec fn fits(given: Draft, state: CaptureView) -> bool {
    match state {
        CaptureView::NewEventId { draft } => draft == given,
        CaptureView::CurrentDevice { draft, event_id } => draft == given && !(
        given.origin matches ClipboardChangeOrigin::RemotePush { from_device: Some(_) }),
        CaptureView::LoadCaps { sourced } => sourced_fits(given, sourced)
            && needs_manifest(given),
        CaptureView::BuildFileSet { sourced, manifest } => sourced_fits(given, sourced)
            && needs_manifest(given) && manifest !is Finished,
        CaptureView::Contribution { sourced, file_set } => sourced_fits(given, sourced)
            && needs_manifest(given),
        CaptureView::HashSnapshot { sourced, file_set } => sourced_fits(given, sourced)
            && given.authoritative_hash is None && (file_set is Some ==> needs_manifest(given)),
        CaptureView::Lock { work, port } => work_fits(given, work) && work.representations.len()
            == 0 && given.origin == ClipboardChangeOrigin::LocalCapture
            && given.use_case.coordinator == Some(port),
        CaptureView::Find { work } => work_fits(given, work) && work.representations.len() == 0
            && given.origin == ClipboardChangeOrigin::LocalCapture,
        CaptureView::Touch { work, existing } => work_fits(given, work)
            && work.representations.len() == 0 && given.origin
            == ClipboardChangeOrigin::LocalCapture,
        CaptureView::LoadRetention { work, list_entries } => work_fits(given, work)
            && work.representations.len() == 0 && given.origin
            == ClipboardChangeOrigin::LocalCapture && given.commit_mode == CommitMode::Create
            && given.use_case.list_entries == Some(list_entries),
        CaptureView::LatestEntry { work, port } => work_fits(given, work)
            && work.representations.len() == 0 && given.origin
            == ClipboardChangeOrigin::LocalCapture && given.commit_mode == CommitMode::Create
            && given.use_case.list_entries == Some(port),
        CaptureView::Normalize { work } => work_fits(given, work) && work.representations.len()
            < given.snapshot.representations@.len(),
        CaptureView::InsertEvent { work } => work_fits(given, work) && all_stored(given, work)
            && work.draft.commit_mode == CommitMode::Create && given.commit is None,
        CaptureView::Cache { work, payload, rest, kept } => work_fits(given, work) && all_stored(
            given,
            work,
        ) && kept.push(payload) + rest == work.payloads(),
        CaptureView::NewEntryId { work, payloads } => work_fits(given, work) && all_stored(
            given,
            work,
        ) && payloads == work.payloads() && work.draft.preset_entry_id is None,
        CaptureView::Select { work, payloads, entry_id } => work_fits(given, work) && all_stored(
            given,
            work,
        ) && payloads == work.payloads() && (work.draft.preset_entry_id matches Some(preset)
            ==> entry_id == preset),
        CaptureView::Spool { work, choice, payload, rest } => work_fits(given, work) && all_stored(
            given,
            work,
        ) && (work.draft.preset_entry_id matches Some(preset) ==> choice.entry_id == preset),
        CaptureView::Measure { work, choice } => work_fits(given, work) && all_stored(given, work)
            && (work.draft.preset_entry_id matches Some(preset) ==> choice.entry_id == preset),
        CaptureView::Clock { work, choice, measure } => work_fits(given, work) && all_stored(
            given,
            work,
        ) && (work.draft.preset_entry_id matches Some(preset) ==> choice.entry_id == preset),
        CaptureView::Persist { record, aftermath } => aftermath_fits(given, aftermath) && (
        given.commit is Some <==> record is Commit),
        CaptureView::SaveFileSet { aftermath, file_set } => aftermath_fits(given, aftermath)
            && given.commit is None && needs_manifest(given),
        CaptureView::Report { port, report, outcome } => outcome_fits(given, outcome)
            && !outcome.deduplicated && reported_origin(given.origin) is Some && port
            == given.use_case.analytics,
        CaptureView::Done { result } => match result {
            Ok(Some(outcome)) => outcome_fits(given, outcome),
            Ok(None) => given.origin == ClipboardChangeOrigin::LocalRestore
                || !given.snapshot.is_supported(),
            Err(error) => true,
        },
    }
}

proof fn lemma_next_representation(given: Draft, work: WorkView)
    requires
        work_fits(given, work),
        work.representations.len() <= given.snapshot.representations@.len(),
    ensures
        fits(given, work.next_representation()),
{
    if work.representations.len() == given.snapshot.representations@.len() {
        lemma_cache_next(given, work, work.payloads(), seq![]);
    }
}

proof fn lemma_cache_next(
    given: Draft,
    work: WorkView,
    waiting: Seq<PayloadView>,
    kept: Seq<PayloadView>,
)
    requires
        work_fits(given, work),
        all_stored(given, work),
        kept + waiting == work.payloads(),
    ensures
        fits(given, work.cache_next(waiting, kept)),
{
    if waiting.len() == 0 {
        assert(kept + waiting == kept);
    } else {
        assert(kept.push(waiting[0]) + waiting.drop_first() == kept + waiting);
    }
}

proof fn lemma_targeted(given: Draft, work: WorkView)
    requires
        work_fits(given, work),
        work.representations.len() == 0,
        work.draft.commit_mode == given.commit_mode,
    ensures
        fits(given, work.targeted()),
{
    lemma_next_representation(given, work);
}

proof fn lemma_identify(given: Draft, sourced: Sourced, file_set: Option<Seq<LineView>>)
    requires
        sourced_fits(given, sourced),
        file_set is Some ==> needs_manifest(given),
    ensures
        fits(given, sourced.identify(file_set)),
        forall|hash: SnapshotHash|
            given.authoritative_hash is None ==> fits(
                given,
                #[trigger] sourced.identified(file_set, hash),
            ),
{
    assert forall|hash: SnapshotHash|
        (given.authoritative_hash matches Some(known) ==> known == hash) implies fits(
        given,
        #[trigger] sourced.identified(file_set, hash),
    ) by {
        let work = WorkView {
            draft: sourced.draft,
            event: crate::records::ClipboardEvent {
                event_id: sourced.event_id,
                captured_at_ms: sourced.draft.snapshot.ts_ms,
                source_device: sourced.source_device,
                snapshot_hash: hash,
            },
            file_set,
            representations: seq![],
        };
        lemma_targeted(given, work);
    }
}

proof fn lemma_manifest(given: Draft, sourced: Sourced, manifest: ManifestView)
    requires
        sourced_fits(given, sourced),
        needs_manifest(given),
    ensures
        fits(given, sourced.manifest(manifest)),
{
    lemma_identify(given, sourced, None);
}

/// The draft of a capture before anything was written is one that has not
/// been redirected.
spec fn undirected(given: Draft, state: CaptureView) -> bool {
    match state {
        CaptureView::Lock { work, port } => work.draft.commit_mode == given.commit_mode,
        CaptureView::Find { work } => work.draft.commit_mode == given.commit_mode,
        CaptureView::Touch { work, existing } => work.draft.commit_mode == given.commit_mode,
        CaptureView::LoadRetention { work, list_entries } => work.draft.commit_mode
            == given.commit_mode,
        CaptureView::LatestEntry { work, port } => work.draft.commit_mode == given.commit_mode,
        _ => true,
    }
}

proof fn lemma_early_step(given: Draft, state: CaptureView, reply: CaptureReply)
    requires
        fits(given, state),
        undirected(given, state),
        state is NewEventId || state is CurrentDevice || state is LoadCaps || state is BuildFileSet || state is Contribution || state is HashSnapshot,
    ensures
        fits(given, state.step(reply)),
        undirected(given, state.step(reply)),
{
    match (state, reply) {
        (CaptureView::NewEventId { draft }, CaptureReply::EventId(event_id)) => {
            if let ClipboardChangeOrigin::RemotePush { from_device: Some(device) } = draft.origin {
                lemma_identify(given, Sourced { draft, event_id, source_device: device }, None);
            }
        },
        (CaptureView::CurrentDevice { draft, event_id }, CaptureReply::Device(source_device)) => {
            lemma_identify(given, Sourced { draft, event_id, source_device }, None);
        },
        (CaptureView::LoadCaps { sourced }, CaptureReply::Settings(settings)) => {
            lemma_manifest(
                given,
                sourced,
                ManifestView::started(
                    sourced.draft.snapshot.representations@,
                    crate::capture::caps_of(settings),
                ),
            );
        },
        (CaptureView::BuildFileSet { sourced, manifest }, CaptureReply::Manifest(answer)) => {
            lemma_manifest(given, sourced, manifest.step(answer@));
        },
        (
            CaptureView::Contribution { sourced, file_set },
            CaptureReply::Contribution { component, digests },
        ) => {
            lemma_identify(given, sourced.digested(component, digests), Some(file_set));
        },
        (CaptureView::HashSnapshot { sourced, file_set }, CaptureReply::Hash(hash)) => {
            lemma_identify(given, sourced, file_set);
        },
        _ => {},
    }
}

proof fn lemma_found_step(given: Draft, state: CaptureView, reply: CaptureReply)
    requires
        fits(given, state),
        undirected(given, state),
        state is Lock || state is Find || state is Touch || state is LoadRetention || state is LatestEntry,
    ensures
        fits(given, state.step(reply)),
        undirected(given, state.step(reply)),
{
    match (state, reply) {
        (CaptureView::Find { work }, CaptureReply::Found(found)) => {
            lemma_targeted(given, work);
        },
        (CaptureView::Touch { work, existing }, CaptureReply::Touched(touched)) => {
            lemma_targeted(given, work);
        },
        (CaptureView::LoadRetention { work, list_entries }, CaptureReply::Settings(settings)) => {
            lemma_next_representation(given, work);
        },
        (CaptureView::LatestEntry { work, port }, CaptureReply::Entries(entries)) => {
            lemma_next_representation(given, work);
            if let Ok(listed) = entries {
                if listed@.len() > 0 {
                    lemma_next_representation(given, work.replacing(listed@[0]));
                }
            }
        },
        _ => {},
    }
}

proof fn lemma_stored_step(given: Draft, state: CaptureView, reply: CaptureReply)
    requires
        fits(given, state),
        undirected(given, state),
        state is Normalize || state is InsertEvent || state is Cache,
    ensures
        fits(given, state.step(reply)),
        undirected(given, state.step(reply)),
{
    match (state, reply) {
        (CaptureView::Normalize { work }, CaptureReply::Ingested(ingested)) => {
            let at = work.representations.len() as int;
            let observed = work.draft.snapshot.representations@;
            if let ClipboardPayloadSource::LocalFile { path, display, size_bytes } =
                observed[at].source {
                if let Ok(blob_id) = ingested {
                    lemma_next_representation(
                        given,
                        WorkView {
                            representations: work.representations.push(
                                crate::capture::stored_file(observed[at], size_bytes, blob_id),
                            ),
                            ..work
                        },
                    );
                }
            }
        },
        (CaptureView::Normalize { work }, CaptureReply::Normalized(normalized)) => {
            if let Ok(stored) = normalized {
                lemma_next_representation(
                    given,
                    WorkView { representations: work.representations.push(stored), ..work },
                );
            }
        },
        (CaptureView::InsertEvent { work }, CaptureReply::EventInserted(inserted)) => {
            assert(Seq::<PayloadView>::empty() + work.payloads() == work.payloads());
            lemma_cache_next(given, work, work.payloads(), seq![]);
        },
        (CaptureView::Cache { work, payload, rest, kept }, CaptureReply::Cached) => {
            lemma_cache_next(given, work, rest, kept.push(payload));
        },
        _ => {},
    }
}

proof fn lemma_late_step(given: Draft, state: CaptureView, reply: CaptureReply)
    requires
        fits(given, state),
        undirected(given, state),
        state is NewEntryId || state is Select || state is Spool || state is Measure || state is Clock || state is Persist || state is SaveFileSet || state is Report || state is Done,
    ensures
        fits(given, state.step(reply)),
        undirected(given, state.step(reply)),
{
}

proof fn lemma_step_fits(given: Draft, state: CaptureView, reply: CaptureReply)
    requires
        fits(given, state),
        undirected(given, state),
    ensures
        fits(given, state.step(reply)),
        undirected(given, state.step(reply)),
{
    if state is NewEventId || state is CurrentDevice || state is LoadCaps || state is BuildFileSet || state is Contribution || state is HashSnapshot {
        lemma_early_step(given, state, reply);
    } else if state is Lock || state is Find || state is Touch || state is LoadRetention || state is LatestEntry {
        lemma_found_step(given, state, reply);
    } else if state is Normalize || state is InsertEvent || state is Cache {
        lemma_stored_step(given, state, reply);
    } else {
        lemma_late_step(given, state, reply);
    }
}

proof fn lemma_fits(given: Draft, replies: Seq<CaptureReply>)
    ensures
        fits(given, capture_after(given, replies)),
        undirected(given, capture_after(given, replies)),
    decreases replies.len(),
{
    if replies.len() == 0 {
        lemma_no_answers(given);
        assert(replies == Seq::<CaptureReply>::empty());
    } else {
        lemma_fits(given, replies.drop_last());
        lemma_last(given, replies);
        lemma_step_fits(given, capture_after(given, replies.drop_last()), replies.last());
    }
}

/// Only what was copied on this device is looked for in the history, and
/// locked. What another device sent was looked for before, by whoever holds
/// its lock.
pub proof fn only_local_captures_deduplicate(draft: Draft, replies: Seq<CaptureReply>)
    requires
        draft.origin != ClipboardChangeOrigin::LocalCapture,
    ensures
        ({
            let state = capture_after(draft, replies);
            &&& state !is Lock
            &&& state !is Find
            &&& state !is Touch
            &&& state !is LoadRetention
            &&& state !is LatestEntry
            &&& !(state matches CaptureView::Done { result: Ok(Some(outcome)) }
                && outcome.deduplicated)
        }),
{
    lemma_fits(draft, replies);
}

/// What another device sent, and what is sent once more, is never reported.
pub proof fn only_local_captures_are_reported(draft: Draft, replies: Seq<CaptureReply>)
    requires
        draft.origin is RemotePush || draft.origin is Resend,
    ensures
        capture_after(draft, replies) !is Report,
{
    lemma_fits(draft, replies);
}

/// An identity that came with the content is never computed again, and the
/// entry is stored under it.
pub proof fn given_identity_stands(draft: Draft, replies: Seq<CaptureReply>, hash: SnapshotHash)
    requires
        draft.authoritative_hash == Some(hash),
    ensures
        ({
            let state = capture_after(draft, replies);
            &&& state !is HashSnapshot
            &&& state matches CaptureView::InsertEvent { work } ==> work.event.snapshot_hash == hash
            &&& state matches CaptureView::Clock { work, choice, measure }
                ==> work.event.snapshot_hash == hash
            &&& state matches CaptureView::Done { result: Ok(Some(outcome)) }
                ==> outcome.snapshot_hash == hash.0
        }),
{
    lemma_fits(draft, replies);
}

/// An entry whose identity was fixed beforehand gets it. (A local capture may
/// have to take the place of another entry.)
pub proof fn preset_entry_stands(draft: Draft, replies: Seq<CaptureReply>, preset: EntryId)
    requires
        draft.preset_entry_id == Some(preset),
        draft.origin != ClipboardChangeOrigin::LocalCapture,
    ensures
        ({
            let state = capture_after(draft, replies);
            &&& state !is NewEntryId
            &&& state matches CaptureView::Done { result: Ok(Some(outcome)) } ==> outcome.entry_id
                == preset
        }),
{
    lemma_fits(draft, replies);
}

/// The event of what another device sent has that device as its source; this
/// device is not asked for its identity.
pub proof fn sender_is_the_source(draft: Draft, replies: Seq<CaptureReply>, sender: DeviceId)
    requires
        draft.origin == (ClipboardChangeOrigin::RemotePush { from_device: Some(sender) }),
    ensures
        ({
            let state = capture_after(draft, replies);
            &&& state !is CurrentDevice
            &&& state matches CaptureView::InsertEvent { work } ==> work.event.source_device
                == sender
            &&& state matches CaptureView::Clock { work, choice, measure }
                ==> work.event.source_device == sender
        }),
{
    lemma_fits(draft, replies);
}

/// Settings are loaded for a manifest only where files were copied of whose
/// content nothing is known yet.
pub proof fn only_file_captures_build_manifests(draft: Draft, replies: Seq<CaptureReply>)
    requires
        !needs_manifest(draft),
    ensures
        capture_after(draft, replies) !is LoadCaps,
        capture_after(draft, replies) !is BuildFileSet,
        capture_after(draft, replies) !is SaveFileSet,
{
    lemma_fits(draft, replies);
}

/// A capture that has not ended asks for something that can be answered: a
/// representation that is asked for is there.
pub proof fn captures_are_never_stuck(draft: Draft, replies: Seq<CaptureReply>)
    ensures
        ({
            let state = capture_after(draft, replies);
            &&& state matches CaptureView::Normalize { work } ==> work.representations.len()
                < work.draft.snapshot.representations@.len()
            &&& state matches CaptureView::BuildFileSet { sourced, manifest } ==> manifest
                !is Finished
        }),
{
    lemma_fits(draft, replies);
}

/// A capture ends without an entry and without an error only where there was
/// nothing to capture.
pub proof fn captures_persist_an_entry(draft: Draft, replies: Seq<CaptureReply>)
    requires
        draft.origin != ClipboardChangeOrigin::LocalRestore,
        draft.snapshot.is_supported(),
    ensures
        capture_after(draft, replies) != (CaptureView::Done { result: Ok(None) }),
{
    lemma_fits(draft, replies);
}

/// The latest entry is asked for only where entries can be listed, at the
/// port that lists them, for a new entry that the user copied.
pub proof fn latest_is_listed(draft: Draft, replies: Seq<CaptureReply>)
    ensures
        capture_after(draft, replies) matches CaptureView::LatestEntry { work, port } ==> (
        draft.use_case.list_entries == Some(port) && draft.origin
            == ClipboardChangeOrigin::LocalCapture && draft.commit_mode == CommitMode::Create),
{
    lemma_fits(draft, replies);
}

/// The answer is no failure, or one that a capture goes on after: a failed
/// look into the history, settings that cannot be loaded, a manifest that
/// cannot be stored.
pub open spec fn is_tolerable(reply: CaptureReply) -> bool {
    match reply {
        CaptureReply::Ingested(ingested) => ingested is Ok,
        CaptureReply::Normalized(normalized) => normalized is Ok,
        CaptureReply::EventInserted(inserted) => inserted is Ok,
        CaptureReply::Selected(selected) => selected is Ok,
        CaptureReply::Spooled(spooled) => spooled is Ok,
        CaptureReply::Time(now) => now is Ok,
        CaptureReply::Persisted(persisted) => persisted is Ok,
        _ => true,
    }
}

/// A capture fails only where something fails that its entry rests on, or
/// where there is nothing to commit a receipt with.
pub proof fn tolerable_failures_are_not_fatal(draft: Draft, replies: Seq<CaptureReply>)
    requires
        forall|k: int| 0 <= k < replies.len() ==> is_tolerable(#[trigger] replies[k]),
        draft.commit is Some ==> draft.use_case.inbound_receive_commit is Some,
    ensures
        !(capture_after(draft, replies) matches CaptureView::Done { result: Err(error) }),
    decreases replies.len(),
{
    if replies.len() == 0 {
        lemma_no_answers(draft);
        assert(replies == Seq::<CaptureReply>::empty());
    } else {
        lemma_last(draft, replies);
        let before = replies.drop_last();
        assert forall|k: int| 0 <= k < before.len() implies is_tolerable(#[trigger] before[k]) by {
            assert(is_tolerable(replies[k]));
        }
        tolerable_failures_are_not_fatal(draft, before);
        lemma_fits(draft, before);
        assert(is_tolerable(replies[replies.len() - 1]));
        lemma_tolerable_step(draft, capture_after(draft, before), replies.last());
    }
}

proof fn lemma_tolerable_step(given: Draft, state: CaptureView, reply: CaptureReply)
    requires
        fits(given, state),
        is_tolerable(reply),
        given.commit is Some ==> given.use_case.inbound_receive_commit is Some,
        !(state matches CaptureView::Done { result: Err(error) }),
    ensures
        !(state.step(reply) matches CaptureView::Done { result: Err(error) }),
{
}

} // verus!

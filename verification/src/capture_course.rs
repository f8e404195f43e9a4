//! What a capture writes comes from what the host answered in its course.

use crate::capture::{
    CaptureReply, CaptureView, Choice, Draft, Measure, PersistView, Sourced, WorkView,
    staged_payload, staged_payloads, stored_file,
};
use crate::capture_laws::{capture_after, lemma_last, lemma_no_answers};
use crate::capture_order::{
    happened, hashing, identity_is_known, lemma_just_now, lemma_still, spooling,
};
use crate::clipboard::{
    ClipboardChangeOrigin, ClipboardPayloadSource, DeviceId, EntryId, EventId,
    ObservedClipboardRepresentation, SnapshotHash,
};
use crate::file_set::LineView;
use crate::records::{
    ClipboardEvent, CommitMode, HostRef, InboundCaptureCommitContext, PayloadAvailability,
    PayloadView, PersistedClipboardRepresentation, RecordView, SettlementView,
};
use vstd::prelude::*;

verus! {

/// The event was given this identity.
pub open spec fn naming_event(event_id: EventId) -> spec_fn(CaptureView, CaptureReply) -> bool {
    |state: CaptureView, reply: CaptureReply|
        state is NewEventId && reply == CaptureReply::EventId(event_id)
}

/// This device was said to have this identity.
pub open spec fn naming_device(device: DeviceId) -> spec_fn(CaptureView, CaptureReply) -> bool {
    |state: CaptureView, reply: CaptureReply|
        state is CurrentDevice && reply == CaptureReply::Device(device)
}

/// The entry was given this identity.
pub open spec fn naming_entry(entry_id: EntryId) -> spec_fn(CaptureView, CaptureReply) -> bool {
    |state: CaptureView, reply: CaptureReply|
        state is NewEntryId && reply == CaptureReply::EntryId(entry_id)
}

/// This was said to be the latest entry.
pub open spec fn naming_latest(entry_id: EntryId) -> spec_fn(CaptureView, CaptureReply) -> bool {
    |state: CaptureView, reply: CaptureReply|
        {
            &&& state is LatestEntry
            &&& reply matches CaptureReply::Entries(Ok(listed)) && listed@.len() > 0 && listed@[0]
                == entry_id
        }
}

/// This was selected for the entry.
pub open spec fn selecting(
    entry_id: EntryId,
    selection: HostRef,
) -> spec_fn(CaptureView, CaptureReply) -> bool {
    |state: CaptureView, reply: CaptureReply|
        {
            &&& state matches CaptureView::Select { work, payloads, entry_id: asked }
            &&& asked == entry_id
            &&& reply matches CaptureReply::Selected(Ok(selected)) && selected == selection
        }
}

/// The snapshot was measured so.
pub open spec fn measuring(measure: Measure) -> spec_fn(CaptureView, CaptureReply) -> bool {
    |state: CaptureView, reply: CaptureReply|
        state is Measure && reply == CaptureReply::Measured(measure)
}

/// The clock showed this time.
pub open spec fn reading_clock(now_ms: i64) -> spec_fn(CaptureView, CaptureReply) -> bool {
    |state: CaptureView, reply: CaptureReply|
        state is Clock && (reply matches CaptureReply::Time(Ok(now)) && now == now_ms)
}

/// The payload was cached.
pub open spec fn caching(payload: PayloadView) -> spec_fn(CaptureView, CaptureReply) -> bool {
    |state: CaptureView, reply: CaptureReply|
        {
            &&& state matches CaptureView::Cache { work, payload: cached, rest, kept }
            &&& cached == payload
            &&& reply is Cached
        }
}

/// The event was stored by itself, with these representations.
pub open spec fn storing_event(
    event: ClipboardEvent,
    stored: Seq<PersistedClipboardRepresentation>,
) -> spec_fn(CaptureView, CaptureReply) -> bool {
    |state: CaptureView, reply: CaptureReply|
        {
            &&& state matches CaptureView::InsertEvent { work }
            &&& work.event == event
            &&& work.representations == stored
            &&& reply matches CaptureReply::EventInserted(Ok(_))
        }
}

/// The answer for the representation at place `at` of the snapshot was
/// `stored`: the normalizer gave it, or the blob store took a copied file in
/// under the blob that it names.
pub open spec fn answers_for_place(
    observed: Seq<ObservedClipboardRepresentation>,
    at: int,
    stored: PersistedClipboardRepresentation,
    state: CaptureView,
    reply: CaptureReply,
) -> bool {
    &&& state matches CaptureView::Normalize { work }
    &&& work.representations.len() == at
    &&& match observed[at].source {
        ClipboardPayloadSource::Inline(bytes) => reply matches CaptureReply::Normalized(Ok(given))
            && given == stored,
        ClipboardPayloadSource::LocalFile { path, display, size_bytes } => {
            &&& reply matches CaptureReply::Ingested(Ok(blob_id))
            &&& stored.blob_id == Some(blob_id)
            &&& stored.payload_state == PayloadAvailability::BlobReady
            &&& stored.id == observed[at].id
            &&& stored.format_id == observed[at].format_id
            &&& stored.mime == observed[at].mime
            &&& stored.size_bytes == size_bytes as i64
            &&& stored.inline_data is None
        },
    }
}

/// The representation at this place was brought into this form.
pub open spec fn storing(
    observed: Seq<ObservedClipboardRepresentation>,
    at: int,
    stored: PersistedClipboardRepresentation,
) -> spec_fn(CaptureView, CaptureReply) -> bool {
    |state: CaptureView, reply: CaptureReply| answers_for_place(observed, at, stored, state, reply)
}

/// The first representation with this identity is the one at place `j`.
pub open spec fn is_first_with(
    observed: Seq<ObservedClipboardRepresentation>,
    id: Seq<char>,
    j: int,
) -> bool {
    &&& 0 <= j < observed.len()
    &&& observed[j].id.0@ == id
    &&& forall|k: int| 0 <= k < j ==> (#[trigger] observed[k]).id.0@ != id
}

proof fn lemma_staged_payload(
    observed: Seq<ObservedClipboardRepresentation>,
    stored: PersistedClipboardRepresentation,
    j: int,
)
    requires
        stored.payload_state == PayloadAvailability::Staged,
        is_first_with(observed, stored.id.0@, j),
        observed[j].source is Inline,
    ensures
        staged_payload(observed, stored) == seq![
            PayloadView { rep_id: stored.id, bytes: observed[j].source->Inline_0@ },
        ],
    decreases observed.len(),
{
    if j > 0 {
        assert(observed[0].id.0@ != stored.id.0@);
        let rest = observed.drop_first();
        assert forall|k: int| 0 <= k < j - 1 implies (#[trigger] rest[k]).id.0@
            != stored.id.0@ by {
            assert(rest[k] == observed[k + 1]);
        }
        assert(rest[j - 1] == observed[j]);
        lemma_staged_payload(rest, stored, j - 1);
    }
}

/// The bytes of a representation that is to be fetched from the spool later
/// are among the payloads that are spooled, where the first representation of
/// the snapshot with its identity has them in memory.
pub proof fn bytes_in_memory_are_staged(
    observed: Seq<ObservedClipboardRepresentation>,
    stored: Seq<PersistedClipboardRepresentation>,
    i: int,
    j: int,
)
    requires
        0 <= i < stored.len(),
        stored[i].payload_state == PayloadAvailability::Staged,
        is_first_with(observed, stored[i].id.0@, j),
        observed[j].source is Inline,
    ensures
        staged_payloads(observed, stored).contains(
            (PayloadView { rep_id: stored[i].id, bytes: observed[j].source->Inline_0@ }),
        ),
    decreases stored.len(),
{
    let wanted = PayloadView { rep_id: stored[i].id, bytes: observed[j].source->Inline_0@ };
    let front = staged_payloads(observed, stored.drop_last());
    let all = staged_payloads(observed, stored);
    if i == stored.len() - 1 {
        lemma_staged_payload(observed, stored[i], j);
        assert(all[front.len() as int] == wanted);
    } else {
        assert(stored.drop_last()[i] == stored[i]);
        bytes_in_memory_are_staged(observed, stored.drop_last(), i, j);
        let k = choose|k: int| 0 <= k < front.len() && front[k] == wanted;
        assert(all[k] == wanted);
    }
}

spec fn all_cached(draft: Draft, replies: Seq<CaptureReply>, payloads: Seq<PayloadView>) -> bool {
    forall|i: int|
        0 <= i < payloads.len() ==> happened(draft, replies, caching(#[trigger] payloads[i]))
}

spec fn all_written(draft: Draft, replies: Seq<CaptureReply>, payloads: Seq<PayloadView>) -> bool {
    forall|i: int|
        0 <= i < payloads.len() ==> happened(draft, replies, spooling(#[trigger] payloads[i]))
}

/// Every representation of the snapshot, in its order, was brought into the
/// form in which it stands in `stored`.
pub open spec fn stands_for_all(
    draft: Draft,
    replies: Seq<CaptureReply>,
    stored: Seq<PersistedClipboardRepresentation>,
) -> bool {
    &&& stored.len() == draft.snapshot.representations@.len()
    &&& forall|i: int|
        0 <= i < stored.len() ==> happened(
            draft,
            replies,
            storing(draft.snapshot.representations@, i, #[trigger] stored[i]),
        )
}

/// Whatever is to be fetched from the spool later, and is in memory, was
/// cached and written to the spool.
pub open spec fn staged_bytes_are_safe(
    draft: Draft,
    replies: Seq<CaptureReply>,
    stored: Seq<PersistedClipboardRepresentation>,
) -> bool {
    let observed = draft.snapshot.representations@;
    forall|i: int, j: int|
        #![trigger stored[i], observed[j]]
        0 <= i < stored.len() && stored[i].payload_state == PayloadAvailability::Staged
            && is_first_with(observed, stored[i].id.0@, j) && observed[j].source is Inline ==> {
            let payload = PayloadView {
                rep_id: stored[i].id,
                bytes: observed[j].source->Inline_0@,
            };
            &&& happened(draft, replies, caching(payload))
            &&& happened(draft, replies, spooling(payload))
        }
}

/// The event has the identity that it was given, the time of the snapshot,
/// the sender or else this device as its source, and the identity of the
/// content.
pub open spec fn event_is_true(
    draft: Draft,
    replies: Seq<CaptureReply>,
    event: ClipboardEvent,
) -> bool {
    &&& happened(draft, replies, naming_event(event.event_id))
    &&& event.captured_at_ms == draft.snapshot.ts_ms
    &&& match draft.origin {
        ClipboardChangeOrigin::RemotePush { from_device: Some(sender) } => event.source_device
            == sender,
        _ => happened(draft, replies, naming_device(event.source_device)),
    }
    &&& identity_is_known(draft, replies, event.snapshot_hash)
}

/// The capture is written as it was asked to be, or, being a new local entry,
/// takes the place of the entry that was said to be the latest.
pub open spec fn mode_is_true(
    draft: Draft,
    replies: Seq<CaptureReply>,
    mode: CommitMode,
    preset: Option<EntryId>,
) -> bool {
    ||| mode == draft.commit_mode && preset == draft.preset_entry_id
    ||| {
        &&& draft.origin == ClipboardChangeOrigin::LocalCapture
        &&& draft.commit_mode == CommitMode::Create
        &&& mode == CommitMode::Replace
        &&& preset matches Some(target) && happened(draft, replies, naming_latest(target))
    }
}

/// The entry is the one that was given, or was newly named.
pub open spec fn entry_is_true(
    draft: Draft,
    replies: Seq<CaptureReply>,
    preset: Option<EntryId>,
    entry_id: EntryId,
) -> bool {
    match preset {
        Some(given) => entry_id == given,
        None => happened(draft, replies, naming_entry(entry_id)),
    }
}

spec fn draft_kept(given: Draft, draft: Draft) -> bool {
    &&& draft.use_case == given.use_case
    &&& draft.origin == given.origin
    &&& draft.authoritative_hash == given.authoritative_hash
    &&& draft.commit == given.commit
    &&& draft.snapshot.representations@ == given.snapshot.representations@
    &&& draft.snapshot.ts_ms == given.snapshot.ts_ms
}

spec fn source_known(draft: Draft, replies: Seq<CaptureReply>, device: DeviceId) -> bool {
    match draft.origin {
        ClipboardChangeOrigin::RemotePush { from_device: Some(sender) } => device == sender,
        _ => happened(draft, replies, naming_device(device)),
    }
}

spec fn sourced_made(draft: Draft, replies: Seq<CaptureReply>, sourced: Sourced) -> bool {
    &&& draft_kept(draft, sourced.draft)
    &&& sourced.draft.commit_mode == draft.commit_mode
    &&& sourced.draft.preset_entry_id == draft.preset_entry_id
    &&& happened(draft, replies, naming_event(sourced.event_id))
    &&& source_known(draft, replies, sourced.source_device)
}

spec fn work_made(draft: Draft, replies: Seq<CaptureReply>, work: WorkView) -> bool {
    &&& draft_kept(draft, work.draft)
    &&& mode_is_true(draft, replies, work.draft.commit_mode, work.draft.preset_entry_id)
    &&& event_is_true(draft, replies, work.event)
    &&& work.representations.len() <= draft.snapshot.representations@.len()
    &&& forall|i: int|
        0 <= i < work.representations.len() ==> happened(
            draft,
            replies,
            storing(draft.snapshot.representations@, i, #[trigger] work.representations[i]),
        )
}

/// Nothing was redirected yet.
spec fn work_begun(draft: Draft, replies: Seq<CaptureReply>, work: WorkView) -> bool {
    &&& work_made(draft, replies, work)
    &&& work.representations.len() == 0
    &&& work.draft.commit_mode == draft.commit_mode
    &&& work.draft.preset_entry_id == draft.preset_entry_id
}

spec fn work_whole(draft: Draft, replies: Seq<CaptureReply>, work: WorkView) -> bool {
    work_made(draft, replies, work) && work.representations.len()
        == draft.snapshot.representations@.len()
}

spec fn event_kept(draft: Draft, replies: Seq<CaptureReply>, work: WorkView) -> bool {
    work.draft.commit_mode == CommitMode::Create && work.draft.commit is None ==> happened(
        draft,
        replies,
        storing_event(work.event, work.representations),
    )
}

spec fn work_noted(draft: Draft, replies: Seq<CaptureReply>, work: WorkView) -> bool {
    work_whole(draft, replies, work) && event_kept(draft, replies, work)
}

spec fn choice_made(
    draft: Draft,
    replies: Seq<CaptureReply>,
    work: WorkView,
    choice: Choice,
) -> bool {
    &&& entry_is_true(draft, replies, work.draft.preset_entry_id, choice.entry_id)
    &&& happened(draft, replies, selecting(choice.entry_id, choice.selection))
}

spec fn work_safe(
    draft: Draft,
    replies: Seq<CaptureReply>,
    work: WorkView,
    choice: Choice,
) -> bool {
    &&& work_noted(draft, replies, work)
    &&& choice_made(draft, replies, work, choice)
    &&& all_cached(draft, replies, work.payloads())
    &&& all_written(draft, replies, work.payloads())
}

/// The capture is about to be written from this work.
#[verifier::opaque]
spec fn written_from(
    draft: Draft,
    replies: Seq<CaptureReply>,
    state: CaptureView,
    work: WorkView,
    choice: Choice,
    measure: Measure,
    now_ms: i64,
) -> bool {
    &&& work_safe(draft, replies, work, choice)
    &&& happened(draft, replies, measuring(measure))
    &&& happened(draft, replies, reading_clock(now_ms))
    &&& state == work.persisting(choice, measure, now_ms)
}

spec fn comes_from(draft: Draft, replies: Seq<CaptureReply>, state: CaptureView) -> bool {
    exists|work: WorkView, choice: Choice, measure: Measure, now_ms: i64| #[trigger]
        written_from(draft, replies, state, work, choice, measure, now_ms)
}

spec fn made(draft: Draft, replies: Seq<CaptureReply>, state: CaptureView) -> bool {
    match state {
        CaptureView::NewEventId { draft: given } => given == draft,
        CaptureView::CurrentDevice { draft: given, event_id } => given == draft && !(
        draft.origin matches ClipboardChangeOrigin::RemotePush { from_device: Some(sender) })
            && happened(draft, replies, naming_event(event_id)),
        CaptureView::LoadCaps { sourced } => sourced_made(draft, replies, sourced),
        CaptureView::BuildFileSet { sourced, manifest } => sourced_made(draft, replies, sourced),
        CaptureView::Contribution { sourced, file_set } => sourced_made(draft, replies, sourced),
        CaptureView::HashSnapshot { sourced, file_set } => sourced_made(draft, replies, sourced)
            && draft.authoritative_hash is None,
        CaptureView::Lock { work, port } => work_begun(draft, replies, work),
        CaptureView::Find { work } => work_begun(draft, replies, work),
        CaptureView::Touch { work, existing } => work_begun(draft, replies, work),
        CaptureView::LoadRetention { work, list_entries } => work_begun(draft, replies, work)
            && draft.origin == ClipboardChangeOrigin::LocalCapture && draft.commit_mode
            == CommitMode::Create,
        CaptureView::LatestEntry { work, port } => work_begun(draft, replies, work)
            && draft.origin == ClipboardChangeOrigin::LocalCapture && draft.commit_mode
            == CommitMode::Create,
        CaptureView::Normalize { work } => work_made(draft, replies, work)
            && work.representations.len() < draft.snapshot.representations@.len(),
        CaptureView::InsertEvent { work } => work_whole(draft, replies, work),
        CaptureView::Cache { work, payload, rest, kept } => {
            &&& work_noted(draft, replies, work)
            &&& kept.push(payload) + rest == work.payloads()
            &&& all_cached(draft, replies, kept)
        },
        CaptureView::NewEntryId { work, payloads } => {
            &&& work_noted(draft, replies, work)
            &&& payloads == work.payloads()
            &&& all_cached(draft, replies, payloads)
            &&& work.draft.preset_entry_id is None
        },
        CaptureView::Select { work, payloads, entry_id } => {
            &&& work_noted(draft, replies, work)
            &&& payloads == work.payloads()
            &&& all_cached(draft, replies, payloads)
            &&& entry_is_true(draft, replies, work.draft.preset_entry_id, entry_id)
        },
        CaptureView::Spool { work, choice, payload, rest } => {
            let written = work.payloads().len() - rest.len() - 1;
            &&& work_noted(draft, replies, work)
            &&& choice_made(draft, replies, work, choice)
            &&& all_cached(draft, replies, work.payloads())
            &&& 0 <= written
            &&& work.payloads().skip(written) == seq![payload] + rest
            &&& all_written(draft, replies, work.payloads().take(written))
        },
        CaptureView::Measure { work, choice } => work_safe(draft, replies, work, choice),
        CaptureView::Clock { work, choice, measure } => work_safe(draft, replies, work, choice)
            && happened(draft, replies, measuring(measure)),
        CaptureView::Persist { record, aftermath } => comes_from(draft, replies, state),
        _ => true,
    }
}

proof fn lemma_all_still(draft: Draft, replies: Seq<CaptureReply>, payloads: Seq<PayloadView>)
    requires
        replies.len() > 0,
    ensures
        all_cached(draft, replies.drop_last(), payloads) ==> all_cached(draft, replies, payloads),
        all_written(draft, replies.drop_last(), payloads) ==> all_written(draft, replies, payloads),
{
    let before = replies.drop_last();
    if all_cached(draft, before, payloads) {
        assert forall|i: int| 0 <= i < payloads.len() implies happened(
            draft,
            replies,
            caching(#[trigger] payloads[i]),
        ) by {
            lemma_still(draft, replies, caching(payloads[i]));
        }
    }
    if all_written(draft, before, payloads) {
        assert forall|i: int| 0 <= i < payloads.len() implies happened(
            draft,
            replies,
            spooling(#[trigger] payloads[i]),
        ) by {
            lemma_still(draft, replies, spooling(payloads[i]));
        }
    }
}

proof fn lemma_source_still(draft: Draft, replies: Seq<CaptureReply>, device: DeviceId)
    requires
        replies.len() > 0,
        source_known(draft, replies.drop_last(), device),
    ensures
        source_known(draft, replies, device),
{
    if happened(draft, replies.drop_last(), naming_device(device)) {
        lemma_still(draft, replies, naming_device(device));
    }
}

proof fn lemma_sourced_still(draft: Draft, replies: Seq<CaptureReply>, sourced: Sourced)
    requires
        replies.len() > 0,
        sourced_made(draft, replies.drop_last(), sourced),
    ensures
        sourced_made(draft, replies, sourced),
{
    lemma_still(draft, replies, naming_event(sourced.event_id));
    lemma_source_still(draft, replies, sourced.source_device);
}

proof fn lemma_event_still(draft: Draft, replies: Seq<CaptureReply>, event: ClipboardEvent)
    requires
        replies.len() > 0,
        event_is_true(draft, replies.drop_last(), event),
    ensures
        event_is_true(draft, replies, event),
{
    lemma_still(draft, replies, naming_event(event.event_id));
    assert(source_known(draft, replies.drop_last(), event.source_device));
    lemma_source_still(draft, replies, event.source_device);
    if draft.authoritative_hash is None {
        lemma_still(draft, replies, hashing(event.snapshot_hash));
    }
}

proof fn lemma_work_still(draft: Draft, replies: Seq<CaptureReply>, work: WorkView)
    requires
        replies.len() > 0,
        work_made(draft, replies.drop_last(), work),
    ensures
        work_made(draft, replies, work),
        event_kept(draft, replies.drop_last(), work) ==> event_kept(draft, replies, work),
{
    let before = replies.drop_last();
    let observed = draft.snapshot.representations@;
    lemma_event_still(draft, replies, work.event);
    if let Some(target) = work.draft.preset_entry_id {
        if happened(draft, before, naming_latest(target)) {
            lemma_still(draft, replies, naming_latest(target));
        }
    }
    assert forall|i: int| 0 <= i < work.representations.len() implies happened(
        draft,
        replies,
        storing(observed, i, #[trigger] work.representations[i]),
    ) by {
        lemma_still(draft, replies, storing(observed, i, work.representations[i]));
    }
    if happened(draft, before, storing_event(work.event, work.representations)) {
        lemma_still(draft, replies, storing_event(work.event, work.representations));
    }
}

proof fn lemma_choice_still(
    draft: Draft,
    replies: Seq<CaptureReply>,
    work: WorkView,
    choice: Choice,
)
    requires
        replies.len() > 0,
        choice_made(draft, replies.drop_last(), work, choice),
    ensures
        choice_made(draft, replies, work, choice),
{
    lemma_still(draft, replies, selecting(choice.entry_id, choice.selection));
    if work.draft.preset_entry_id is None {
        lemma_still(draft, replies, naming_entry(choice.entry_id));
    }
}

proof fn lemma_safe_still(
    draft: Draft,
    replies: Seq<CaptureReply>,
    work: WorkView,
    choice: Choice,
)
    requires
        replies.len() > 0,
        work_safe(draft, replies.drop_last(), work, choice),
    ensures
        work_safe(draft, replies, work, choice),
{
    lemma_work_still(draft, replies, work);
    lemma_choice_still(draft, replies, work, choice);
    lemma_all_still(draft, replies, work.payloads());
}

proof fn lemma_written_still(draft: Draft, replies: Seq<CaptureReply>, state: CaptureView)
    requires
        replies.len() > 0,
        comes_from(draft, replies.drop_last(), state),
    ensures
        comes_from(draft, replies, state),
{
    reveal(written_from);
    let before = replies.drop_last();
    let (work, choice, measure, now_ms) = choose|
        work: WorkView,
        choice: Choice,
        measure: Measure,
        now_ms: i64,
    | #[trigger]
        written_from(draft, before, state, work, choice, measure, now_ms);
    lemma_safe_still(draft, replies, work, choice);
    lemma_still(draft, replies, measuring(measure));
    lemma_still(draft, replies, reading_clock(now_ms));
    assert(written_from(draft, replies, state, work, choice, measure, now_ms));
}

/// A state that an answer did not change.
proof fn lemma_unchanged(draft: Draft, replies: Seq<CaptureReply>, state: CaptureView)
    requires
        replies.len() > 0,
        made(draft, replies.drop_last(), state),
    ensures
        made(draft, replies, state),
{
    match state {
        CaptureView::CurrentDevice { draft: given, event_id } => {
            lemma_still(draft, replies, naming_event(event_id));
        },
        CaptureView::LoadCaps { sourced } => lemma_sourced_still(draft, replies, sourced),
        CaptureView::BuildFileSet { sourced, manifest } => {
            lemma_sourced_still(draft, replies, sourced);
        },
        CaptureView::Contribution { sourced, file_set } => {
            lemma_sourced_still(draft, replies, sourced);
        },
        CaptureView::HashSnapshot { sourced, file_set } => {
            lemma_sourced_still(draft, replies, sourced);
        },
        CaptureView::Lock { work, port } => lemma_work_still(draft, replies, work),
        CaptureView::Find { work } => lemma_work_still(draft, replies, work),
        CaptureView::Touch { work, existing } => lemma_work_still(draft, replies, work),
        CaptureView::LoadRetention { work, list_entries } => {
            lemma_work_still(draft, replies, work);
        },
        CaptureView::LatestEntry { work, port } => lemma_work_still(draft, replies, work),
        CaptureView::Normalize { work } => lemma_work_still(draft, replies, work),
        CaptureView::InsertEvent { work } => lemma_work_still(draft, replies, work),
        CaptureView::Cache { work, payload, rest, kept } => {
            lemma_work_still(draft, replies, work);
            lemma_all_still(draft, replies, kept);
        },
        CaptureView::NewEntryId { work, payloads } => {
            lemma_work_still(draft, replies, work);
            lemma_all_still(draft, replies, payloads);
        },
        CaptureView::Select { work, payloads, entry_id } => {
            lemma_work_still(draft, replies, work);
            lemma_all_still(draft, replies, payloads);
            if work.draft.preset_entry_id is None {
                lemma_still(draft, replies, naming_entry(entry_id));
            }
        },
        CaptureView::Spool { work, choice, payload, rest } => {
            lemma_work_still(draft, replies, work);
            lemma_choice_still(draft, replies, work, choice);
            lemma_all_still(draft, replies, work.payloads());
            lemma_all_still(
                draft,
                replies,
                work.payloads().take(work.payloads().len() - rest.len() - 1),
            );
        },
        CaptureView::Measure { work, choice } => lemma_safe_still(draft, replies, work, choice),
        CaptureView::Clock { work, choice, measure } => {
            lemma_safe_still(draft, replies, work, choice);
            lemma_still(draft, replies, measuring(measure));
        },
        CaptureView::Persist { record, aftermath } => lemma_written_still(draft, replies, state),
        _ => {},
    }
}

proof fn lemma_cache_next(
    draft: Draft,
    replies: Seq<CaptureReply>,
    work: WorkView,
    waiting: Seq<PayloadView>,
    kept: Seq<PayloadView>,
)
    requires
        work_noted(draft, replies, work),
        kept + waiting == work.payloads(),
        all_cached(draft, replies, kept),
    ensures
        made(draft, replies, work.cache_next(waiting, kept)),
{
    if waiting.len() == 0 {
        assert(kept + waiting == kept);
    } else {
        assert(kept.push(waiting[0]) + waiting.drop_first() == kept + waiting);
    }
}

proof fn lemma_next_representation(draft: Draft, replies: Seq<CaptureReply>, work: WorkView)
    requires
        work_made(draft, replies, work),
    ensures
        made(draft, replies, work.next_representation()),
{
    if work.representations.len() == draft.snapshot.representations@.len() {
        if !(work.draft.commit_mode == CommitMode::Create && work.draft.commit is None) {
            assert(Seq::<PayloadView>::empty() + work.payloads() == work.payloads());
            lemma_cache_next(draft, replies, work, work.payloads(), seq![]);
        }
    }
}

proof fn lemma_targeted(draft: Draft, replies: Seq<CaptureReply>, work: WorkView)
    requires
        work_begun(draft, replies, work),
    ensures
        made(draft, replies, work.targeted()),
{
    lemma_next_representation(draft, replies, work);
}

proof fn lemma_identified(
    draft: Draft,
    replies: Seq<CaptureReply>,
    sourced: Sourced,
    file_set: Option<Seq<LineView>>,
    hash: SnapshotHash,
)
    requires
        sourced_made(draft, replies, sourced),
        identity_is_known(draft, replies, hash),
    ensures
        made(draft, replies, sourced.identified(file_set, hash)),
{
    let work = WorkView {
        draft: sourced.draft,
        event: ClipboardEvent {
            event_id: sourced.event_id,
            captured_at_ms: sourced.draft.snapshot.ts_ms,
            source_device: sourced.source_device,
            snapshot_hash: hash,
        },
        file_set,
        representations: seq![],
    };
    lemma_targeted(draft, replies, work);
}

proof fn lemma_identify(
    draft: Draft,
    replies: Seq<CaptureReply>,
    sourced: Sourced,
    file_set: Option<Seq<LineView>>,
)
    requires
        sourced_made(draft, replies, sourced),
    ensures
        made(draft, replies, sourced.identify(file_set)),
{
    if let Some(hash) = draft.authoritative_hash {
        lemma_identified(draft, replies, sourced, file_set, hash);
    }
}

/// The last answer came in the given state.
#[verifier::opaque]
spec fn came_in(draft: Draft, replies: Seq<CaptureReply>, state: CaptureView) -> bool {
    replies.len() > 0 && state == capture_after(draft, replies.drop_last())
}

proof fn lemma_now(
    draft: Draft,
    replies: Seq<CaptureReply>,
    state: CaptureView,
    what: spec_fn(CaptureView, CaptureReply) -> bool,
)
    requires
        came_in(draft, replies, state),
        what(state, replies.last()),
    ensures
        happened(draft, replies, what),
{
    reveal(came_in);
    lemma_just_now(draft, replies, what);
}

proof fn lemma_source_step(draft: Draft, replies: Seq<CaptureReply>, state: CaptureView)
    requires
        came_in(draft, replies, state),
        replies.len() > 0,
        made(draft, replies.drop_last(), state),
        state is NewEventId || state is CurrentDevice,
    ensures
        made(draft, replies, state.step(replies.last())),
{
    lemma_unchanged(draft, replies, state);
    match (state, replies.last()) {
        (CaptureView::NewEventId { draft: given }, CaptureReply::EventId(event_id)) => {
            lemma_now(draft, replies, state, naming_event(event_id));
            if let ClipboardChangeOrigin::RemotePush { from_device: Some(device) } = given.origin {
                lemma_identify(
                    draft,
                    replies,
                    Sourced { draft: given, event_id, source_device: device },
                    None,
                );
            }
        },
        (
            CaptureView::CurrentDevice { draft: given, event_id },
            CaptureReply::Device(source_device),
        ) => {
            lemma_now(draft, replies, state, naming_device(source_device));
            lemma_identify(
                draft,
                replies,
                Sourced { draft: given, event_id, source_device },
                None,
            );
        },
        _ => {},
    }
}

proof fn lemma_manifest_step(draft: Draft, replies: Seq<CaptureReply>, state: CaptureView)
    requires
        came_in(draft, replies, state),
        replies.len() > 0,
        made(draft, replies.drop_last(), state),
        state is LoadCaps || state is BuildFileSet || state is Contribution || state
            is HashSnapshot,
    ensures
        made(draft, replies, state.step(replies.last())),
{
    lemma_unchanged(draft, replies, state);
    match (state, replies.last()) {
        (CaptureView::LoadCaps { sourced }, CaptureReply::Settings(settings)) => {
            lemma_identify(draft, replies, sourced, None);
        },
        (CaptureView::BuildFileSet { sourced, manifest }, CaptureReply::Manifest(answer)) => {
            lemma_identify(draft, replies, sourced, None);
        },
        (
            CaptureView::Contribution { sourced, file_set },
            CaptureReply::Contribution { component, digests },
        ) => {
            lemma_identify(
                draft,
                replies,
                sourced.digested(component, digests),
                Some(file_set),
            );
        },
        (CaptureView::HashSnapshot { sourced, file_set }, CaptureReply::Hash(hash)) => {
            lemma_now(draft, replies, state, hashing(hash));
            lemma_identified(draft, replies, sourced, file_set, hash);
        },
        _ => {},
    }
}

proof fn lemma_middle_step(draft: Draft, replies: Seq<CaptureReply>, state: CaptureView)
    requires
        came_in(draft, replies, state),
        replies.len() > 0,
        made(draft, replies.drop_last(), state),
        state is Lock || state is Find || state is Touch || state is LoadRetention || state
            is LatestEntry,
    ensures
        made(draft, replies, state.step(replies.last())),
{
    lemma_unchanged(draft, replies, state);
    match (state, replies.last()) {
        (CaptureView::Find { work }, CaptureReply::Found(found)) => {
            lemma_targeted(draft, replies, work);
        },
        (CaptureView::Touch { work, existing }, CaptureReply::Touched(touched)) => {
            lemma_targeted(draft, replies, work);
        },
        (CaptureView::LoadRetention { work, list_entries }, CaptureReply::Settings(settings)) => {
            lemma_next_representation(draft, replies, work);
        },
        (CaptureView::LatestEntry { work, port }, CaptureReply::Entries(entries)) => {
            lemma_next_representation(draft, replies, work);
            if let Ok(listed) = entries {
                if listed@.len() > 0 {
                    lemma_now(draft, replies, state, naming_latest(listed@[0]));
                    lemma_next_representation(draft, replies, work.replacing(listed@[0]));
                }
            }
        },
        _ => {},
    }
}

proof fn lemma_one_stored(
    draft: Draft,
    replies: Seq<CaptureReply>,
    work: WorkView,
    stored: PersistedClipboardRepresentation,
)
    requires
        work_made(draft, replies, work),
        work.representations.len() < draft.snapshot.representations@.len(),
        happened(
            draft,
            replies,
            storing(
                draft.snapshot.representations@,
                work.representations.len() as int,
                stored,
            ),
        ),
    ensures
        made(draft, replies, work.stored(stored)),
{
    let longer = WorkView { representations: work.representations.push(stored), ..work };
    let observed = draft.snapshot.representations@;
    assert forall|i: int| 0 <= i < longer.representations.len() implies happened(
        draft,
        replies,
        storing(observed, i, #[trigger] longer.representations[i]),
    ) by {
        if i < work.representations.len() {
            assert(longer.representations[i] == work.representations[i]);
        }
    }
    lemma_next_representation(draft, replies, longer);
}

proof fn lemma_normalize_step(draft: Draft, replies: Seq<CaptureReply>, state: CaptureView)
    requires
        came_in(draft, replies, state),
        replies.len() > 0,
        made(draft, replies.drop_last(), state),
        state is Normalize,
    ensures
        made(draft, replies, state.step(replies.last())),
{
    lemma_unchanged(draft, replies, state);
    let observed = draft.snapshot.representations@;
    match (state, replies.last()) {
        (CaptureView::Normalize { work }, CaptureReply::Ingested(Ok(blob_id))) => {
            let at = work.representations.len() as int;
            if let ClipboardPayloadSource::LocalFile { path, display, size_bytes } =
                observed[at].source {
                let stored = stored_file(observed[at], size_bytes, blob_id);
                lemma_now(draft, replies, state, storing(observed, at, stored));
                lemma_one_stored(draft, replies, work, stored);
            }
        },
        (CaptureView::Normalize { work }, CaptureReply::Normalized(Ok(stored))) => {
            let at = work.representations.len() as int;
            if observed[at].source is Inline {
                lemma_now(draft, replies, state, storing(observed, at, stored));
                lemma_one_stored(draft, replies, work, stored);
            }
        },
        _ => {},
    }
}

proof fn lemma_cache_step(draft: Draft, replies: Seq<CaptureReply>, state: CaptureView)
    requires
        came_in(draft, replies, state),
        replies.len() > 0,
        made(draft, replies.drop_last(), state),
        state is InsertEvent || state is Cache || state is NewEntryId,
    ensures
        made(draft, replies, state.step(replies.last())),
{
    lemma_unchanged(draft, replies, state);
    match (state, replies.last()) {
        (CaptureView::InsertEvent { work }, CaptureReply::EventInserted(Ok(_))) => {
            lemma_now(draft, replies, state, storing_event(work.event, work.representations));
            assert(Seq::<PayloadView>::empty() + work.payloads() == work.payloads());
            lemma_cache_next(draft, replies, work, work.payloads(), seq![]);
        },
        (CaptureView::Cache { work, payload, rest, kept }, CaptureReply::Cached) => {
            lemma_now(draft, replies, state, caching(payload));
            let longer = kept.push(payload);
            assert forall|i: int| 0 <= i < longer.len() implies happened(
                draft,
                replies,
                caching(#[trigger] longer[i]),
            ) by {
                if i < kept.len() {
                    assert(longer[i] == kept[i]);
                }
            }
            lemma_cache_next(draft, replies, work, rest, longer);
        },
        (CaptureView::NewEntryId { work, payloads }, CaptureReply::EntryId(entry_id)) => {
            lemma_now(draft, replies, state, naming_entry(entry_id));
        },
        _ => {},
    }
}

proof fn lemma_spool_next(
    draft: Draft,
    replies: Seq<CaptureReply>,
    work: WorkView,
    choice: Choice,
    waiting: Seq<PayloadView>,
)
    requires
        work_noted(draft, replies, work),
        choice_made(draft, replies, work, choice),
        all_cached(draft, replies, work.payloads()),
        waiting.len() <= work.payloads().len(),
        work.payloads().skip(work.payloads().len() - waiting.len()) == waiting,
        all_written(
            draft,
            replies,
            work.payloads().take(work.payloads().len() - waiting.len()),
        ),
    ensures
        made(draft, replies, work.spool_next(choice, waiting)),
{
    if waiting.len() == 0 {
        assert(work.payloads().take(work.payloads().len() as int) == work.payloads());
    } else {
        assert(waiting == seq![waiting[0]] + waiting.drop_first());
    }
}

proof fn lemma_spool_step(draft: Draft, replies: Seq<CaptureReply>, state: CaptureView)
    requires
        came_in(draft, replies, state),
        replies.len() > 0,
        made(draft, replies.drop_last(), state),
        state is Select || state is Spool,
    ensures
        made(draft, replies, state.step(replies.last())),
{
    lemma_unchanged(draft, replies, state);
    match (state, replies.last()) {
        (
            CaptureView::Select { work, payloads, entry_id },
            CaptureReply::Selected(Ok(selection)),
        ) => {
            lemma_now(draft, replies, state, selecting(entry_id, selection));
            assert(work.payloads().skip(0) == payloads);
            lemma_spool_next(draft, replies, work, Choice { entry_id, selection }, payloads);
        },
        (
            CaptureView::Spool { work, choice, payload, rest },
            CaptureReply::Spooled(Ok(_)),
        ) => {
            let all = work.payloads();
            let written = all.len() - rest.len() - 1;
            lemma_now(draft, replies, state, spooling(payload));
            assert(all.skip(written)[0] == payload);
            assert(all.skip(written + 1) == all.skip(written).drop_first());
            assert((seq![payload] + rest).drop_first() == rest);
            assert forall|i: int| 0 <= i < all.take(written + 1).len() implies happened(
                draft,
                replies,
                spooling(#[trigger] all.take(written + 1)[i]),
            ) by {
                if i < written {
                    assert(all.take(written)[i] == all[i]);
                }
            }
            lemma_spool_next(draft, replies, work, choice, rest);
        },
        _ => {},
    }
}

proof fn lemma_late_step(draft: Draft, replies: Seq<CaptureReply>, state: CaptureView)
    requires
        came_in(draft, replies, state),
        replies.len() > 0,
        made(draft, replies.drop_last(), state),
        state is Measure || state is Clock || state is Persist || state is SaveFileSet || state
            is Report || state is Done,
    ensures
        made(draft, replies, state.step(replies.last())),
{
    lemma_unchanged(draft, replies, state);
    match (state, replies.last()) {
        (CaptureView::Measure { work, choice }, CaptureReply::Measured(measure)) => {
            lemma_now(draft, replies, state, measuring(measure));
        },
        (CaptureView::Clock { work, choice, measure }, CaptureReply::Time(Ok(now_ms))) => {
            reveal(written_from);
            lemma_now(draft, replies, state, reading_clock(now_ms));
            let next = work.persisting(choice, measure, now_ms);
            assert(written_from(draft, replies, next, work, choice, measure, now_ms));
        },
        _ => {},
    }
}

proof fn lemma_made(draft: Draft, replies: Seq<CaptureReply>)
    ensures
        made(draft, replies, capture_after(draft, replies)),
    decreases replies.len(),
{
    if replies.len() == 0 {
        lemma_no_answers(draft);
        assert(replies == Seq::<CaptureReply>::empty());
    } else {
        lemma_last(draft, replies);
        let before = replies.drop_last();
        lemma_made(draft, before);
        let state = capture_after(draft, before);
        assert(came_in(draft, replies, state)) by {
            reveal(came_in);
        }
        if state is NewEventId || state is CurrentDevice {
            lemma_source_step(draft, replies, state);
        } else if state is LoadCaps || state is BuildFileSet || state is Contribution || state
            is HashSnapshot {
            lemma_manifest_step(draft, replies, state);
        } else if state is Lock || state is Find || state is Touch || state is LoadRetention
            || state is LatestEntry {
            lemma_middle_step(draft, replies, state);
        } else if state is Normalize {
            lemma_normalize_step(draft, replies, state);
        } else if state is InsertEvent || state is Cache || state is NewEntryId {
            lemma_cache_step(draft, replies, state);
        } else if state is Select || state is Spool {
            lemma_spool_step(draft, replies, state);
        } else {
            lemma_late_step(draft, replies, state);
        }
    }
}

/// What is stored is what was brought into the form to be stored, and what of
/// it is in memory only is cached and spooled.
pub open spec fn content_is_safe(
    draft: Draft,
    replies: Seq<CaptureReply>,
    stored: Seq<PersistedClipboardRepresentation>,
) -> bool {
    &&& stands_for_all(draft, replies, stored)
    &&& staged_bytes_are_safe(draft, replies, stored)
}

proof fn lemma_content_is_safe(
    draft: Draft,
    replies: Seq<CaptureReply>,
    work: WorkView,
    choice: Choice,
)
    requires
        work_safe(draft, replies, work, choice),
    ensures
        content_is_safe(draft, replies, work.representations),
{
    let observed = draft.snapshot.representations@;
    let stored = work.representations;
    assert forall|i: int, j: int|
        #![trigger stored[i], observed[j]]
        0 <= i < stored.len() && stored[i].payload_state == PayloadAvailability::Staged
            && is_first_with(observed, stored[i].id.0@, j) && observed[j].source is Inline implies {
        let payload = PayloadView { rep_id: stored[i].id, bytes: observed[j].source->Inline_0@ };
        &&& happened(draft, replies, caching(payload))
        &&& happened(draft, replies, spooling(payload))
    } by {
        let payload = PayloadView { rep_id: stored[i].id, bytes: observed[j].source->Inline_0@ };
        bytes_in_memory_are_staged(observed, stored, i, j);
        let k = choose|k: int|
            0 <= k < work.payloads().len() && work.payloads()[k] == payload;
        assert(happened(draft, replies, caching(work.payloads()[k])));
        assert(happened(draft, replies, spooling(work.payloads()[k])));
    }
}

proof fn lemma_persist(draft: Draft, replies: Seq<CaptureReply>) -> (found: (
    WorkView,
    Choice,
    Measure,
    i64,
))
    requires
        capture_after(draft, replies) is Persist,
    ensures
        ({
            let (work, choice, measure, now_ms) = found;
            &&& work_safe(draft, replies, work, choice)
            &&& content_is_safe(draft, replies, work.representations)
            &&& happened(draft, replies, measuring(measure))
            &&& happened(draft, replies, reading_clock(now_ms))
            &&& capture_after(draft, replies) == work.persisting(choice, measure, now_ms)
        }),
{
    reveal(written_from);
    lemma_made(draft, replies);
    let state = capture_after(draft, replies);
    let (work, choice, measure, now_ms) = choose|
        work: WorkView,
        choice: Choice,
        measure: Measure,
        now_ms: i64,
    | #[trigger]
        written_from(draft, replies, state, work, choice, measure, now_ms);
    lemma_content_is_safe(draft, replies, work, choice);
    (work, choice, measure, now_ms)
}

/// A new entry is written under the identity that was fixed for it or that it
/// was given, with the size, category and time that the host told, and for
/// the event that was stored before it with all its content. Nothing of that
/// content is left in memory only: what the entry needs from the spool is in
/// the cache and in the spool when the entry is written.
pub proof fn new_entries_are_what_was_answered(draft: Draft, replies: Seq<CaptureReply>)
    requires
        capture_after(draft, replies) matches CaptureView::Persist { record, aftermath } && record
            is Save,
    ensures
        capture_after(draft, replies) matches CaptureView::Persist { record, aftermath } && (
        record matches PersistView::Save { entry, selection } && {
            &&& draft.commit is None
            &&& draft.commit_mode == CommitMode::Create
            &&& entry_is_true(draft, replies, draft.preset_entry_id, entry.entry_id)
            &&& happened(draft, replies, reading_clock(entry.created_at_ms))
            &&& happened(
                draft,
                replies,
                measuring(
                    Measure {
                        total_size: entry.total_size,
                        content_category: entry.content_category,
                    },
                ),
            )
            &&& selection.entry_id == entry.entry_id
            &&& happened(draft, replies, selecting(entry.entry_id, selection.selection))
            &&& aftermath.outcome.entry_id == entry.entry_id
            &&& !aftermath.outcome.deduplicated
            &&& exists|event: ClipboardEvent, stored: Seq<PersistedClipboardRepresentation>|
                {
                    &&& #[trigger] happened(draft, replies, storing_event(event, stored))
                    &&& event_is_true(draft, replies, event)
                    &&& content_is_safe(draft, replies, stored)
                    &&& entry.event_id == event.event_id
                    &&& aftermath.outcome.snapshot_hash == event.snapshot_hash.0
                }
        }),
{
    let (work, choice, measure, now_ms) = lemma_persist(draft, replies);
    assert(measure == Measure {
        total_size: measure.total_size,
        content_category: measure.content_category,
    });
    assert(happened(draft, replies, storing_event(work.event, work.representations)));
}

/// What takes the place of an entry is written whole in one: the event, all
/// the content, the selection, the size and the category, to the entry that
/// was given for it or that was said to be the latest.
pub proof fn replacements_are_what_was_answered(draft: Draft, replies: Seq<CaptureReply>)
    requires
        capture_after(draft, replies) matches CaptureView::Persist { record, aftermath } && record
            is Replace,
    ensures
        capture_after(draft, replies) matches CaptureView::Persist { record, aftermath } && (
        record matches PersistView::Replace {
            entry_id,
            event,
            representations,
            selection,
            total_size,
            content_category,
        } && {
            &&& draft.commit is None
            &&& exists|preset: Option<EntryId>|
                {
                    &&& #[trigger] mode_is_true(draft, replies, CommitMode::Replace, preset)
                    &&& entry_is_true(draft, replies, preset, entry_id)
                }
            &&& event_is_true(draft, replies, event)
            &&& content_is_safe(draft, replies, representations)
            &&& selection.entry_id == entry_id
            &&& happened(draft, replies, selecting(entry_id, selection.selection))
            &&& happened(draft, replies, measuring(Measure { total_size, content_category }))
            &&& aftermath.outcome.entry_id == entry_id
            &&& !aftermath.outcome.deduplicated
            &&& aftermath.outcome.snapshot_hash == event.snapshot_hash.0
        }),
{
    let (work, choice, measure, now_ms) = lemma_persist(draft, replies);
    assert(measure == Measure {
        total_size: measure.total_size,
        content_category: measure.content_category,
    });
    assert(mode_is_true(draft, replies, CommitMode::Replace, work.draft.preset_entry_id));
}

/// The clipboard side of a receipt: its entry, its event and all its content.
pub open spec fn record_is_true(
    draft: Draft,
    replies: Seq<CaptureReply>,
    record: RecordView,
    now_ms: i64,
) -> bool {
    match record {
        RecordView::Create { entry, event, representations, selection } => {
            &&& draft.commit_mode == CommitMode::Create
            &&& entry_is_true(draft, replies, draft.preset_entry_id, entry.entry_id)
            &&& entry.event_id == event.event_id
            &&& entry.created_at_ms == now_ms
            &&& happened(
                draft,
                replies,
                measuring(
                    Measure {
                        total_size: entry.total_size,
                        content_category: entry.content_category,
                    },
                ),
            )
            &&& event_is_true(draft, replies, event)
            &&& content_is_safe(draft, replies, representations)
            &&& selection.entry_id == entry.entry_id
            &&& happened(draft, replies, selecting(entry.entry_id, selection.selection))
        },
        RecordView::Replace {
            entry_id,
            new_event,
            new_representations,
            new_selection,
            new_total_size,
            new_content_category,
        } => {
            &&& exists|preset: Option<EntryId>|
                {
                    &&& #[trigger] mode_is_true(draft, replies, CommitMode::Replace, preset)
                    &&& entry_is_true(draft, replies, preset, entry_id)
                }
            &&& happened(
                draft,
                replies,
                measuring(
                    Measure { total_size: new_total_size, content_category: new_content_category },
                ),
            )
            &&& event_is_true(draft, replies, new_event)
            &&& content_is_safe(draft, replies, new_representations)
            &&& new_selection.entry_id == entry_id
            &&& happened(draft, replies, selecting(entry_id, new_selection.selection))
        },
    }
}

/// The settlement says of the receipt what the receipt said of itself.
pub open spec fn settles(
    commit: InboundCaptureCommitContext,
    settlement: SettlementView,
    record: RecordView,
    now_ms: i64,
) -> bool {
    match (commit, settlement) {
        (
            InboundCaptureCommitContext::Complete { attempt_id, file_set, artifacts },
            SettlementView::Complete {
                record: held,
                attempt_id: attempt,
                file_set: set,
                artifacts: left,
                now_ms: at,
            },
        ) => held == record && attempt == attempt_id && set == file_set && left == artifacts && at
            == now_ms,
        (
            InboundCaptureCommitContext::Partial { attempt_id, terminal, file_set, artifacts },
            SettlementView::Partial {
                record: held,
                attempt_id: attempt,
                terminal: end,
                file_set: set,
                artifacts: left,
                now_ms: at,
            },
        ) => held == record && attempt == attempt_id && end == terminal && set == file_set && left
            == artifacts && at == now_ms,
        _ => false,
    }
}

/// A receipt is committed, at the port that commits receipts, as it said of
/// itself, and in one with its entry, its event and its whole content: every
/// representation of the snapshot, in its order, as the normalizer or the blob
/// store answered for it.
pub proof fn receipts_are_what_was_answered(draft: Draft, replies: Seq<CaptureReply>)
    requires
        capture_after(draft, replies) matches CaptureView::Persist { record, aftermath } && record
            is Commit,
    ensures
        capture_after(draft, replies) matches CaptureView::Persist { record, aftermath } && (
        record matches PersistView::Commit { port, settlement } && {
            &&& draft.use_case.inbound_receive_commit == Some(port)
            &&& draft.commit matches Some(commit)
            &&& exists|inner: RecordView, now_ms: i64|
                {
                    &&& #[trigger] settles(commit, settlement, inner, now_ms)
                    &&& happened(draft, replies, reading_clock(now_ms))
                    &&& record_is_true(draft, replies, inner, now_ms)
                }
            &&& !aftermath.outcome.deduplicated
            &&& aftermath.file_set is None
        }),
{
    let (work, choice, measure, now_ms) = lemma_persist(draft, replies);
    assert(measure == Measure {
        total_size: measure.total_size,
        content_category: measure.content_category,
    });
    assert(mode_is_true(
        draft,
        replies,
        work.draft.commit_mode,
        work.draft.preset_entry_id,
    ));
    let inner = work.inbound_record(choice, measure, now_ms);
    assert(record_is_true(draft, replies, inner, now_ms));
    let state = capture_after(draft, replies);
    if let CaptureView::Persist { record, aftermath } = state {
        if let PersistView::Commit { port, settlement } = record {
            assert(settles(draft.commit->0, settlement, inner, now_ms));
        }
    }
}

} // verus!

//! What is stored of each representation, and what is spooled.

use crate::capture::{
    CaptureReply, CaptureView, Draft, Sourced, WorkView, observed_bytes, staged_payload,
    staged_payloads, stored_file,
};
use crate::capture_laws::{capture_after, lemma_last, lemma_no_answers};
use crate::clipboard::{
    ClipboardChangeOrigin, ClipboardPayloadSource, ObservedClipboardRepresentation, SnapshotHash,
};
use crate::file_set::{BlobId, LineView};
use crate::records::{
    ClipboardEvent, PayloadAvailability, PayloadView, PersistedClipboardRepresentation,
};
use vstd::prelude::*;

verus! {

/// A copied file is stored under what was observed of it, with its content in
/// the blob store.
pub open spec fn is_stored_as_blob(
    observed: ObservedClipboardRepresentation,
    stored: PersistedClipboardRepresentation,
) -> bool {
    observed.source matches ClipboardPayloadSource::LocalFile { path, display, size_bytes }
        ==> exists|blob_id: BlobId|
        stored == #[trigger] stored_file(observed, size_bytes, blob_id)
}

/// What is stored stands for what was observed, one for one from the front.
pub open spec fn stands_for(
    observed: Seq<ObservedClipboardRepresentation>,
    stored: Seq<PersistedClipboardRepresentation>,
) -> bool {
    &&& stored.len() <= observed.len()
    &&& forall|i: int|
        #![trigger stored[i]]
        0 <= i < stored.len() ==> is_stored_as_blob(observed[i], stored[i])
}

spec fn holds(observed: Seq<ObservedClipboardRepresentation>, draft: Draft) -> bool {
    draft.snapshot.representations@ == observed
}

spec fn holds_so_far(observed: Seq<ObservedClipboardRepresentation>, work: WorkView) -> bool {
    holds(observed, work.draft) && stands_for(observed, work.representations)
}

spec fn holds_all(observed: Seq<ObservedClipboardRepresentation>, work: WorkView) -> bool {
    holds_so_far(observed, work) && work.representations.len() == observed.len()
}

spec fn stored_in(observed: Seq<ObservedClipboardRepresentation>, state: CaptureView) -> bool {
    match state {
        CaptureView::NewEventId { draft } => holds(observed, draft),
        CaptureView::CurrentDevice { draft, event_id } => holds(observed, draft),
        CaptureView::LoadCaps { sourced } => holds(observed, sourced.draft),
        CaptureView::BuildFileSet { sourced, manifest } => holds(observed, sourced.draft),
        CaptureView::Contribution { sourced, file_set } => holds(observed, sourced.draft),
        CaptureView::HashSnapshot { sourced, file_set } => holds(observed, sourced.draft),
        CaptureView::Lock { work, port } => holds_so_far(observed, work),
        CaptureView::Find { work } => holds_so_far(observed, work),
        CaptureView::Touch { work, existing } => holds_so_far(observed, work),
        CaptureView::LoadRetention { work, list_entries } => holds_so_far(observed, work),
        CaptureView::LatestEntry { work, port } => holds_so_far(observed, work),
        CaptureView::Normalize { work } => holds_so_far(observed, work),
        CaptureView::InsertEvent { work } => holds_all(observed, work),
        CaptureView::Cache { work, payload, rest, kept } => holds_all(observed, work),
        CaptureView::NewEntryId { work, payloads } => holds_all(observed, work),
        CaptureView::Select { work, payloads, entry_id } => holds_all(observed, work),
        CaptureView::Spool { work, choice, payload, rest } => holds_all(observed, work),
        CaptureView::Measure { work, choice } => holds_all(observed, work),
        CaptureView::Clock { work, choice, measure } => holds_all(observed, work),
        _ => true,
    }
}

proof fn lemma_next_representation(
    observed: Seq<ObservedClipboardRepresentation>,
    work: WorkView,
)
    requires
        holds_so_far(observed, work),
    ensures
        stored_in(observed, work.next_representation()),
        stored_in(observed, work.targeted()),
{
}

proof fn lemma_identified(
    observed: Seq<ObservedClipboardRepresentation>,
    sourced: Sourced,
    file_set: Option<Seq<LineView>>,
    hash: SnapshotHash,
)
    requires
        holds(observed, sourced.draft),
    ensures
        stored_in(observed, sourced.identified(file_set, hash)),
{
    let work = WorkView {
        draft: sourced.draft,
        event: ClipboardEvent {
            event_id: sourced.event_id,
            captured_at_ms: sourced.draft.snapshot.ts_ms,
            source_device: sourced.source_device,
            snapshot_hash: hash,
        },
        file_set,
        representations: seq![],
    };
    lemma_next_representation(observed, work);
}

proof fn lemma_identify(
    observed: Seq<ObservedClipboardRepresentation>,
    sourced: Sourced,
    file_set: Option<Seq<LineView>>,
)
    requires
        holds(observed, sourced.draft),
    ensures
        stored_in(observed, sourced.identify(file_set)),
{
    if let Some(hash) = sourced.draft.authoritative_hash {
        lemma_identified(observed, sourced, file_set, hash);
    }
}

proof fn lemma_early_step(
    observed: Seq<ObservedClipboardRepresentation>,
    state: CaptureView,
    reply: CaptureReply,
)
    requires
        stored_in(observed, state),
        state is NewEventId || state is CurrentDevice || state is LoadCaps || state is BuildFileSet
            || state is Contribution || state is HashSnapshot,
    ensures
        stored_in(observed, state.step(reply)),
{
    match (state, reply) {
        (CaptureView::NewEventId { draft }, CaptureReply::EventId(event_id)) => {
            if let ClipboardChangeOrigin::RemotePush {
                from_device: Some(device),
            } = draft.origin {
                lemma_identify(observed, Sourced { draft, event_id, source_device: device }, None);
            }
        },
        (
            CaptureView::CurrentDevice { draft, event_id },
            CaptureReply::Device(source_device),
        ) => {
            lemma_identify(observed, Sourced { draft, event_id, source_device }, None);
        },
        (CaptureView::LoadCaps { sourced }, CaptureReply::Settings(settings)) => {
            lemma_identify(observed, sourced, None);
        },
        (CaptureView::BuildFileSet { sourced, manifest }, CaptureReply::Manifest(answer)) => {
            lemma_identify(observed, sourced, None);
        },
        (
            CaptureView::Contribution { sourced, file_set },
            CaptureReply::Contribution { component, digests },
        ) => {
            lemma_identify(observed, sourced.digested(component, digests), Some(file_set));
        },
        (CaptureView::HashSnapshot { sourced, file_set }, CaptureReply::Hash(hash)) => {
            lemma_identified(observed, sourced, file_set, hash);
        },
        _ => {},
    }
}

proof fn lemma_middle_step(
    observed: Seq<ObservedClipboardRepresentation>,
    state: CaptureView,
    reply: CaptureReply,
)
    requires
        stored_in(observed, state),
        state is Lock || state is Find || state is Touch || state is LoadRetention || state
            is LatestEntry,
    ensures
        stored_in(observed, state.step(reply)),
{
    match (state, reply) {
        (CaptureView::Find { work }, CaptureReply::Found(found)) => {
            lemma_next_representation(observed, work);
        },
        (CaptureView::Touch { work, existing }, CaptureReply::Touched(touched)) => {
            lemma_next_representation(observed, work);
        },
        (CaptureView::LoadRetention { work, list_entries }, CaptureReply::Settings(settings)) => {
            lemma_next_representation(observed, work);
        },
        (CaptureView::LatestEntry { work, port }, CaptureReply::Entries(entries)) => {
            lemma_next_representation(observed, work);
            if let Ok(listed) = entries {
                if listed@.len() > 0 {
                    lemma_next_representation(observed, work.replacing(listed@[0]));
                }
            }
        },
        _ => {},
    }
}

proof fn lemma_one_stored(
    observed: Seq<ObservedClipboardRepresentation>,
    work: WorkView,
    stored: PersistedClipboardRepresentation,
)
    requires
        holds_so_far(observed, work),
        work.representations.len() < observed.len(),
        is_stored_as_blob(observed[work.representations.len() as int], stored),
    ensures
        stored_in(observed, work.stored(stored)),
{
    lemma_next_representation(
        observed,
        WorkView { representations: work.representations.push(stored), ..work },
    );
}

proof fn lemma_normalize_step(
    observed: Seq<ObservedClipboardRepresentation>,
    state: CaptureView,
    reply: CaptureReply,
)
    requires
        stored_in(observed, state),
        state is Normalize,
    ensures
        stored_in(observed, state.step(reply)),
{
    match (state, reply) {
        (CaptureView::Normalize { work }, CaptureReply::Ingested(ingested)) => {
            let at = work.representations.len() as int;
            if at < observed.len() {
                if let ClipboardPayloadSource::LocalFile { path, display, size_bytes } =
                    observed[at].source {
                    if let Ok(blob_id) = ingested {
                        lemma_one_stored(
                            observed,
                            work,
                            stored_file(observed[at], size_bytes, blob_id),
                        );
                    }
                }
            }
        },
        (CaptureView::Normalize { work }, CaptureReply::Normalized(normalized)) => {
            let at = work.representations.len() as int;
            if at < observed.len() && observed[at].source is Inline {
                if let Ok(stored) = normalized {
                    lemma_one_stored(observed, work, stored);
                }
            }
        },
        _ => {},
    }
}

proof fn lemma_late_step(
    observed: Seq<ObservedClipboardRepresentation>,
    state: CaptureView,
    reply: CaptureReply,
)
    requires
        stored_in(observed, state),
        state is InsertEvent || state is Cache || state is NewEntryId || state is Select || state
            is Spool || state is Measure || state is Clock || state is Persist || state
            is SaveFileSet || state is Report || state is Done,
    ensures
        stored_in(observed, state.step(reply)),
{
}

proof fn lemma_stored(draft: Draft, replies: Seq<CaptureReply>)
    ensures
        stored_in(draft.snapshot.representations@, capture_after(draft, replies)),
    decreases replies.len(),
{
    let observed = draft.snapshot.representations@;
    if replies.len() == 0 {
        lemma_no_answers(draft);
        assert(replies == Seq::<CaptureReply>::empty());
    } else {
        lemma_last(draft, replies);
        let before = replies.drop_last();
        lemma_stored(draft, before);
        let state = capture_after(draft, before);
        if state is NewEventId || state is CurrentDevice || state is LoadCaps || state
            is BuildFileSet || state is Contribution || state is HashSnapshot {
            lemma_early_step(observed, state, replies.last());
        } else if state is Lock || state is Find || state is Touch || state is LoadRetention
            || state is LatestEntry {
            lemma_middle_step(observed, state, replies.last());
        } else if state is Normalize {
            lemma_normalize_step(observed, state, replies.last());
        } else {
            lemma_late_step(observed, state, replies.last());
        }
    }
}

/// Every representation is stored, in the order in which they were observed,
/// and copied files are stored as blobs: when the event is stored by itself,
/// and when the entry is about to be written.
pub proof fn every_representation_is_stored(
    draft: Draft,
    replies: Seq<CaptureReply>,
    work: WorkView,
)
    requires
        capture_after(draft, replies) == (CaptureView::InsertEvent { work }) || (capture_after(
            draft,
            replies,
        ) matches CaptureView::Clock { work: last, choice, measure } && last == work),
    ensures
        work.representations.len() == draft.snapshot.representations@.len(),
        stands_for(draft.snapshot.representations@, work.representations),
{
    lemma_stored(draft, replies);
}

/// A payload that is in memory, and is to be fetched from the spool later, is
/// among those that are spooled.
pub proof fn every_staged_payload_is_spooled(
    observed: Seq<ObservedClipboardRepresentation>,
    stored: Seq<PersistedClipboardRepresentation>,
    i: int,
    bytes: Seq<u8>,
)
    requires
        0 <= i < stored.len(),
        stored[i].payload_state == PayloadAvailability::Staged,
        observed_bytes(observed, stored[i].id.0@) == Some(bytes),
    ensures
        staged_payloads(observed, stored).contains(PayloadView { rep_id: stored[i].id, bytes }),
    decreases stored.len(),
{
    let wanted = PayloadView { rep_id: stored[i].id, bytes };
    let front = staged_payloads(observed, stored.drop_last());
    let back = staged_payload(observed, stored.last());
    let all = staged_payloads(observed, stored);
    assert(all == front + back);
    if i == stored.len() - 1 {
        assert(back == seq![wanted]);
        assert(all[front.len() as int] == wanted);
    } else {
        assert(stored.drop_last()[i] == stored[i]);
        every_staged_payload_is_spooled(observed, stored.drop_last(), i, bytes);
        let k = choose|k: int| 0 <= k < front.len() && front[k] == wanted;
        assert(all[k] == wanted);
    }
}

/// The representation was observed with these bytes in memory.
pub open spec fn was_observed(
    observed: Seq<ObservedClipboardRepresentation>,
    id: Seq<char>,
    bytes: Seq<u8>,
) -> bool {
    exists|j: int|
        0 <= j < observed.len() && (#[trigger] observed[j]).id.0@ == id && (
        observed[j].source matches ClipboardPayloadSource::Inline(held) && held@ == bytes)
}

proof fn lemma_observed(
    observed: Seq<ObservedClipboardRepresentation>,
    id: Seq<char>,
    bytes: Seq<u8>,
)
    requires
        observed_bytes(observed, id) == Some(bytes),
    ensures
        was_observed(observed, id, bytes),
    decreases observed.len(),
{
    if observed.len() > 0 {
        if observed[0].id.0@ == id {
            assert(observed[0].id.0@ == id);
        } else {
            let rest = observed.drop_first();
            lemma_observed(rest, id, bytes);
            let j = choose|j: int|
                0 <= j < rest.len() && (#[trigger] rest[j]).id.0@ == id && (
                rest[j].source matches ClipboardPayloadSource::Inline(held) && held@ == bytes);
            assert(observed[j + 1] == rest[j]);
        }
    }
}

/// Only what was observed in memory is spooled, and only for a representation
/// that is to be fetched from the spool later. A copied file, which is stored
/// as a blob, is not.
pub proof fn only_staged_payloads_are_spooled(
    observed: Seq<ObservedClipboardRepresentation>,
    stored: Seq<PersistedClipboardRepresentation>,
    payload: PayloadView,
)
    requires
        staged_payloads(observed, stored).contains(payload),
    ensures
        was_observed(observed, payload.rep_id.0@, payload.bytes),
        exists|i: int|
            0 <= i < stored.len() && (#[trigger] stored[i]).id == payload.rep_id
                && stored[i].payload_state == PayloadAvailability::Staged,
    decreases stored.len(),
{
    if stored.len() > 0 {
        let front = staged_payloads(observed, stored.drop_last());
        let back = staged_payload(observed, stored.last());
        let all = staged_payloads(observed, stored);
        assert(all == front + back);
        let k = choose|k: int| 0 <= k < all.len() && all[k] == payload;
        if k < front.len() {
            assert(front[k] == payload);
            only_staged_payloads_are_spooled(observed, stored.drop_last(), payload);
            let i = choose|i: int|
                0 <= i < stored.drop_last().len() && (#[trigger] stored.drop_last()[i]).id
                    == payload.rep_id && stored.drop_last()[i].payload_state
                    == PayloadAvailability::Staged;
            assert(stored[i] == stored.drop_last()[i]);
        } else {
            assert(back[k - front.len()] == payload);
            lemma_observed(observed, payload.rep_id.0@, payload.bytes);
            assert(stored[stored.len() - 1] == stored.last());
        }
    }
}

} // verus!

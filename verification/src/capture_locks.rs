//! One writer at a time handles one content.

use crate::capture::{CaptureReply, CaptureView, Draft};
use crate::capture_laws::{capture_after, lemma_last, lemma_no_answers};
use crate::capture_order::{happened, lemma_just_now, lemma_still};
use crate::clipboard::ClipboardChangeOrigin;
use crate::records::PortRef;
use vstd::prelude::*;

verus! {

/// The identity of the content that a capture in this state looks for in the
/// history, writes to it, or has written.
pub open spec fn content_at(state: CaptureView) -> Option<String> {
    match state {
        CaptureView::Find { work } => Some(work.event.snapshot_hash.0),
        CaptureView::Touch { work, existing } => Some(work.event.snapshot_hash.0),
        CaptureView::LoadRetention { work, list_entries } => Some(work.event.snapshot_hash.0),
        CaptureView::LatestEntry { work, port } => Some(work.event.snapshot_hash.0),
        CaptureView::Normalize { work } => Some(work.event.snapshot_hash.0),
        CaptureView::InsertEvent { work } => Some(work.event.snapshot_hash.0),
        CaptureView::Cache { work, payload, rest, kept } => Some(work.event.snapshot_hash.0),
        CaptureView::NewEntryId { work, payloads } => Some(work.event.snapshot_hash.0),
        CaptureView::Select { work, payloads, entry_id } => Some(work.event.snapshot_hash.0),
        CaptureView::Spool { work, choice, payload, rest } => Some(work.event.snapshot_hash.0),
        CaptureView::Measure { work, choice } => Some(work.event.snapshot_hash.0),
        CaptureView::Clock { work, choice, measure } => Some(work.event.snapshot_hash.0),
        CaptureView::Persist { record, aftermath } => Some(aftermath.outcome.snapshot_hash),
        CaptureView::SaveFileSet { aftermath, file_set } => Some(aftermath.outcome.snapshot_hash),
        CaptureView::Report { port, report, outcome } => Some(outcome.snapshot_hash),
        CaptureView::Done { result: Ok(Some(outcome)) } => Some(outcome.snapshot_hash),
        _ => None,
    }
}

/// The lock for this content was taken, from this port.
pub open spec fn locking(port: PortRef, hash: String) -> spec_fn(CaptureView, CaptureReply) -> bool {
    |state: CaptureView, reply: CaptureReply| lock_is_taken(port, hash, state, reply)
}

/// The answer hands the lock for this content out.
pub open spec fn lock_is_taken(
    port: PortRef,
    hash: String,
    state: CaptureView,
    reply: CaptureReply,
) -> bool {
    &&& state matches CaptureView::Lock { work, port: asked }
    &&& asked == port
    &&& work.event.snapshot_hash.0 == hash
    &&& reply is Locked
}

spec fn locks(port: PortRef, draft: Draft) -> bool {
    &&& draft.origin == ClipboardChangeOrigin::LocalCapture
    &&& draft.use_case.coordinator == Some(port)
}

/// A capture that has not come to its lock yet will.
spec fn comes_to_lock(port: PortRef, state: CaptureView) -> bool {
    match state {
        CaptureView::NewEventId { draft } => locks(port, draft),
        CaptureView::CurrentDevice { draft, event_id } => locks(port, draft),
        CaptureView::LoadCaps { sourced } => locks(port, sourced.draft),
        CaptureView::BuildFileSet { sourced, manifest } => locks(port, sourced.draft),
        CaptureView::Contribution { sourced, file_set } => locks(port, sourced.draft),
        CaptureView::HashSnapshot { sourced, file_set } => locks(port, sourced.draft),
        CaptureView::Lock { work, port: asked } => asked == port,
        _ => true,
    }
}

proof fn lemma_early_step(port: PortRef, state: CaptureView, reply: CaptureReply)
    requires
        comes_to_lock(port, state),
        state is NewEventId || state is CurrentDevice || state is LoadCaps || state is BuildFileSet
            || state is Contribution || state is HashSnapshot,
    ensures
        comes_to_lock(port, state.step(reply)),
        content_at(state.step(reply)) is None,
{
}

proof fn lemma_middle_step(port: PortRef, state: CaptureView, reply: CaptureReply)
    requires
        comes_to_lock(port, state),
        state is Lock || state is Find || state is Touch || state is LoadRetention || state
            is LatestEntry || state is Normalize,
    ensures
        comes_to_lock(port, state.step(reply)),
        content_at(state.step(reply)) matches Some(hash) ==> content_at(state) == Some(hash)
            || lock_is_taken(port, hash, state, reply),
{
}

proof fn lemma_late_step(port: PortRef, state: CaptureView, reply: CaptureReply)
    requires
        state is InsertEvent || state is Cache || state is NewEntryId || state is Select || state
            is Spool || state is Measure || state is Clock || state is Persist || state
            is SaveFileSet || state is Report || state is Done,
    ensures
        comes_to_lock(port, state.step(reply)),
        content_at(state.step(reply)) matches Some(hash) ==> content_at(state) == Some(hash),
{
}

proof fn lemma_comes_to_lock(draft: Draft, replies: Seq<CaptureReply>, port: PortRef)
    requires
        locks(port, draft),
    ensures
        comes_to_lock(port, capture_after(draft, replies)),
    decreases replies.len(),
{
    if replies.len() == 0 {
        lemma_no_answers(draft);
        assert(replies == Seq::<CaptureReply>::empty());
    } else {
        lemma_last(draft, replies);
        let before = replies.drop_last();
        lemma_comes_to_lock(draft, before, port);
        lemma_step(port, capture_after(draft, before), replies.last());
    }
}

proof fn lemma_step(port: PortRef, state: CaptureView, reply: CaptureReply)
    requires
        comes_to_lock(port, state),
    ensures
        comes_to_lock(port, state.step(reply)),
        content_at(state.step(reply)) matches Some(hash) ==> content_at(state) == Some(hash)
            || lock_is_taken(port, hash, state, reply),
{
    if state is NewEventId || state is CurrentDevice || state is LoadCaps || state is BuildFileSet
        || state is Contribution || state is HashSnapshot {
        lemma_early_step(port, state, reply);
    } else if state is Lock || state is Find || state is Touch || state is LoadRetention || state
        is LatestEntry || state is Normalize {
        lemma_middle_step(port, state, reply);
    } else {
        lemma_late_step(port, state, reply);
    }
}

/// A local capture looks for its content, and writes it, only after it has
/// taken the lock for just this content, where there is something to lock by.
/// So no other writer of the same content comes between the look and the
/// write.
pub proof fn local_captures_hold_the_lock(
    draft: Draft,
    replies: Seq<CaptureReply>,
    port: PortRef,
    hash: String,
)
    requires
        draft.origin == ClipboardChangeOrigin::LocalCapture,
        draft.use_case.coordinator == Some(port),
        content_at(capture_after(draft, replies)) == Some(hash),
    ensures
        happened(draft, replies, locking(port, hash)),
    decreases replies.len(),
{
    if replies.len() == 0 {
        lemma_no_answers(draft);
        assert(replies == Seq::<CaptureReply>::empty());
    } else {
        lemma_last(draft, replies);
        let before = replies.drop_last();
        let state = capture_after(draft, before);
        lemma_comes_to_lock(draft, before, port);
        lemma_step(port, state, replies.last());
        if content_at(state) == Some(hash) {
            local_captures_hold_the_lock(draft, before, port, hash);
            lemma_still(draft, replies, locking(port, hash));
        } else {
            assert(locking(port, hash)(state, replies.last()));
            lemma_just_now(draft, replies, locking(port, hash));
        }
    }
}

} // verus!

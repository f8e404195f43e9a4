//! What the copied files contribute to the identity of their snapshot.

use crate::capture::{CaptureReply, CaptureView, Draft};
use crate::capture_laws::{capture_after, lemma_one_more};
use crate::capture_progress::{captures_never_go_back, stage};
use crate::clipboard::{FileSetComponent, SystemClipboardSnapshot};
use crate::file_set::ContentHash;
use vstd::prelude::*;

verus! {

/// The snapshot that a capture in this state hashes, selects from, measures
/// or stores.
pub open spec fn snapshot_at(state: CaptureView) -> Option<SystemClipboardSnapshot> {
    match state {
        CaptureView::NewEventId { draft } => Some(draft.snapshot),
        CaptureView::CurrentDevice { draft, event_id } => Some(draft.snapshot),
        CaptureView::LoadCaps { sourced } => Some(sourced.draft.snapshot),
        CaptureView::BuildFileSet { sourced, manifest } => Some(sourced.draft.snapshot),
        CaptureView::Contribution { sourced, file_set } => Some(sourced.draft.snapshot),
        CaptureView::HashSnapshot { sourced, file_set } => Some(sourced.draft.snapshot),
        CaptureView::Lock { work, port } => Some(work.draft.snapshot),
        CaptureView::Find { work } => Some(work.draft.snapshot),
        CaptureView::Touch { work, existing } => Some(work.draft.snapshot),
        CaptureView::LoadRetention { work, list_entries } => Some(work.draft.snapshot),
        CaptureView::LatestEntry { work, port } => Some(work.draft.snapshot),
        CaptureView::Normalize { work } => Some(work.draft.snapshot),
        CaptureView::InsertEvent { work } => Some(work.draft.snapshot),
        CaptureView::Cache { work, payload, rest, kept } => Some(work.draft.snapshot),
        CaptureView::NewEntryId { work, payloads } => Some(work.draft.snapshot),
        CaptureView::Select { work, payloads, entry_id } => Some(work.draft.snapshot),
        CaptureView::Spool { work, choice, payload, rest } => Some(work.draft.snapshot),
        CaptureView::Measure { work, choice } => Some(work.draft.snapshot),
        CaptureView::Clock { work, choice, measure } => Some(work.draft.snapshot),
        _ => None,
    }
}

proof fn lemma_early_step(state: CaptureView, reply: CaptureReply)
    requires
        state is NewEventId || state is CurrentDevice || state is LoadCaps || state is BuildFileSet
            || state is HashSnapshot,
    ensures
        snapshot_at(state.step(reply)) matches Some(after) ==> snapshot_at(state) == Some(after),
{
}

proof fn lemma_middle_step(state: CaptureView, reply: CaptureReply)
    requires
        state is Lock || state is Find || state is Touch || state is LoadRetention || state
            is LatestEntry,
    ensures
        snapshot_at(state.step(reply)) matches Some(after) ==> snapshot_at(state) == Some(after),
{
}

proof fn lemma_late_step(state: CaptureView, reply: CaptureReply)
    requires
        state is Normalize || state is InsertEvent || state is Cache || state is NewEntryId || state
            is Select || state is Spool || state is Measure || state is Clock || state is Persist
            || state is SaveFileSet || state is Report || state is Done,
    ensures
        snapshot_at(state.step(reply)) matches Some(after) ==> snapshot_at(state) == Some(after),
{
}

/// A capture keeps its snapshot as it is: only what the copied files
/// contribute ever changes it.
pub proof fn snapshots_stay_as_they_are(state: CaptureView, reply: CaptureReply)
    requires
        state !is Contribution,
    ensures
        snapshot_at(state.step(reply)) matches Some(after) ==> snapshot_at(state) == Some(after),
{
    if state is NewEventId || state is CurrentDevice || state is LoadCaps || state is BuildFileSet
        || state is HashSnapshot {
        lemma_early_step(state, reply);
    } else if state is Lock || state is Find || state is Touch || state is LoadRetention || state
        is LatestEntry {
        lemma_middle_step(state, reply);
    } else {
        lemma_late_step(state, reply);
    }
}

proof fn lemma_kept(
    draft: Draft,
    replies: Seq<CaptureReply>,
    more: Seq<CaptureReply>,
    snapshot: SystemClipboardSnapshot,
)
    requires
        stage(capture_after(draft, replies)) < 18,
        snapshot_at(capture_after(draft, replies)) matches Some(held) ==> held == snapshot,
    ensures
        stage(capture_after(draft, replies + more)) < 18,
        snapshot_at(capture_after(draft, replies + more)) matches Some(held) ==> held == snapshot,
    decreases more.len(),
{
    if more.len() == 0 {
        assert(replies + more == replies);
    } else {
        let before = replies + more.drop_last();
        lemma_kept(draft, replies, more.drop_last(), snapshot);
        assert(replies + more == before.push(more.last()));
        lemma_one_more(draft, before, more.last());
        captures_never_go_back(capture_after(draft, before), more.last());
        snapshots_stay_as_they_are(capture_after(draft, before), more.last());
    }
}

/// From the answer on what the copied files contribute, every snapshot that
/// the capture hashes, selects from and measures has it: the component of a
/// set with directories; else all the digests, and nothing but them, where
/// there are any; and where there is neither, what it had before.
pub proof fn contributions_stay(
    draft: Draft,
    replies: Seq<CaptureReply>,
    component: Option<FileSetComponent>,
    digests: Vec<ContentHash>,
    more: Seq<CaptureReply>,
)
    requires
        capture_after(draft, replies) is Contribution,
    ensures
        ({
            let before = snapshot_at(capture_after(draft, replies))->0;
            snapshot_at(
                capture_after(
                    draft,
                    replies.push(CaptureReply::Contribution { component, digests }) + more,
                ),
            ) matches Some(after) ==> {
                &&& after.ts_ms == before.ts_ms
                &&& after.representations == before.representations
                &&& component is Some ==> after.file_set_v1_component == component
                    && after.file_content_digests == before.file_content_digests
                &&& component is None ==> after.file_set_v1_component
                    == before.file_set_v1_component
                &&& component is None && digests@.len() > 0 ==> after.file_content_digests
                    == digests
                &&& component is None && digests@.len() == 0 ==> after.file_content_digests
                    == before.file_content_digests
            }
        }),
{
    let state = capture_after(draft, replies);
    let reply = CaptureReply::Contribution { component, digests };
    let before = snapshot_at(state)->0;
    let after = SystemClipboardSnapshot {
        file_content_digests: if component is None && digests@.len() > 0 {
            digests
        } else {
            before.file_content_digests
        },
        file_set_v1_component: if component is Some {
            component
        } else {
            before.file_set_v1_component
        },
        ..before
    };
    lemma_one_more(draft, replies, reply);
    lemma_contributed(state, component, digests, after);
    lemma_kept(draft, replies.push(reply), more, after);
}

proof fn lemma_contributed(
    state: CaptureView,
    component: Option<FileSetComponent>,
    digests: Vec<ContentHash>,
    after: SystemClipboardSnapshot,
)
    requires
        state is Contribution,
        ({
            let before = snapshot_at(state)->0;
            after == SystemClipboardSnapshot {
                file_content_digests: if component is None && digests@.len() > 0 {
                    digests
                } else {
                    before.file_content_digests
                },
                file_set_v1_component: if component is Some {
                    component
                } else {
                    before.file_set_v1_component
                },
                ..before
            }
        }),
    ensures
        ({
            let next = state.step(CaptureReply::Contribution { component, digests });
            &&& stage(next) < 18
            &&& snapshot_at(next) matches Some(held) ==> held == after
        }),
{
    if let CaptureView::Contribution { sourced, file_set } = state {
        assert(sourced.digested(component, digests).draft.snapshot == after);
    }
}

} // verus!

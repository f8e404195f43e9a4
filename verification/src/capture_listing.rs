//! The listing of entries matters to local captures alone.

use crate::capture::{
    AftermathView, CaptureClipboardUseCase, CaptureReply, CaptureView, Draft, Sourced, WorkView,
};
use crate::capture_laws::{capture_after, lemma_last, lemma_no_answers};
use crate::clipboard::{ClipboardChangeOrigin, SnapshotHash};
use crate::file_set::LineView;
use crate::records::PortRef;
use vstd::prelude::*;

verus! {

/// The use case, with entries listed by the given port or by none.
pub open spec fn listing_by(
    use_case: CaptureClipboardUseCase,
    port: Option<PortRef>,
) -> CaptureClipboardUseCase {
    CaptureClipboardUseCase { list_entries: port, ..use_case }
}

/// The same capture on such a use case.
pub open spec fn draft_listing_by(draft: Draft, port: Option<PortRef>) -> Draft {
    Draft { use_case: listing_by(draft.use_case, port), ..draft }
}

/// The same on such a use case.
pub open spec fn sourced_listing_by(sourced: Sourced, port: Option<PortRef>) -> Sourced {
    Sourced { draft: draft_listing_by(sourced.draft, port), ..sourced }
}

/// The same on such a use case.
pub open spec fn work_listing_by(work: WorkView, port: Option<PortRef>) -> WorkView {
    WorkView { draft: draft_listing_by(work.draft, port), ..work }
}

/// The same on such a use case.
pub open spec fn aftermath_listing_by(aftermath: AftermathView, port: Option<PortRef>) -> AftermathView {
    AftermathView { use_case: listing_by(aftermath.use_case, port), ..aftermath }
}

/// The same state of a capture on such a use case: nothing else differs.
pub open spec fn state_listing_by(state: CaptureView, port: Option<PortRef>) -> CaptureView {
    match state {
        CaptureView::NewEventId { draft } => CaptureView::NewEventId {
            draft: draft_listing_by(draft, port),
        },
        CaptureView::CurrentDevice { draft, event_id } => CaptureView::CurrentDevice {
            draft: draft_listing_by(draft, port),
            event_id,
        },
        CaptureView::LoadCaps { sourced } => CaptureView::LoadCaps {
            sourced: sourced_listing_by(sourced, port),
        },
        CaptureView::BuildFileSet { sourced, manifest } => CaptureView::BuildFileSet {
            sourced: sourced_listing_by(sourced, port),
            manifest,
        },
        CaptureView::Contribution { sourced, file_set } => CaptureView::Contribution {
            sourced: sourced_listing_by(sourced, port),
            file_set,
        },
        CaptureView::HashSnapshot { sourced, file_set } => CaptureView::HashSnapshot {
            sourced: sourced_listing_by(sourced, port),
            file_set,
        },
        CaptureView::Lock { work, port: lock } => CaptureView::Lock {
            work: work_listing_by(work, port),
            port: lock,
        },
        CaptureView::Find { work } => CaptureView::Find { work: work_listing_by(work, port) },
        CaptureView::Touch { work, existing } => CaptureView::Touch {
            work: work_listing_by(work, port),
            existing,
        },
        CaptureView::LoadRetention { work, list_entries } => CaptureView::LoadRetention {
            work: work_listing_by(work, port),
            list_entries,
        },
        CaptureView::LatestEntry { work, port: listing } => CaptureView::LatestEntry {
            work: work_listing_by(work, port),
            port: listing,
        },
        CaptureView::Normalize { work } => CaptureView::Normalize {
            work: work_listing_by(work, port),
        },
        CaptureView::InsertEvent { work } => CaptureView::InsertEvent {
            work: work_listing_by(work, port),
        },
        CaptureView::Cache { work, payload, rest, kept } => CaptureView::Cache {
            work: work_listing_by(work, port),
            payload,
            rest,
            kept,
        },
        CaptureView::NewEntryId { work, payloads } => CaptureView::NewEntryId {
            work: work_listing_by(work, port),
            payloads,
        },
        CaptureView::Select { work, payloads, entry_id } => CaptureView::Select {
            work: work_listing_by(work, port),
            payloads,
            entry_id,
        },
        CaptureView::Spool { work, choice, payload, rest } => CaptureView::Spool {
            work: work_listing_by(work, port),
            choice,
            payload,
            rest,
        },
        CaptureView::Measure { work, choice } => CaptureView::Measure {
            work: work_listing_by(work, port),
            choice,
        },
        CaptureView::Clock { work, choice, measure } => CaptureView::Clock {
            work: work_listing_by(work, port),
            choice,
            measure,
        },
        CaptureView::Persist { record, aftermath } => CaptureView::Persist {
            record,
            aftermath: aftermath_listing_by(aftermath, port),
        },
        CaptureView::SaveFileSet { aftermath, file_set } => CaptureView::SaveFileSet {
            aftermath: aftermath_listing_by(aftermath, port),
            file_set,
        },
        CaptureView::Report { port: analytics, report, outcome } => CaptureView::Report {
            port: analytics,
            report,
            outcome,
        },
        CaptureView::Done { result } => CaptureView::Done { result },
    }
}

spec fn came_from_elsewhere(draft: Draft) -> bool {
    draft.origin != ClipboardChangeOrigin::LocalCapture
}

spec fn is_from_elsewhere(state: CaptureView) -> bool {
    match state {
        CaptureView::NewEventId { draft } => came_from_elsewhere(draft),
        CaptureView::CurrentDevice { draft, event_id } => came_from_elsewhere(draft),
        CaptureView::LoadCaps { sourced } => came_from_elsewhere(sourced.draft),
        CaptureView::BuildFileSet { sourced, manifest } => came_from_elsewhere(sourced.draft),
        CaptureView::Contribution { sourced, file_set } => came_from_elsewhere(sourced.draft),
        CaptureView::HashSnapshot { sourced, file_set } => came_from_elsewhere(sourced.draft),
        CaptureView::Lock { work, port } => false,
        CaptureView::Find { work } => false,
        CaptureView::Touch { work, existing } => false,
        CaptureView::LoadRetention { work, list_entries } => false,
        CaptureView::LatestEntry { work, port } => false,
        _ => true,
    }
}

proof fn lemma_identified(
    sourced: Sourced,
    file_set: Option<Seq<LineView>>,
    hash: SnapshotHash,
    port: Option<PortRef>,
)
    requires
        came_from_elsewhere(sourced.draft),
    ensures
        sourced_listing_by(sourced, port).identified(file_set, hash) == state_listing_by(
            sourced.identified(file_set, hash),
            port,
        ),
        is_from_elsewhere(sourced.identified(file_set, hash)),
{
}

proof fn lemma_identify(
    sourced: Sourced,
    file_set: Option<Seq<LineView>>,
    port: Option<PortRef>,
)
    requires
        came_from_elsewhere(sourced.draft),
    ensures
        sourced_listing_by(sourced, port).identify(file_set) == state_listing_by(
            sourced.identify(file_set),
            port,
        ),
        is_from_elsewhere(sourced.identify(file_set)),
{
    if let Some(hash) = sourced.draft.authoritative_hash {
        lemma_identified(sourced, file_set, hash, port);
    }
}

proof fn lemma_sourced(sourced: Sourced, port: Option<PortRef>)
    requires
        came_from_elsewhere(sourced.draft),
    ensures
        sourced_listing_by(sourced, port).sourced() == state_listing_by(sourced.sourced(), port),
        is_from_elsewhere(sourced.sourced()),
{
    lemma_identify(sourced, None, port);
}

proof fn lemma_early_step(state: CaptureView, reply: CaptureReply, port: Option<PortRef>)
    requires
        is_from_elsewhere(state),
        state is NewEventId || state is CurrentDevice || state is LoadCaps || state is BuildFileSet
            || state is Contribution || state is HashSnapshot,
    ensures
        state_listing_by(state, port).step(reply) == state_listing_by(state.step(reply), port),
        is_from_elsewhere(state.step(reply)),
{
    match (state, reply) {
        (CaptureView::NewEventId { draft }, CaptureReply::EventId(event_id)) => {
            if let ClipboardChangeOrigin::RemotePush { from_device: Some(device) } = draft.origin {
                lemma_sourced(Sourced { draft, event_id, source_device: device }, port);
            }
        },
        (
            CaptureView::CurrentDevice { draft, event_id },
            CaptureReply::Device(source_device),
        ) => {
            lemma_sourced(Sourced { draft, event_id, source_device }, port);
        },
        (CaptureView::LoadCaps { sourced }, CaptureReply::Settings(settings)) => {
            lemma_identify(sourced, None, port);
        },
        (CaptureView::BuildFileSet { sourced, manifest }, CaptureReply::Manifest(answer)) => {
            lemma_identify(sourced, None, port);
        },
        (
            CaptureView::Contribution { sourced, file_set },
            CaptureReply::Contribution { component, digests },
        ) => {
            lemma_identify(sourced.digested(component, digests), Some(file_set), port);
        },
        (CaptureView::HashSnapshot { sourced, file_set }, CaptureReply::Hash(hash)) => {
            lemma_identified(sourced, file_set, hash, port);
        },
        _ => {},
    }
}

proof fn lemma_middle_step(state: CaptureView, reply: CaptureReply, port: Option<PortRef>)
    requires
        state is Normalize || state is InsertEvent || state is Cache || state is NewEntryId
            || state is Select || state is Spool,
    ensures
        state_listing_by(state, port).step(reply) == state_listing_by(state.step(reply), port),
        is_from_elsewhere(state.step(reply)),
{
}

proof fn lemma_late_step(state: CaptureView, reply: CaptureReply, port: Option<PortRef>)
    requires
        state is Measure || state is Clock || state is Persist || state is SaveFileSet || state
            is Report || state is Done,
    ensures
        state_listing_by(state, port).step(reply) == state_listing_by(state.step(reply), port),
        is_from_elsewhere(state.step(reply)),
{
}

proof fn lemma_from_elsewhere(draft: Draft, replies: Seq<CaptureReply>, port: Option<PortRef>)
    requires
        came_from_elsewhere(draft),
    ensures
        is_from_elsewhere(capture_after(draft, replies)),
        capture_after(draft_listing_by(draft, port), replies) == state_listing_by(
            capture_after(draft, replies),
            port,
        ),
    decreases replies.len(),
{
    let other = draft_listing_by(draft, port);
    if replies.len() == 0 {
        lemma_no_answers(draft);
        lemma_no_answers(other);
        assert(replies == Seq::<CaptureReply>::empty());
    } else {
        lemma_last(draft, replies);
        lemma_last(other, replies);
        let before = replies.drop_last();
        lemma_from_elsewhere(draft, before, port);
        let state = capture_after(draft, before);
        if state is NewEventId || state is CurrentDevice || state is LoadCaps || state
            is BuildFileSet || state is Contribution || state is HashSnapshot {
            lemma_early_step(state, replies.last(), port);
        } else if state is Normalize || state is InsertEvent || state is Cache || state
            is NewEntryId || state is Select || state is Spool {
            lemma_middle_step(state, replies.last(), port);
        } else {
            lemma_late_step(state, replies.last(), port);
        }
    }
}

/// Whatever did not come onto the clipboard on this device is captured the
/// same with any listing of entries and with none: the same is asked for at
/// every point, and the result is the same.
pub proof fn only_local_captures_use_the_listing(
    draft: Draft,
    replies: Seq<CaptureReply>,
    port: Option<PortRef>,
)
    requires
        draft.origin != ClipboardChangeOrigin::LocalCapture,
    ensures
        capture_after(draft_listing_by(draft, port), replies) == state_listing_by(
            capture_after(draft, replies),
            port,
        ),
        capture_after(draft, replies) is Done ==> capture_after(
            draft_listing_by(draft, port),
            replies,
        ) == capture_after(draft, replies),
{
    lemma_from_elsewhere(draft, replies, port);
}

} // verus!

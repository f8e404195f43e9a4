//! What a capture is written to, and what stops it.

use crate::capture::{CaptureReply, CaptureView, Draft, PersistView, WorkView};
use crate::capture_laws::{capture_after, lemma_one_more};
use crate::clipboard::EntryId;
use crate::records::{CaptureError, CommitMode};
use vstd::prelude::*;

verus! {

/// The capture is to be written in this way, and, where `target` is given, to
/// that entry.
spec fn heads_for(mode: CommitMode, target: Option<EntryId>, work: WorkView) -> bool {
    &&& work.draft.commit_mode == mode
    &&& work.draft.commit is None
    &&& target is Some ==> work.draft.preset_entry_id == target
}

spec fn chosen(target: Option<EntryId>, entry_id: EntryId) -> bool {
    target matches Some(expected) ==> entry_id == expected
}

spec fn on_course(mode: CommitMode, target: Option<EntryId>, state: CaptureView) -> bool {
    match state {
        CaptureView::Normalize { work } => heads_for(mode, target, work),
        CaptureView::InsertEvent { work } => heads_for(mode, target, work) && mode
            == CommitMode::Create,
        CaptureView::Cache { work, payload, rest, kept } => heads_for(mode, target, work),
        CaptureView::NewEntryId { work, payloads } => heads_for(mode, target, work) && target
            is None,
        CaptureView::Select { work, payloads, entry_id } => heads_for(mode, target, work)
            && chosen(target, entry_id),
        CaptureView::Spool { work, choice, payload, rest } => heads_for(mode, target, work)
            && chosen(target, choice.entry_id),
        CaptureView::Measure { work, choice } => heads_for(mode, target, work) && chosen(
            target,
            choice.entry_id,
        ),
        CaptureView::Clock { work, choice, measure } => heads_for(mode, target, work) && chosen(
            target,
            choice.entry_id,
        ),
        CaptureView::Persist { record, aftermath } => {
            &&& chosen(target, aftermath.outcome.entry_id)
            &&& match mode {
                CommitMode::Create => record is Save,
                CommitMode::Replace => record matches PersistView::Replace {
                    entry_id,
                    event,
                    representations,
                    selection,
                    total_size,
                    content_category,
                } && chosen(target, entry_id),
            }
        },
        CaptureView::SaveFileSet { aftermath, file_set } => chosen(
            target,
            aftermath.outcome.entry_id,
        ),
        CaptureView::Report { port, report, outcome } => chosen(target, outcome.entry_id),
        CaptureView::Done { result } => match result {
            Ok(Some(outcome)) => chosen(target, outcome.entry_id),
            Ok(None) => false,
            Err(error) => true,
        },
        _ => false,
    }
}

proof fn lemma_representation_on_course(
    mode: CommitMode,
    target: Option<EntryId>,
    state: CaptureView,
    reply: CaptureReply,
)
    requires
        on_course(mode, target, state),
        state is Normalize || state is InsertEvent || state is Cache,
    ensures
        on_course(mode, target, state.step(reply)),
{
}

proof fn lemma_selection_on_course(
    mode: CommitMode,
    target: Option<EntryId>,
    state: CaptureView,
    reply: CaptureReply,
)
    requires
        on_course(mode, target, state),
        state is NewEntryId || state is Select || state is Spool || state is Measure,
    ensures
        on_course(mode, target, state.step(reply)),
{
}

proof fn lemma_entry_on_course(
    mode: CommitMode,
    target: Option<EntryId>,
    state: CaptureView,
    reply: CaptureReply,
)
    requires
        on_course(mode, target, state),
        state is Clock || state is Persist || state is SaveFileSet || state is Report || state is Done,
    ensures
        on_course(mode, target, state.step(reply)),
{
}

proof fn lemma_step_on_course(
    mode: CommitMode,
    target: Option<EntryId>,
    state: CaptureView,
    reply: CaptureReply,
)
    requires
        on_course(mode, target, state),
    ensures
        on_course(mode, target, state.step(reply)),
{
    if state is Normalize || state is InsertEvent || state is Cache {
        lemma_representation_on_course(mode, target, state, reply);
    } else if state is NewEntryId || state is Select || state is Spool || state is Measure {
        lemma_selection_on_course(mode, target, state, reply);
    } else {
        lemma_entry_on_course(mode, target, state, reply);
    }
}

proof fn lemma_on_course(
    draft: Draft,
    replies: Seq<CaptureReply>,
    more: Seq<CaptureReply>,
    mode: CommitMode,
    target: Option<EntryId>,
)
    requires
        on_course(mode, target, capture_after(draft, replies)),
    ensures
        on_course(mode, target, capture_after(draft, replies + more)),
    decreases more.len(),
{
    if more.len() == 0 {
        assert(replies + more == replies);
    } else {
        lemma_on_course(draft, replies, more.drop_last(), mode, target);
        assert(replies + more == (replies + more.drop_last()).push(more.last()));
        lemma_one_more(draft, replies + more.drop_last(), more.last());
        lemma_step_on_course(
            mode,
            target,
            capture_after(draft, replies + more.drop_last()),
            more.last(),
        );
    }
}

/// Where no history is kept, a local capture takes the place of the latest
/// entry, and ends with that entry or with an error.
pub proof fn latest_entry_is_replaced(
    draft: Draft,
    replies: Seq<CaptureReply>,
    listed: Vec<EntryId>,
    more: Seq<CaptureReply>,
)
    requires
        capture_after(draft, replies) matches CaptureView::LatestEntry { work, port }
            && work.draft.commit is None,
        listed@.len() > 0,
    ensures
        ({
            let state = capture_after(
                draft,
                replies.push(CaptureReply::Entries(Ok(listed))) + more,
            );
            &&& state !is InsertEvent
            &&& state !is NewEntryId
            &&& state matches CaptureView::Persist { record, aftermath } ==> (
            record matches PersistView::Replace {
                entry_id,
                event,
                representations,
                selection,
                total_size,
                content_category,
            } && entry_id == listed@[0])
            &&& state matches CaptureView::Done { result } ==> (result matches Ok(done)
                ==> done matches Some(outcome) && outcome.entry_id == listed@[0])
        }),
{
    let next = replies.push(CaptureReply::Entries(Ok(listed)));
    lemma_one_more(draft, replies, CaptureReply::Entries(Ok(listed)));
    lemma_on_course(draft, next, more, CommitMode::Replace, Some(listed@[0]));
}

/// An event that is stored by itself belongs to a new entry: nothing that
/// replaces an entry, and no receipt, stores its event before its entry.
pub proof fn only_new_entries_store_events(
    draft: Draft,
    replies: Seq<CaptureReply>,
    more: Seq<CaptureReply>,
)
    requires
        capture_after(draft, replies) matches CaptureView::InsertEvent { work }
            && work.draft.commit_mode == CommitMode::Create && work.draft.commit is None,
    ensures
        capture_after(draft, replies + more) matches CaptureView::Persist { record, aftermath }
            ==> record is Save,
{
    lemma_on_course(draft, replies, more, CommitMode::Create, None);
}

/// What a capture ended with does not change.
pub proof fn results_are_final(
    draft: Draft,
    replies: Seq<CaptureReply>,
    more: Seq<CaptureReply>,
)
    requires
        capture_after(draft, replies) is Done,
    ensures
        capture_after(draft, replies + more) == capture_after(draft, replies),
    decreases more.len(),
{
    if more.len() == 0 {
        assert(replies + more == replies);
    } else {
        results_are_final(draft, replies, more.drop_last());
        assert(replies + more == (replies + more.drop_last()).push(more.last()));
        lemma_one_more(draft, replies + more.drop_last(), more.last());
    }
}

/// Where a payload cannot be written to the spool, the capture fails and no
/// entry is written, whatever else the host answers.
pub proof fn spool_failures_are_fatal(
    draft: Draft,
    replies: Seq<CaptureReply>,
    cause: String,
    more: Seq<CaptureReply>,
)
    requires
        capture_after(draft, replies) is Spool,
    ensures
        capture_after(draft, replies.push(CaptureReply::Spooled(Err(cause))) + more) == (
        CaptureView::Done {
            result: Err(
                CaptureError::Spool {
                    rep_id: capture_after(draft, replies)->Spool_payload.rep_id,
                    cause,
                },
            ),
        }),
{
    let next = replies.push(CaptureReply::Spooled(Err(cause)));
    lemma_one_more(draft, replies, CaptureReply::Spooled(Err(cause)));
    results_are_final(draft, next, more);
}

} // verus!

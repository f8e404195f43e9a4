//! Where no history is kept, and only there, a capture takes the place of the
//! latest entry.

use crate::capture::{CaptureReply, CaptureView, Draft};
use crate::capture_course::{
    mode_is_true, naming_latest, receipts_are_what_was_answered,
    replacements_are_what_was_answered,
};
use crate::capture_laws::{capture_after, latest_is_listed, lemma_last, lemma_no_answers};
use crate::capture_order::happened;
use crate::clipboard::{ClipboardChangeOrigin, EntryId};
use crate::records::{CaptureSettings, CommitMode, RetentionRule};
use vstd::prelude::*;

verus! {

/// No rule lets entries go at once, or the rules are off.
pub open spec fn keeps_some_history(settings: CaptureSettings) -> bool {
    ||| !settings.retention_enabled
    ||| forall|i: int|
        0 <= i < settings.retention_rules@.len() ==> (
        #[trigger] settings.retention_rules@[i] matches RetentionRule::ByAge { max_age_nanos }
            ==> max_age_nanos > 0)
}

/// A rule lets entries go at once, and the rules are on.
pub open spec fn drops_at_once(settings: CaptureSettings) -> bool {
    settings.retention_enabled && exists|i: int|
        0 <= i < settings.retention_rules@.len() && (
        #[trigger] settings.retention_rules@[i] matches RetentionRule::ByAge { max_age_nanos }
            && max_age_nanos == 0)
}

/// Settings say that no history is kept exactly where the rules are on and
/// one of them lets entries go at an age of nothing.
pub proof fn no_history_means_an_age_of_nothing(settings: CaptureSettings, r: bool)
    requires
        call_ensures(CaptureSettings::no_history, (&settings,), r),
    ensures
        r == drops_at_once(settings),
        r != keeps_some_history(settings),
{
    lemma_drops(settings);
}

proof fn lemma_drops(settings: CaptureSettings)
    ensures
        settings.keeps_no_history() == drops_at_once(settings),
        settings.keeps_no_history() != keeps_some_history(settings),
{
    if drops_at_once(settings) {
        let i = choose|i: int|
            0 <= i < settings.retention_rules@.len() && (
            #[trigger] settings.retention_rules@[i] matches RetentionRule::ByAge { max_age_nanos }
                && max_age_nanos == 0);
        assert(settings.retention_rules@[i] == RetentionRule::ByAge { max_age_nanos: 0 });
    }
    if settings.keeps_no_history() {
        let i = choose|i: int|
            0 <= i < settings.retention_rules@.len() && #[trigger] settings.retention_rules@[i]
                == RetentionRule::ByAge { max_age_nanos: 0 };
        assert(settings.retention_rules@[i] matches RetentionRule::ByAge { max_age_nanos }
            && max_age_nanos == 0);
    }
}

/// Whatever settings the host answers with keep some history.
pub open spec fn all_keep_history(replies: Seq<CaptureReply>) -> bool {
    forall|k: int|
        0 <= k < replies.len() ==> (#[trigger] replies[k] matches CaptureReply::Settings(
            Ok(settings),
        ) ==> keeps_some_history(settings))
}

proof fn lemma_early_step(state: CaptureView, reply: CaptureReply)
    requires
        state is NewEventId || state is CurrentDevice || state is LoadCaps || state is BuildFileSet
            || state is Contribution || state is HashSnapshot,
    ensures
        state.step(reply) !is LatestEntry,
{
}

proof fn lemma_later_step(state: CaptureView, reply: CaptureReply)
    requires
        state is Lock || state is Find || state is Touch || state is Normalize || state
            is InsertEvent || state is Cache,
    ensures
        state.step(reply) !is LatestEntry,
{
}

proof fn lemma_last_step(state: CaptureView, reply: CaptureReply)
    requires
        state is NewEntryId || state is Select || state is Spool || state is Measure || state
            is Clock || state is Persist || state is SaveFileSet || state is Report || state is Done,
    ensures
        state.step(reply) !is LatestEntry,
{
}

proof fn lemma_no_latest(draft: Draft, replies: Seq<CaptureReply>)
    requires
        all_keep_history(replies),
    ensures
        capture_after(draft, replies) !is LatestEntry,
    decreases replies.len(),
{
    if replies.len() == 0 {
        lemma_no_answers(draft);
        assert(replies == Seq::<CaptureReply>::empty());
    } else {
        lemma_last(draft, replies);
        let before = replies.drop_last();
        assert forall|k: int| 0 <= k < before.len() implies (
        #[trigger] before[k] matches CaptureReply::Settings(Ok(settings)) ==> keeps_some_history(
            settings,
        )) by {
            assert(replies[k] == before[k]);
        }
        lemma_no_latest(draft, before);
        let state = capture_after(draft, before);
        let reply = replies.last();
        assert(replies[replies.len() - 1] == reply);
        if state is LoadRetention {
            if let CaptureReply::Settings(Ok(settings)) = reply {
                lemma_drops(settings);
            }
        } else if state is NewEventId || state is CurrentDevice || state is LoadCaps || state
            is BuildFileSet || state is Contribution || state is HashSnapshot {
            lemma_early_step(state, reply);
        } else if state is Lock || state is Find || state is Touch || state is Normalize || state
            is InsertEvent || state is Cache {
            lemma_later_step(state, reply);
        } else {
            lemma_last_step(state, reply);
        }
    }
}

/// Where every rule lets entries reach some age, or the rules are off, a
/// capture never asks for the latest entry, and a new entry is written as
/// such: it takes no other entry's place.
pub proof fn history_is_kept(draft: Draft, replies: Seq<CaptureReply>)
    requires
        all_keep_history(replies),
        draft.commit_mode == CommitMode::Create,
    ensures
        capture_after(draft, replies) !is LatestEntry,
        capture_after(draft, replies) matches CaptureView::Persist { record, aftermath } ==> record
            !is Replace,
        draft.commit is None ==> (capture_after(draft, replies) matches CaptureView::Persist {
            record,
            aftermath,
        } ==> record is Save),
{
    lemma_no_latest(draft, replies);
    if let CaptureView::Persist { record, aftermath } = capture_after(draft, replies) {
        if record is Commit {
            receipts_are_what_was_answered(draft, replies);
        }
        if record is Replace {
            replacements_are_what_was_answered(draft, replies);
            let preset = choose|preset: Option<EntryId>| #[trigger]
                mode_is_true(draft, replies, CommitMode::Replace, preset);
            lemma_never_named(draft, replies, preset->0);
        }
    }
}

proof fn lemma_never_named(
    draft: Draft,
    replies: Seq<CaptureReply>,
    target: EntryId,
)
    requires
        all_keep_history(replies),
    ensures
        !happened(draft, replies, naming_latest(target)),
{
    reveal(happened);
    if happened(draft, replies, naming_latest(target)) {
        let what = naming_latest(target);
        let k = choose|k: int|
            0 <= k < replies.len() && what(
                capture_after(draft, replies.take(k)),
                #[trigger] replies[k],
            );
        let front = replies.take(k);
        assert forall|i: int| 0 <= i < front.len() implies (
        #[trigger] front[i] matches CaptureReply::Settings(Ok(settings)) ==> keeps_some_history(
            settings,
        )) by {
            assert(replies[i] == front[i]);
        }
        lemma_no_latest(draft, front);
    }
}

/// Only a new entry that the user copied can take the latest one's place:
/// every other capture is written as it was asked to be.
pub proof fn only_local_new_entries_take_a_place(draft: Draft, replies: Seq<CaptureReply>)
    requires
        draft.commit is None,
        draft.commit_mode == CommitMode::Create,
        draft.origin != ClipboardChangeOrigin::LocalCapture || draft.use_case.list_entries is None,
    ensures
        capture_after(draft, replies) matches CaptureView::Persist { record, aftermath } ==> record
            is Save,
{
    if let CaptureView::Persist { record, aftermath } = capture_after(draft, replies) {
        if record is Commit {
            receipts_are_what_was_answered(draft, replies);
        }
        if record is Replace {
            replacements_are_what_was_answered(draft, replies);
            let preset = choose|preset: Option<EntryId>| #[trigger]
                mode_is_true(draft, replies, CommitMode::Replace, preset);
            lemma_latest_is_listed(draft, replies, preset->0);
        }
    }
}

proof fn lemma_latest_is_listed(
    draft: Draft,
    replies: Seq<CaptureReply>,
    target: EntryId,
)
    requires
        draft.origin == ClipboardChangeOrigin::LocalCapture,
        draft.use_case.list_entries is None,
    ensures
        !happened(draft, replies, naming_latest(target)),
{
    reveal(happened);
    if happened(draft, replies, naming_latest(target)) {
        let what = naming_latest(target);
        let k = choose|k: int|
            0 <= k < replies.len() && what(
                capture_after(draft, replies.take(k)),
                #[trigger] replies[k],
            );
        latest_is_listed(draft, replies.take(k));
    }
}

} // verus!

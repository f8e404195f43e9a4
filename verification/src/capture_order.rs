//! In which order a capture does things: what an entry rests on is durable
//! before the entry is.

use crate::capture::{CaptureReply, CaptureView, Choice, Draft, Measure, Sourced, WorkView};
use crate::capture_laws::{capture_after, lemma_last, lemma_no_answers};
use crate::clipboard::{ClipboardPayloadSource, EntryId, SnapshotHash};
use crate::records::{CaptureOutcome, CommitMode, PayloadView};
use vstd::prelude::*;

verus! {

/// In the course of a capture, `what` held of a state and of the answer that
/// came in it.
#[verifier::opaque]
pub open spec fn happened(
    draft: Draft,
    replies: Seq<CaptureReply>,
    what: spec_fn(CaptureView, CaptureReply) -> bool,
) -> bool {
    exists|k: int|
        0 <= k < replies.len() && what(
            capture_after(draft, replies.take(k)),
            #[trigger] replies[k],
        )
}

/// The payload was written to the spool.
pub open spec fn spooling(payload: PayloadView) -> spec_fn(CaptureView, CaptureReply) -> bool {
    |state: CaptureView, reply: CaptureReply|
        {
            &&& state matches CaptureView::Spool { work, choice, payload: written, rest }
            &&& written == payload
            &&& reply matches CaptureReply::Spooled(Ok(_))
        }
}

/// The event was stored by itself.
pub open spec fn inserting() -> spec_fn(CaptureView, CaptureReply) -> bool {
    |state: CaptureView, reply: CaptureReply|
        state is InsertEvent && (reply matches CaptureReply::EventInserted(Ok(_)))
}

/// The entry was made durable.
pub open spec fn persisting() -> spec_fn(CaptureView, CaptureReply) -> bool {
    |state: CaptureView, reply: CaptureReply|
        state is Persist && (reply matches CaptureReply::Persisted(Ok(_)))
}

/// The content was found to have this identity.
pub open spec fn hashing(hash: SnapshotHash) -> spec_fn(CaptureView, CaptureReply) -> bool {
    |state: CaptureView, reply: CaptureReply|
        state is HashSnapshot && reply == CaptureReply::Hash(hash)
}

/// This entry was brought to the top of the history.
pub open spec fn touching(entry_id: EntryId) -> spec_fn(CaptureView, CaptureReply) -> bool {
    |state: CaptureView, reply: CaptureReply|
        {
            &&& state matches CaptureView::Touch { work, existing }
            &&& existing == entry_id
            &&& reply matches CaptureReply::Touched(Ok(true))
        }
}

/// All of these payloads were written to the spool.
pub open spec fn all_spooled(
    draft: Draft,
    replies: Seq<CaptureReply>,
    payloads: Seq<PayloadView>,
) -> bool {
    forall|i: int|
        0 <= i < payloads.len() ==> happened(draft, replies, spooling(#[trigger] payloads[i]))
}

/// The identity under which something is stored was given, or is the one that
/// the content was found to have.
pub open spec fn identity_is_known(
    draft: Draft,
    replies: Seq<CaptureReply>,
    hash: SnapshotHash,
) -> bool {
    match draft.authoritative_hash {
        Some(given) => given == hash,
        None => happened(draft, replies, hashing(hash)),
    }
}

/// What has happened has happened.
pub proof fn lemma_still(
    draft: Draft,
    replies: Seq<CaptureReply>,
    what: spec_fn(CaptureView, CaptureReply) -> bool,
)
    requires
        replies.len() > 0,
        happened(draft, replies.drop_last(), what),
    ensures
        happened(draft, replies, what),
{
    reveal(happened);
    let before = replies.drop_last();
    let k = choose|k: int|
        0 <= k < before.len() && what(capture_after(draft, before.take(k)), #[trigger] before[k]);
    assert(before.take(k) == replies.take(k));
    assert(replies[k] == before[k]);
}

/// The last answer came in the given state.
#[verifier::opaque]
spec fn came_in(draft: Draft, replies: Seq<CaptureReply>, state: CaptureView) -> bool {
    replies.len() > 0 && state == capture_after(draft, replies.drop_last())
}

proof fn lemma_now(
    draft: Draft,
    replies: Seq<CaptureReply>,
    state: CaptureView,
    what: spec_fn(CaptureView, CaptureReply) -> bool,
)
    requires
        came_in(draft, replies, state),
        what(state, replies.last()),
    ensures
        happened(draft, replies, what),
{
    reveal(happened);
    reveal(came_in);
    let k = replies.len() - 1;
    assert(replies.take(k) == replies.drop_last());
    assert(what(capture_after(draft, replies.take(k)), replies[k]));
}

/// What holds of the last answer has happened.
pub proof fn lemma_just_now(
    draft: Draft,
    replies: Seq<CaptureReply>,
    what: spec_fn(CaptureView, CaptureReply) -> bool,
)
    requires
        replies.len() > 0,
        what(capture_after(draft, replies.drop_last()), replies.last()),
    ensures
        happened(draft, replies, what),
{
    reveal(came_in);
    lemma_now(draft, replies, capture_after(draft, replies.drop_last()), what);
}

proof fn lemma_still_spooled(draft: Draft, replies: Seq<CaptureReply>, payloads: Seq<PayloadView>)
    requires
        replies.len() > 0,
        all_spooled(draft, replies.drop_last(), payloads),
    ensures
        all_spooled(draft, replies, payloads),
{
    assert forall|i: int| 0 <= i < payloads.len() implies happened(
        draft,
        replies,
        spooling(#[trigger] payloads[i]),
    ) by {
        lemma_still(draft, replies, spooling(payloads[i]));
    }
}

/// The content of the work is identified.
spec fn identified(draft: Draft, replies: Seq<CaptureReply>, work: WorkView) -> bool {
    &&& identity_is_known(draft, replies, work.event.snapshot_hash)
    &&& work.draft.authoritative_hash == draft.authoritative_hash
}

/// The event is stored, where it is stored by itself.
spec fn event_stored(draft: Draft, replies: Seq<CaptureReply>, work: WorkView) -> bool {
    work.draft.commit_mode == CommitMode::Create && work.draft.commit is None ==> happened(
        draft,
        replies,
        inserting(),
    )
}

spec fn outcome_told(draft: Draft, replies: Seq<CaptureReply>, outcome: CaptureOutcome) -> bool {
    &&& exists|hash: SnapshotHash|
        #![trigger identity_is_known(draft, replies, hash)]
        identity_is_known(draft, replies, hash) && outcome.snapshot_hash == hash.0
    &&& if outcome.deduplicated {
        happened(draft, replies, touching(outcome.entry_id))
    } else {
        happened(draft, replies, persisting())
    }
}

/// A work whose payloads are in the spool, and whose event is stored where it
/// is stored by itself.
pub open spec fn is_durable(draft: Draft, replies: Seq<CaptureReply>, work: WorkView) -> bool {
    &&& identity_is_known(draft, replies, work.event.snapshot_hash)
    &&& all_spooled(draft, replies, work.payloads())
    &&& work.draft.commit_mode == CommitMode::Create && work.draft.commit is None ==> happened(
        draft,
        replies,
        inserting(),
    )
}

/// The state was reached from a durable work.
pub open spec fn persists(
    draft: Draft,
    replies: Seq<CaptureReply>,
    state: CaptureView,
    work: WorkView,
    choice: Choice,
    measure: Measure,
    now_ms: i64,
) -> bool {
    is_durable(draft, replies, work) && state == work.persisting(choice, measure, now_ms)
}

spec fn told(draft: Draft, replies: Seq<CaptureReply>, state: CaptureView) -> bool {
    match state {
        CaptureView::NewEventId { draft: given } => given.authoritative_hash
            == draft.authoritative_hash,
        CaptureView::CurrentDevice { draft: given, event_id } => given.authoritative_hash
            == draft.authoritative_hash,
        CaptureView::LoadCaps { sourced } => sourced.draft.authoritative_hash
            == draft.authoritative_hash,
        CaptureView::BuildFileSet { sourced, manifest } => sourced.draft.authoritative_hash
            == draft.authoritative_hash,
        CaptureView::Contribution { sourced, file_set } => sourced.draft.authoritative_hash
            == draft.authoritative_hash,
        CaptureView::HashSnapshot { sourced, file_set } => sourced.draft.authoritative_hash
            == draft.authoritative_hash && draft.authoritative_hash is None,
        CaptureView::Lock { work, port } => identified(draft, replies, work),
        CaptureView::Find { work } => identified(draft, replies, work),
        CaptureView::Touch { work, existing } => identified(draft, replies, work),
        CaptureView::LoadRetention { work, list_entries } => identified(draft, replies, work),
        CaptureView::LatestEntry { work, port } => identified(draft, replies, work),
        CaptureView::Normalize { work } => identified(draft, replies, work),
        CaptureView::InsertEvent { work } => identified(draft, replies, work),
        CaptureView::Cache { work, payload, rest, kept } => {
            &&& identified(draft, replies, work)
            &&& event_stored(draft, replies, work)
            &&& kept.push(payload) + rest == work.payloads()
        },
        CaptureView::NewEntryId { work, payloads } => {
            &&& identified(draft, replies, work)
            &&& event_stored(draft, replies, work)
            &&& payloads == work.payloads()
        },
        CaptureView::Select { work, payloads, entry_id } => {
            &&& identified(draft, replies, work)
            &&& event_stored(draft, replies, work)
            &&& payloads == work.payloads()
        },
        CaptureView::Spool { work, choice, payload, rest } => {
            let written = work.payloads().len() - rest.len() - 1;
            &&& identified(draft, replies, work)
            &&& event_stored(draft, replies, work)
            &&& 0 <= written
            &&& work.payloads().skip(written) == seq![payload] + rest
            &&& all_spooled(draft, replies, work.payloads().take(written))
        },
        CaptureView::Measure { work, choice } => is_durable(draft, replies, work),
        CaptureView::Clock { work, choice, measure } => is_durable(draft, replies, work),
        CaptureView::Persist { record, aftermath } => exists|
            work: WorkView,
            choice: Choice,
            measure: Measure,
            now_ms: i64,
        | #[trigger]
            persists(draft, replies, state, work, choice, measure, now_ms),
        CaptureView::SaveFileSet { aftermath, file_set } => outcome_told(
            draft,
            replies,
            aftermath.outcome,
        ) && !aftermath.outcome.deduplicated,
        CaptureView::Report { port, report, outcome } => outcome_told(draft, replies, outcome)
            && !outcome.deduplicated,
        CaptureView::Done { result } => match result {
            Ok(Some(outcome)) => outcome_told(draft, replies, outcome),
            _ => true,
        },
    }
}

proof fn lemma_identity_still(draft: Draft, replies: Seq<CaptureReply>, hash: SnapshotHash)
    requires
        replies.len() > 0,
        identity_is_known(draft, replies.drop_last(), hash),
    ensures
        identity_is_known(draft, replies, hash),
{
    if draft.authoritative_hash is None {
        lemma_still(draft, replies, hashing(hash));
    }
}

proof fn lemma_work_still(draft: Draft, replies: Seq<CaptureReply>, work: WorkView)
    requires
        replies.len() > 0,
        identity_is_known(draft, replies.drop_last(), work.event.snapshot_hash),
    ensures
        identity_is_known(draft, replies, work.event.snapshot_hash),
        event_stored(draft, replies.drop_last(), work) ==> event_stored(draft, replies, work),
{
    lemma_identity_still(draft, replies, work.event.snapshot_hash);
    if happened(draft, replies.drop_last(), inserting()) {
        lemma_still(draft, replies, inserting());
    }
}

proof fn lemma_outcome_still(draft: Draft, replies: Seq<CaptureReply>, outcome: CaptureOutcome)
    requires
        replies.len() > 0,
        outcome_told(draft, replies.drop_last(), outcome),
    ensures
        outcome_told(draft, replies, outcome),
{
    let before = replies.drop_last();
    let hash = choose|hash: SnapshotHash|
        #![trigger identity_is_known(draft, before, hash)]
        identity_is_known(draft, before, hash) && outcome.snapshot_hash == hash.0;
    lemma_identity_still(draft, replies, hash);
    if outcome.deduplicated {
        lemma_still(draft, replies, touching(outcome.entry_id));
    } else {
        lemma_still(draft, replies, persisting());
    }
}

proof fn lemma_cache_next(
    draft: Draft,
    replies: Seq<CaptureReply>,
    work: WorkView,
    waiting: Seq<PayloadView>,
    kept: Seq<PayloadView>,
)
    requires
        identified(draft, replies, work),
        event_stored(draft, replies, work),
        kept + waiting == work.payloads(),
    ensures
        told(draft, replies, work.cache_next(waiting, kept)),
{
    if waiting.len() == 0 {
        assert(kept + waiting == kept);
    } else {
        assert(kept.push(waiting[0]) + waiting.drop_first() == kept + waiting);
    }
}

proof fn lemma_next_representation(draft: Draft, replies: Seq<CaptureReply>, work: WorkView)
    requires
        identified(draft, replies, work),
    ensures
        told(draft, replies, work.next_representation()),
{
    if !(work.draft.commit_mode == CommitMode::Create && work.draft.commit is None) {
        assert(Seq::<PayloadView>::empty() + work.payloads() == work.payloads());
        lemma_cache_next(draft, replies, work, work.payloads(), seq![]);
    }
}

proof fn lemma_identify(
    draft: Draft,
    replies: Seq<CaptureReply>,
    sourced: Sourced,
    file_set: Option<Seq<crate::file_set::LineView>>,
    hash: SnapshotHash,
)
    requires
        sourced.draft.authoritative_hash == draft.authoritative_hash,
        identity_is_known(draft, replies, hash),
    ensures
        told(draft, replies, sourced.identified(file_set, hash)),
{
    let work = WorkView {
        draft: sourced.draft,
        event: crate::records::ClipboardEvent {
            event_id: sourced.event_id,
            captured_at_ms: sourced.draft.snapshot.ts_ms,
            source_device: sourced.source_device,
            snapshot_hash: hash,
        },
        file_set,
        representations: seq![],
    };
    lemma_next_representation(draft, replies, work);
}

proof fn lemma_identify_given(
    draft: Draft,
    replies: Seq<CaptureReply>,
    sourced: Sourced,
    file_set: Option<Seq<crate::file_set::LineView>>,
)
    requires
        sourced.draft.authoritative_hash == draft.authoritative_hash,
    ensures
        told(draft, replies, sourced.identify(file_set)),
{
    if let Some(hash) = draft.authoritative_hash {
        lemma_identify(draft, replies, sourced, file_set, hash);
    }
}

proof fn lemma_spool_next(
    draft: Draft,
    replies: Seq<CaptureReply>,
    work: WorkView,
    choice: Choice,
    waiting: Seq<PayloadView>,
)
    requires
        identified(draft, replies, work),
        event_stored(draft, replies, work),
        waiting.len() <= work.payloads().len(),
        work.payloads().skip(work.payloads().len() - waiting.len()) == waiting,
        all_spooled(
            draft,
            replies,
            work.payloads().take(work.payloads().len() - waiting.len()),
        ),
    ensures
        told(draft, replies, work.spool_next(choice, waiting)),
{
    if waiting.len() == 0 {
        assert(work.payloads().take(work.payloads().len() as int) == work.payloads());
    } else {
        assert(waiting == seq![waiting[0]] + waiting.drop_first());
    }
}

/// A state that an answer did not change.
proof fn lemma_unchanged(draft: Draft, replies: Seq<CaptureReply>, state: CaptureView)
    requires
        replies.len() > 0,
        told(draft, replies.drop_last(), state),
    ensures
        told(draft, replies, state),
{
    let before = replies.drop_last();
    match state {
        CaptureView::Lock { work, port } => lemma_work_still(draft, replies, work),
        CaptureView::Find { work } => lemma_work_still(draft, replies, work),
        CaptureView::Touch { work, existing } => lemma_work_still(draft, replies, work),
        CaptureView::LoadRetention { work, list_entries } => lemma_work_still(
            draft,
            replies,
            work,
        ),
        CaptureView::LatestEntry { work, port } => lemma_work_still(draft, replies, work),
        CaptureView::Normalize { work } => lemma_work_still(draft, replies, work),
        CaptureView::InsertEvent { work } => lemma_work_still(draft, replies, work),
        CaptureView::Cache { work, payload, rest, kept } => lemma_work_still(draft, replies, work),
        CaptureView::NewEntryId { work, payloads } => lemma_work_still(draft, replies, work),
        CaptureView::Select { work, payloads, entry_id } => lemma_work_still(draft, replies, work),
        CaptureView::Spool { work, choice, payload, rest } => {
            lemma_work_still(draft, replies, work);
            lemma_still_spooled(
                draft,
                replies,
                work.payloads().take(work.payloads().len() - rest.len() - 1),
            );
        },
        CaptureView::Measure { work, choice } => lemma_durable_still(draft, replies, work),
        CaptureView::Clock { work, choice, measure } => lemma_durable_still(draft, replies, work),
        CaptureView::Persist { record, aftermath } => {
            let (work, choice, measure, now_ms) = choose|
                work: WorkView,
                choice: Choice,
                measure: Measure,
                now_ms: i64,
            | #[trigger]
                persists(draft, before, state, work, choice, measure, now_ms);
            lemma_durable_still(draft, replies, work);
            assert(persists(draft, replies, state, work, choice, measure, now_ms));
        },
        CaptureView::SaveFileSet { aftermath, file_set } => {
            lemma_outcome_still(draft, replies, aftermath.outcome);
        },
        CaptureView::Report { port, report, outcome } => {
            lemma_outcome_still(draft, replies, outcome);
        },
        CaptureView::Done { result: Ok(Some(outcome)) } => {
            lemma_outcome_still(draft, replies, outcome);
        },
        _ => {},
    }
}

proof fn lemma_durable_still(draft: Draft, replies: Seq<CaptureReply>, work: WorkView)
    requires
        replies.len() > 0,
        is_durable(draft, replies.drop_last(), work),
    ensures
        is_durable(draft, replies, work),
{
    lemma_work_still(draft, replies, work);
    lemma_still_spooled(draft, replies, work.payloads());
}

proof fn lemma_early_step(draft: Draft, replies: Seq<CaptureReply>, state: CaptureView)
    requires
        replies.len() > 0,
        came_in(draft, replies, state),
        told(draft, replies.drop_last(), state),
        state is NewEventId || state is CurrentDevice || state is LoadCaps || state is BuildFileSet
            || state is Contribution || state is HashSnapshot,
    ensures
        told(draft, replies, state.step(replies.last())),
{
    let reply = replies.last();
    lemma_unchanged(draft, replies, state);
    match (state, reply) {
        (CaptureView::NewEventId { draft: given }, CaptureReply::EventId(event_id)) => {
            if let crate::clipboard::ClipboardChangeOrigin::RemotePush {
                from_device: Some(device),
            } = given.origin {
                lemma_identify_given(
                    draft,
                    replies,
                    Sourced { draft: given, event_id, source_device: device },
                    None,
                );
            }
        },
        (
            CaptureView::CurrentDevice { draft: given, event_id },
            CaptureReply::Device(source_device),
        ) => {
            lemma_identify_given(
                draft,
                replies,
                Sourced { draft: given, event_id, source_device },
                None,
            );
        },
        (CaptureView::LoadCaps { sourced }, CaptureReply::Settings(settings)) => {
            lemma_identify_given(draft, replies, sourced, None);
        },
        (CaptureView::BuildFileSet { sourced, manifest }, CaptureReply::Manifest(answer)) => {
            lemma_identify_given(draft, replies, sourced, None);
        },
        (
            CaptureView::Contribution { sourced, file_set },
            CaptureReply::Contribution { component, digests },
        ) => {
            lemma_identify_given(
                draft,
                replies,
                sourced.digested(component, digests),
                Some(file_set),
            );
        },
        (CaptureView::HashSnapshot { sourced, file_set }, CaptureReply::Hash(hash)) => {
            lemma_now(draft, replies, state, hashing(hash));
            lemma_identify(draft, replies, sourced, file_set, hash);
        },
        _ => {},
    }
}

proof fn lemma_middle_step(draft: Draft, replies: Seq<CaptureReply>, state: CaptureView)
    requires
        replies.len() > 0,
        came_in(draft, replies, state),
        told(draft, replies.drop_last(), state),
        state is Lock || state is Find || state is Touch || state is LoadRetention || state
            is LatestEntry || state is Normalize,
    ensures
        told(draft, replies, state.step(replies.last())),
{
    let reply = replies.last();
    lemma_unchanged(draft, replies, state);
    match (state, reply) {
        (CaptureView::Find { work }, CaptureReply::Found(found)) => {
            lemma_next_representation(draft, replies, work);
        },
        (CaptureView::Touch { work, existing }, CaptureReply::Touched(touched)) => {
            lemma_next_representation(draft, replies, work);
            if touched == Ok::<bool, String>(true) {
                lemma_now(draft, replies, state, touching(existing));
                assert(identity_is_known(draft, replies, work.event.snapshot_hash));
            }
        },
        (CaptureView::LoadRetention { work, list_entries }, CaptureReply::Settings(settings)) => {
            lemma_next_representation(draft, replies, work);
        },
        (CaptureView::LatestEntry { work, port }, CaptureReply::Entries(entries)) => {
            lemma_next_representation(draft, replies, work);
            if let Ok(listed) = entries {
                if listed@.len() > 0 {
                    lemma_next_representation(draft, replies, work.replacing(listed@[0]));
                }
            }
        },
        (CaptureView::Normalize { work }, CaptureReply::Ingested(ingested)) => {
            let at = work.representations.len() as int;
            let observed = work.draft.snapshot.representations@;
            if let ClipboardPayloadSource::LocalFile { path, display, size_bytes } =
                observed[at].source {
                if let Ok(blob_id) = ingested {
                    lemma_next_representation(
                        draft,
                        replies,
                        WorkView {
                            representations: work.representations.push(
                                crate::capture::stored_file(observed[at], size_bytes, blob_id),
                            ),
                            ..work
                        },
                    );
                }
            }
        },
        (CaptureView::Normalize { work }, CaptureReply::Normalized(normalized)) => {
            if let Ok(stored) = normalized {
                lemma_next_representation(
                    draft,
                    replies,
                    WorkView { representations: work.representations.push(stored), ..work },
                );
            }
        },
        _ => {},
    }
}

proof fn lemma_late_step(draft: Draft, replies: Seq<CaptureReply>, state: CaptureView)
    requires
        replies.len() > 0,
        came_in(draft, replies, state),
        told(draft, replies.drop_last(), state),
        state is InsertEvent || state is Cache || state is NewEntryId || state is Select || state
            is Spool || state is Measure || state is Clock || state is Persist || state
            is SaveFileSet || state is Report || state is Done,
    ensures
        told(draft, replies, state.step(replies.last())),
{
    let reply = replies.last();
    let before = replies.drop_last();
    lemma_unchanged(draft, replies, state);
    match (state, reply) {
        (CaptureView::InsertEvent { work }, CaptureReply::EventInserted(Ok(_))) => {
            lemma_now(draft, replies, state, inserting());
            assert(Seq::<PayloadView>::empty() + work.payloads() == work.payloads());
            lemma_cache_next(draft, replies, work, work.payloads(), seq![]);
        },
        (CaptureView::Cache { work, payload, rest, kept }, CaptureReply::Cached) => {
            lemma_cache_next(draft, replies, work, rest, kept.push(payload));
        },
        (
            CaptureView::Select { work, payloads, entry_id },
            CaptureReply::Selected(Ok(selection)),
        ) => {
            assert(work.payloads().skip(0) == payloads);
            lemma_spool_next(draft, replies, work, Choice { entry_id, selection }, payloads);
        },
        (
            CaptureView::Spool { work, choice, payload, rest },
            CaptureReply::Spooled(Ok(_)),
        ) => {
            let all = work.payloads();
            let written = all.len() - rest.len() - 1;
            lemma_now(draft, replies, state, spooling(payload));
            assert(all.skip(written)[0] == payload);
            assert(all.skip(written + 1) == all.skip(written).drop_first());
            assert((seq![payload] + rest).drop_first() == rest);
            assert forall|i: int| 0 <= i < all.take(written + 1).len() implies happened(
                draft,
                replies,
                spooling(#[trigger] all.take(written + 1)[i]),
            ) by {
                if i < written {
                    assert(all.take(written)[i] == all[i]);
                }
            }
            lemma_spool_next(draft, replies, work, choice, rest);
        },
        (CaptureView::Clock { work, choice, measure }, CaptureReply::Time(Ok(now_ms))) => {
            let next = work.persisting(choice, measure, now_ms);
            assert(persists(draft, replies, next, work, choice, measure, now_ms));
        },
        (CaptureView::Persist { record, aftermath }, CaptureReply::Persisted(Ok(_))) => {
            let (work, choice, measure, now_ms) = choose|
                work: WorkView,
                choice: Choice,
                measure: Measure,
                now_ms: i64,
            | #[trigger]
                persists(draft, replies, state, work, choice, measure, now_ms);
            lemma_now(draft, replies, state, persisting());
            assert(identity_is_known(draft, replies, work.event.snapshot_hash));
            assert(aftermath == work.aftermath(choice, measure));
        },
        _ => {},
    }
}

proof fn lemma_told(draft: Draft, replies: Seq<CaptureReply>)
    ensures
        told(draft, replies, capture_after(draft, replies)),
    decreases replies.len(),
{
    if replies.len() == 0 {
        lemma_no_answers(draft);
        assert(replies == Seq::<CaptureReply>::empty());
    } else {
        lemma_last(draft, replies);
        let before = replies.drop_last();
        lemma_told(draft, before);
        let state = capture_after(draft, before);
        assert(came_in(draft, replies, state)) by {
            reveal(came_in);
        }
        if state is NewEventId || state is CurrentDevice || state is LoadCaps || state
            is BuildFileSet || state is Contribution || state is HashSnapshot {
            lemma_early_step(draft, replies, state);
        } else if state is Lock || state is Find || state is Touch || state is LoadRetention
            || state is LatestEntry || state is Normalize {
            lemma_middle_step(draft, replies, state);
        } else {
            lemma_late_step(draft, replies, state);
        }
    }
}

/// When an entry is about to be made durable, every payload that it needs
/// from the spool has been written there, and the event of a new entry has
/// been stored.
pub proof fn entries_rest_on_durable_payloads(draft: Draft, replies: Seq<CaptureReply>)
    requires
        capture_after(draft, replies) is Persist,
    ensures
        exists|work: WorkView, choice: Choice, measure: Measure, now_ms: i64| #[trigger]
            persists(
                draft,
                replies,
                capture_after(draft, replies),
                work,
                choice,
                measure,
                now_ms,
            ),
{
    lemma_told(draft, replies);
}

/// A new entry that is not part of a receipt is made durable only after its
/// event was stored.
pub proof fn events_come_before_entries(draft: Draft, replies: Seq<CaptureReply>)
    requires
        capture_after(draft, replies) matches CaptureView::Persist { record, aftermath } && record
            is Save,
    ensures
        happened(draft, replies, inserting()),
{
    lemma_told(draft, replies);
}

/// A manifest is stored, and a capture is reported, only after the entry is
/// durable.
pub proof fn nothing_follows_an_entry_that_is_not_durable(
    draft: Draft,
    replies: Seq<CaptureReply>,
)
    requires
        capture_after(draft, replies) is SaveFileSet || capture_after(draft, replies) is Report,
    ensures
        happened(draft, replies, persisting()),
{
    lemma_told(draft, replies);
}

/// A capture that ends with an entry has made it durable, or has found it and
/// brought it to the top of the history.
pub proof fn outcomes_are_true(
    draft: Draft,
    replies: Seq<CaptureReply>,
    outcome: CaptureOutcome,
)
    requires
        capture_after(draft, replies) == (CaptureView::Done { result: Ok(Some(outcome)) }),
    ensures
        outcome.deduplicated ==> happened(draft, replies, touching(outcome.entry_id)),
        !outcome.deduplicated ==> happened(draft, replies, persisting()),
        exists|hash: SnapshotHash|
            #![trigger identity_is_known(draft, replies, hash)]
            identity_is_known(draft, replies, hash) && outcome.snapshot_hash == hash.0,
{
    lemma_told(draft, replies);
}

} // verus!

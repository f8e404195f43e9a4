//! Every capture comes to its end, and asks for nothing twice.

use crate::capture::{
    CaptureReply, CaptureView, Draft, Sourced, WorkView, staged_payload, staged_payloads,
    stored_file,
};
use crate::capture_laws::{
    capture_after, captures_are_never_stuck, lemma_last, lemma_no_answers, needs_manifest,
    only_file_captures_build_manifests,
};
use crate::clipboard::{
    ClipboardChangeOrigin, ClipboardPayloadSource, ObservedClipboardRepresentation, SnapshotHash,
};
use crate::file_set::LineView;
use crate::manifest::{ManifestReply, ManifestReplyView, ManifestView};
use crate::records::{ClipboardEvent, PersistedClipboardRepresentation};
use crate::traversal::{ReplyView, TraversalReply, TraversalView};
use vstd::prelude::*;

verus! {

/// The answer is of the kind that the making of a manifest waits for.
pub open spec fn answers_manifest(state: ManifestView, reply: ManifestReplyView) -> bool {
    match state {
        ManifestView::Reading { reading, line } => reply is Classified,
        ManifestView::Expanding { traversal } => match traversal {
            TraversalView::Root { progress, root } => reply matches ManifestReplyView::Traversed(
                ReplyView::Inspected(_),
            ),
            TraversalView::Listing { progress, walk, directory } =>
                reply matches ManifestReplyView::Traversed(ReplyView::Listed(_)),
            TraversalView::Member { progress, walk, relative_directory, rest, member } =>
                reply matches ManifestReplyView::Traversed(ReplyView::Inspected(_)),
            TraversalView::Hashing { progress, line, path } =>
                reply matches ManifestReplyView::Traversed(ReplyView::Hashed(_)),
            TraversalView::Finished { lines, failure } => false,
        },
        ManifestView::Finished { file_set } => false,
    }
}

/// The answer is of the kind that the next representation is asked for in: a
/// blob for a copied file, a stored form for a payload in memory.
pub open spec fn answers_representation(work: WorkView, reply: CaptureReply) -> bool {
    let at = work.representations.len() as int;
    let observed = work.draft.snapshot.representations@;
    at < observed.len() && match observed[at].source {
        ClipboardPayloadSource::LocalFile { path, display, size_bytes } => reply is Ingested,
        ClipboardPayloadSource::Inline(bytes) => reply is Normalized,
    }
}

/// The answer is of the kind that the capture waits for. A capture that has
/// ended waits for none.
pub open spec fn answers(state: CaptureView, reply: CaptureReply) -> bool {
    match state {
        CaptureView::NewEventId { draft } => reply is EventId,
        CaptureView::CurrentDevice { draft, event_id } => reply is Device,
        CaptureView::LoadCaps { sourced } => reply is Settings,
        CaptureView::BuildFileSet { sourced, manifest } => reply matches CaptureReply::Manifest(
            answer,
        ) && answers_manifest(manifest, answer@),
        CaptureView::Contribution { sourced, file_set } => reply is Contribution,
        CaptureView::HashSnapshot { sourced, file_set } => reply is Hash,
        CaptureView::Lock { work, port } => reply is Locked,
        CaptureView::Find { work } => reply is Found,
        CaptureView::Touch { work, existing } => reply is Touched,
        CaptureView::LoadRetention { work, list_entries } => reply is Settings,
        CaptureView::LatestEntry { work, port } => reply is Entries,
        CaptureView::Normalize { work } => answers_representation(work, reply),
        CaptureView::InsertEvent { work } => reply is EventInserted,
        CaptureView::Cache { work, payload, rest, kept } => reply is Cached,
        CaptureView::NewEntryId { work, payloads } => reply is EntryId,
        CaptureView::Select { work, payloads, entry_id } => reply is Selected,
        CaptureView::Spool { work, choice, payload, rest } => reply is Spooled,
        CaptureView::Measure { work, choice } => reply is Measured,
        CaptureView::Clock { work, choice, measure } => reply is Time,
        CaptureView::Persist { record, aftermath } => reply is Persisted,
        CaptureView::SaveFileSet { aftermath, file_set } => reply is FileSetSaved,
        CaptureView::Report { port, report, outcome } => reply is Reported,
        CaptureView::Done { result } => false,
    }
}

/// How many kinds of questions may still come, the one that is asked among
/// them.
pub open spec fn stage(state: CaptureView) -> nat {
    match state {
        CaptureView::NewEventId { draft } => 22,
        CaptureView::CurrentDevice { draft, event_id } => 21,
        CaptureView::LoadCaps { sourced } => 20,
        CaptureView::BuildFileSet { sourced, manifest } => 19,
        CaptureView::Contribution { sourced, file_set } => 18,
        CaptureView::HashSnapshot { sourced, file_set } => 17,
        CaptureView::Lock { work, port } => 16,
        CaptureView::Find { work } => 15,
        CaptureView::Touch { work, existing } => 14,
        CaptureView::LoadRetention { work, list_entries } => 13,
        CaptureView::LatestEntry { work, port } => 12,
        CaptureView::Normalize { work } => 11,
        CaptureView::InsertEvent { work } => 10,
        CaptureView::Cache { work, payload, rest, kept } => 9,
        CaptureView::NewEntryId { work, payloads } => 8,
        CaptureView::Select { work, payloads, entry_id } => 7,
        CaptureView::Spool { work, choice, payload, rest } => 6,
        CaptureView::Measure { work, choice } => 5,
        CaptureView::Clock { work, choice, measure } => 4,
        CaptureView::Persist { record, aftermath } => 3,
        CaptureView::SaveFileSet { aftermath, file_set } => 2,
        CaptureView::Report { port, report, outcome } => 1,
        CaptureView::Done { result } => 0,
    }
}

/// The kind of question is asked more than once: of a manifest, and of each
/// representation and payload.
pub open spec fn repeats(state: CaptureView) -> bool {
    state is BuildFileSet || state is Normalize || state is Cache || state is Spool
}

/// How many answers may be left where `stored` representations of a snapshot
/// with `observed` are in the form to be stored, and no payload is cached yet.
pub open spec fn left_from(observed: nat, stored: nat) -> nat {
    if stored < observed {
        ((observed - stored) + 2 * observed + 8) as nat
    } else {
        2 * stored + 8
    }
}

/// The same, of a draft of which nothing is stored yet.
pub open spec fn left_for(draft: Draft) -> nat {
    left_from(draft.snapshot.representations@.len(), 0)
}

/// The same, of a work.
pub open spec fn left_of(work: WorkView) -> nat {
    left_from(work.draft.snapshot.representations@.len(), work.representations.len())
}

/// How many answers may be left at most, those of the manifest not counted.
pub open spec fn left(state: CaptureView) -> nat {
    match state {
        CaptureView::NewEventId { draft } => left_for(draft) + 11,
        CaptureView::CurrentDevice { draft, event_id } => left_for(draft) + 10,
        CaptureView::LoadCaps { sourced } => left_for(sourced.draft) + 9,
        CaptureView::BuildFileSet { sourced, manifest } => left_for(sourced.draft) + 8,
        CaptureView::Contribution { sourced, file_set } => left_for(sourced.draft) + 7,
        CaptureView::HashSnapshot { sourced, file_set } => left_for(sourced.draft) + 6,
        CaptureView::Lock { work, port } => left_of(work) + 5,
        CaptureView::Find { work } => left_of(work) + 4,
        CaptureView::Touch { work, existing } => left_of(work) + 3,
        CaptureView::LoadRetention { work, list_entries } => left_of(work) + 2,
        CaptureView::LatestEntry { work, port } => left_of(work) + 1,
        CaptureView::Normalize { work } => left_of(work),
        CaptureView::InsertEvent { work } => 2 * work.payloads().len() + 8,
        CaptureView::Cache { work, payload, rest, kept } => kept.len() + 2 * rest.len() + 9,
        CaptureView::NewEntryId { work, payloads } => payloads.len() + 7,
        CaptureView::Select { work, payloads, entry_id } => payloads.len() + 6,
        CaptureView::Spool { work, choice, payload, rest } => rest.len() + 6,
        CaptureView::Measure { work, choice } => 5,
        CaptureView::Clock { work, choice, measure } => 4,
        CaptureView::Persist { record, aftermath } => 3,
        CaptureView::SaveFileSet { aftermath, file_set } => 2,
        CaptureView::Report { port, report, outcome } => 1,
        CaptureView::Done { result } => 0,
    }
}

proof fn lemma_no_more_payloads_than_stored(
    observed: Seq<ObservedClipboardRepresentation>,
    stored: Seq<PersistedClipboardRepresentation>,
)
    ensures
        staged_payloads(observed, stored).len() <= stored.len(),
    decreases stored.len(),
{
    if stored.len() > 0 {
        lemma_no_more_payloads_than_stored(observed, stored.drop_last());
        assert(staged_payload(observed, stored.last()).len() <= 1);
    }
}

/// The state comes behind one with the given measures.
spec fn comes_behind(state: CaptureView, before: nat, left_before: nat) -> bool {
    stage(state) < before && left(state) < left_before
}

proof fn lemma_next_representation(work: WorkView)
    ensures
        left(work.next_representation()) <= left_of(work),
        stage(work.next_representation()) <= 11,
        work.representations.len() >= work.draft.snapshot.representations@.len() ==> stage(
            work.next_representation(),
        ) <= 10,
{
    lemma_no_more_payloads_than_stored(
        work.draft.snapshot.representations@,
        work.representations,
    );
}

proof fn lemma_targeted(work: WorkView)
    ensures
        left(work.targeted()) <= left_of(work) + 2,
        stage(work.targeted()) <= 13,
{
    lemma_next_representation(work);
}

proof fn lemma_early_step(state: CaptureView, reply: CaptureReply)
    requires
        answers(state, reply),
        state is NewEventId || state is CurrentDevice || state is LoadCaps || state is Contribution
            || state is HashSnapshot,
    ensures
        comes_behind(state.step(reply), stage(state), left(state)),
{
    match (state, reply) {
        (CaptureView::NewEventId { draft }, CaptureReply::EventId(event_id)) => {
            if let ClipboardChangeOrigin::RemotePush { from_device: Some(device) } = draft.origin {
                lemma_identify(Sourced { draft, event_id, source_device: device }, None);
            }
        },
        (
            CaptureView::CurrentDevice { draft, event_id },
            CaptureReply::Device(source_device),
        ) => {
            lemma_identify(Sourced { draft, event_id, source_device }, None);
        },
        (CaptureView::LoadCaps { sourced }, CaptureReply::Settings(settings)) => {
            lemma_identify(sourced, None);
        },
        (
            CaptureView::Contribution { sourced, file_set },
            CaptureReply::Contribution { component, digests },
        ) => {
            lemma_identify(sourced.digested(component, digests), Some(file_set));
        },
        (CaptureView::HashSnapshot { sourced, file_set }, CaptureReply::Hash(hash)) => {
            lemma_identified(sourced, file_set, hash);
        },
        _ => {},
    }
}

proof fn lemma_identified(
    sourced: Sourced,
    file_set: Option<Seq<LineView>>,
    hash: SnapshotHash,
)
    ensures
        left(sourced.identified(file_set, hash)) <= left_for(sourced.draft) + 5,
        stage(sourced.identified(file_set, hash)) <= 16,
{
    let work = WorkView {
        draft: sourced.draft,
        event: ClipboardEvent {
            event_id: sourced.event_id,
            captured_at_ms: sourced.draft.snapshot.ts_ms,
            source_device: sourced.source_device,
            snapshot_hash: hash,
        },
        file_set,
        representations: seq![],
    };
    lemma_targeted(work);
}

proof fn lemma_identify(sourced: Sourced, file_set: Option<Seq<LineView>>)
    ensures
        left(sourced.identify(file_set)) <= left_for(sourced.draft) + 6,
        stage(sourced.identify(file_set)) <= 17,
{
    if let Some(hash) = sourced.draft.authoritative_hash {
        lemma_identified(sourced, file_set, hash);
    }
}

proof fn lemma_build_step(state: CaptureView, reply: CaptureReply)
    requires
        answers(state, reply),
        state is BuildFileSet,
    ensures
        state.step(reply) is BuildFileSet && left(state.step(reply)) == left(state)
            || comes_behind(state.step(reply), stage(state), left(state)),
{
    if let CaptureView::BuildFileSet { sourced, manifest } = state {
        lemma_identify(sourced, None);
    }
}

proof fn lemma_middle_step(state: CaptureView, reply: CaptureReply)
    requires
        answers(state, reply),
        state is Lock || state is Find || state is Touch || state is LoadRetention || state
            is LatestEntry,
    ensures
        comes_behind(state.step(reply), stage(state), left(state)),
{
    match (state, reply) {
        (CaptureView::Find { work }, CaptureReply::Found(found)) => {
            lemma_targeted(work);
        },
        (CaptureView::Touch { work, existing }, CaptureReply::Touched(touched)) => {
            lemma_targeted(work);
        },
        (CaptureView::LoadRetention { work, list_entries }, CaptureReply::Settings(settings)) => {
            lemma_next_representation(work);
        },
        (CaptureView::LatestEntry { work, port }, CaptureReply::Entries(entries)) => {
            lemma_next_representation(work);
            if let Ok(listed) = entries {
                if listed@.len() > 0 {
                    lemma_next_representation(work.replacing(listed@[0]));
                }
            }
        },
        _ => {},
    }
}

proof fn lemma_normalize_step(state: CaptureView, reply: CaptureReply)
    requires
        answers(state, reply),
        state is Normalize,
    ensures
        left(state.step(reply)) < left(state),
        stage(state.step(reply)) <= stage(state),
{
    if let CaptureView::Normalize { work } = state {
        let at = work.representations.len() as int;
        let observed = work.draft.snapshot.representations@;
        match (observed[at].source, reply) {
            (
                ClipboardPayloadSource::LocalFile { path, display, size_bytes },
                CaptureReply::Ingested(Ok(blob_id)),
            ) => {
                lemma_next_representation(
                    WorkView {
                        representations: work.representations.push(
                            stored_file(observed[at], size_bytes, blob_id),
                        ),
                        ..work
                    },
                );
            },
            (ClipboardPayloadSource::Inline(bytes), CaptureReply::Normalized(Ok(stored))) => {
                lemma_next_representation(
                    WorkView { representations: work.representations.push(stored), ..work },
                );
            },
            _ => {},
        }
    }
}

proof fn lemma_late_step(state: CaptureView, reply: CaptureReply)
    requires
        answers(state, reply),
        state is InsertEvent || state is NewEntryId || state is Select || state is Measure || state
            is Clock || state is Persist || state is SaveFileSet || state is Report,
    ensures
        comes_behind(state.step(reply), stage(state), left(state)),
{
}

proof fn lemma_payload_step(state: CaptureView, reply: CaptureReply)
    requires
        answers(state, reply),
        state is Cache || state is Spool,
    ensures
        left(state.step(reply)) < left(state),
        stage(state.step(reply)) <= stage(state),
{
}

/// An answer of the kind that is asked for moves a capture strictly on: fewer
/// answers are left, and, unless the kind of question repeats, fewer kinds of
/// questions. Only an answer to the manifest may leave the capture at its
/// manifest, and bring that on instead.
pub proof fn answers_move_captures_on(state: CaptureView, reply: CaptureReply)
    requires
        answers(state, reply),
    ensures
        left(state.step(reply)) < left(state) || state is BuildFileSet && state.step(reply)
            is BuildFileSet && left(state.step(reply)) == left(state),
        stage(state.step(reply)) <= stage(state),
        !repeats(state) ==> stage(state.step(reply)) < stage(state),
{
    if state is NewEventId || state is CurrentDevice || state is LoadCaps || state is Contribution
        || state is HashSnapshot {
        lemma_early_step(state, reply);
    } else if state is BuildFileSet {
        lemma_build_step(state, reply);
    } else if state is Lock || state is Find || state is Touch || state is LoadRetention || state
        is LatestEntry {
        lemma_middle_step(state, reply);
    } else if state is Normalize {
        lemma_normalize_step(state, reply);
    } else if state is Cache || state is Spool {
        lemma_payload_step(state, reply);
    } else {
        lemma_late_step(state, reply);
    }
}

proof fn lemma_unasked(state: CaptureView, reply: CaptureReply)
    requires
        !answers(state, reply),
        state !is BuildFileSet,
    ensures
        state.step(reply) == state,
{
}

proof fn lemma_unasked_manifest(state: CaptureView, reply: CaptureReply)
    requires
        !answers(state, reply),
        state is BuildFileSet,
    ensures
        stage(state.step(reply)) <= stage(state),
        left(state.step(reply)) <= left(state),
{
    if let CaptureView::BuildFileSet { sourced, manifest } = state {
        lemma_identify(sourced, None);
    }
}

/// No answer whatever takes a capture back.
pub proof fn captures_never_go_back(state: CaptureView, reply: CaptureReply)
    ensures
        stage(state.step(reply)) <= stage(state),
        left(state.step(reply)) <= left(state),
{
    if answers(state, reply) {
        answers_move_captures_on(state, reply);
    } else if state is BuildFileSet {
        lemma_unasked_manifest(state, reply);
    } else {
        lemma_unasked(state, reply);
    }
}

proof fn lemma_later(draft: Draft, replies: Seq<CaptureReply>, i: int, j: int)
    requires
        0 <= i <= j <= replies.len(),
    ensures
        stage(capture_after(draft, replies.take(j))) <= stage(
            capture_after(draft, replies.take(i)),
        ),
        left(capture_after(draft, replies.take(j))) <= left(
            capture_after(draft, replies.take(i)),
        ),
    decreases j - i,
{
    if i < j {
        lemma_later(draft, replies, i, j - 1);
        lemma_last(draft, replies.take(j));
        assert(replies.take(j).drop_last() == replies.take(j - 1));
        captures_never_go_back(
            capture_after(draft, replies.take(j - 1)),
            replies.take(j).last(),
        );
    }
}

/// What was asked for and answered is not asked for again, unless it is of a
/// kind that repeats. So the content is locked, the event stored, the entry
/// written, the manifest stored and the capture reported at most once.
pub proof fn questions_come_once(draft: Draft, replies: Seq<CaptureReply>, i: int, j: int)
    requires
        0 <= i < j <= replies.len(),
        answers(capture_after(draft, replies.take(i)), replies[i]),
        !repeats(capture_after(draft, replies.take(i))),
    ensures
        ({
            let asked = capture_after(draft, replies.take(i));
            let later = capture_after(draft, replies.take(j));
            &&& stage(later) < stage(asked)
            &&& asked is Lock ==> later !is Lock
            &&& asked is InsertEvent ==> later !is InsertEvent
            &&& asked is Persist ==> later !is Persist
            &&& asked is SaveFileSet ==> later !is SaveFileSet
            &&& asked is Report ==> later !is Report
        }),
{
    let one_more = replies.take(i + 1);
    lemma_last(draft, one_more);
    assert(one_more.drop_last() == replies.take(i));
    assert(one_more.last() == replies[i]);
    answers_move_captures_on(capture_after(draft, replies.take(i)), replies[i]);
    lemma_later(draft, replies, i + 1, j);
}

/// Of what repeats, each answer leaves less: each representation is stored,
/// each payload cached and each payload spooled at most once.
pub proof fn answered_questions_leave_less(
    draft: Draft,
    replies: Seq<CaptureReply>,
    i: int,
    j: int,
)
    requires
        0 <= i < j <= replies.len(),
        answers(capture_after(draft, replies.take(i)), replies[i]),
        capture_after(draft, replies.take(i)) !is BuildFileSet,
    ensures
        left(capture_after(draft, replies.take(j))) < left(capture_after(draft, replies.take(i))),
{
    let one_more = replies.take(i + 1);
    lemma_last(draft, one_more);
    assert(one_more.drop_last() == replies.take(i));
    assert(one_more.last() == replies[i]);
    answers_move_captures_on(capture_after(draft, replies.take(i)), replies[i]);
    lemma_later(draft, replies, i + 1, j);
}

/// A manifest that is being made waits for something.
spec fn manifest_waits(state: CaptureView) -> bool {
    state matches CaptureView::BuildFileSet { sourced, manifest } ==> manifest !is Finished && (
    manifest matches ManifestView::Expanding { traversal } ==> traversal !is Finished)
}

proof fn lemma_manifest_waits(draft: Draft, replies: Seq<CaptureReply>)
    ensures
        manifest_waits(capture_after(draft, replies)),
    decreases replies.len(),
{
    if replies.len() == 0 {
        lemma_no_answers(draft);
        assert(replies == Seq::<CaptureReply>::empty());
    } else {
        lemma_last(draft, replies);
        let before = replies.drop_last();
        let state = capture_after(draft, before);
        lemma_manifest_waits(draft, before);
        if state !is LoadCaps && state !is BuildFileSet {
            lemma_no_manifest_begun(state, replies.last());
        }
    }
}

proof fn lemma_no_manifest_begun(state: CaptureView, reply: CaptureReply)
    requires
        state !is LoadCaps,
        state !is BuildFileSet,
    ensures
        state.step(reply) !is BuildFileSet,
{
    captures_never_go_back(state, reply);
}

/// Whatever a capture asks for can be answered, until it has ended.
pub proof fn every_question_has_an_answer(draft: Draft, replies: Seq<CaptureReply>)
    requires
        capture_after(draft, replies) !is Done,
    ensures
        exists|reply: CaptureReply| answers(capture_after(draft, replies), reply),
{
    let state = capture_after(draft, replies);
    captures_are_never_stuck(draft, replies);
    lemma_manifest_waits(draft, replies);
    let reply = match state {
        CaptureView::NewEventId { draft } => CaptureReply::EventId(arbitrary()),
        CaptureView::CurrentDevice { draft, event_id } => CaptureReply::Device(arbitrary()),
        CaptureView::LoadCaps { sourced } => CaptureReply::Settings(arbitrary()),
        CaptureView::BuildFileSet { sourced, manifest } => CaptureReply::Manifest(
            match manifest {
                ManifestView::Expanding { traversal } => ManifestReply::Traversed(
                    match traversal {
                        TraversalView::Listing { progress, walk, directory } =>
                            TraversalReply::Listed(None),
                        TraversalView::Hashing { progress, line, path } => TraversalReply::Hashed(
                            None,
                        ),
                        _ => TraversalReply::Inspected(None),
                    },
                ),
                _ => ManifestReply::Classified(None),
            },
        ),
        CaptureView::Contribution { sourced, file_set } => CaptureReply::Contribution {
            component: None,
            digests: arbitrary(),
        },
        CaptureView::HashSnapshot { sourced, file_set } => CaptureReply::Hash(arbitrary()),
        CaptureView::Lock { work, port } => CaptureReply::Locked,
        CaptureView::Find { work } => CaptureReply::Found(arbitrary()),
        CaptureView::Touch { work, existing } => CaptureReply::Touched(arbitrary()),
        CaptureView::LoadRetention { work, list_entries } => CaptureReply::Settings(arbitrary()),
        CaptureView::LatestEntry { work, port } => CaptureReply::Entries(arbitrary()),
        CaptureView::Normalize { work } => match work.draft.snapshot.representations@[
            work.representations.len() as int
        ].source {
            ClipboardPayloadSource::LocalFile { path, display, size_bytes } =>
                CaptureReply::Ingested(arbitrary()),
            ClipboardPayloadSource::Inline(bytes) => CaptureReply::Normalized(arbitrary()),
        },
        CaptureView::InsertEvent { work } => CaptureReply::EventInserted(arbitrary()),
        CaptureView::Cache { work, payload, rest, kept } => CaptureReply::Cached,
        CaptureView::NewEntryId { work, payloads } => CaptureReply::EntryId(arbitrary()),
        CaptureView::Select { work, payloads, entry_id } => CaptureReply::Selected(arbitrary()),
        CaptureView::Spool { work, choice, payload, rest } => CaptureReply::Spooled(arbitrary()),
        CaptureView::Measure { work, choice } => CaptureReply::Measured(arbitrary()),
        CaptureView::Clock { work, choice, measure } => CaptureReply::Time(arbitrary()),
        CaptureView::Persist { record, aftermath } => CaptureReply::Persisted(arbitrary()),
        CaptureView::SaveFileSet { aftermath, file_set } => CaptureReply::FileSetSaved(
            arbitrary(),
        ),
        _ => CaptureReply::Reported,
    };
    assert(answers(state, reply));
}

/// The first `count` answers of a host to a capture.
pub open spec fn host_answers(
    draft: Draft,
    host: spec_fn(CaptureView) -> CaptureReply,
    count: nat,
) -> Seq<CaptureReply>
    decreases count,
{
    if count == 0 {
        seq![]
    } else {
        let before = host_answers(draft, host, (count - 1) as nat);
        before.push(host(capture_after(draft, before)))
    }
}

/// A capture on a host, after so many answers.
pub open spec fn course(
    draft: Draft,
    host: spec_fn(CaptureView) -> CaptureReply,
    count: nat,
) -> CaptureView {
    capture_after(draft, host_answers(draft, host, count))
}

/// The host answers what the capture waits for, until it has ended.
pub open spec fn always_answers(draft: Draft, host: spec_fn(CaptureView) -> CaptureReply) -> bool {
    forall|count: nat|
        #![trigger course(draft, host, count)]
        course(draft, host, count) is Done || answers(
            course(draft, host, count),
            host(course(draft, host, count)),
        )
}

pub(crate) proof fn lemma_course(draft: Draft, host: spec_fn(CaptureView) -> CaptureReply, count: nat)
    ensures
        course(draft, host, count + 1) == course(draft, host, count).step(
            host(course(draft, host, count)),
        ),
{
    let before = host_answers(draft, host, count);
    let all = host_answers(draft, host, count + 1);
    assert(all == before.push(host(capture_after(draft, before))));
    lemma_last(draft, all);
    assert(all.drop_last() == before);
}

proof fn lemma_left_at_first(
    draft: Draft,
    host: spec_fn(CaptureView) -> CaptureReply,
    count: nat,
)
    ensures
        left(course(draft, host, count)) <= left(draft.begun()),
    decreases count,
{
    if count == 0 {
        lemma_no_answers(draft);
    } else {
        let before = (count - 1) as nat;
        lemma_left_at_first(draft, host, before);
        lemma_course(draft, host, before);
        captures_never_go_back(course(draft, host, before), host(course(draft, host, before)));
    }
}

proof fn lemma_left_later(
    draft: Draft,
    host: spec_fn(CaptureView) -> CaptureReply,
    built: nat,
    more: nat,
)
    requires
        always_answers(draft, host),
        forall|count: nat|
            #![trigger course(draft, host, count)]
            built <= count ==> course(draft, host, count) !is BuildFileSet,
    ensures
        course(draft, host, built + more) is Done || left(course(draft, host, built + more)) + more
            <= left(draft.begun()),
    decreases more,
{
    if more == 0 {
        lemma_left_at_first(draft, host, built);
    } else {
        let before = (built + more - 1) as nat;
        let state = course(draft, host, before);
        lemma_left_later(draft, host, built, (more - 1) as nat);
        lemma_course(draft, host, before);
        assert(before + 1 == built + more);
        if state !is Done {
            answers_move_captures_on(state, host(state));
        }
    }
}

/// A capture ends where its manifest does: on a host that answers what is
/// asked for, and on which from some answer on no manifest is being made, it
/// has ended after at most a fixed number of further answers, three for each
/// representation and some.
pub proof fn captures_end_where_manifests_do(
    draft: Draft,
    host: spec_fn(CaptureView) -> CaptureReply,
    built: nat,
)
    requires
        always_answers(draft, host),
        forall|count: nat|
            #![trigger course(draft, host, count)]
            built <= count ==> course(draft, host, count) !is BuildFileSet,
    ensures
        course(draft, host, built + left(draft.begun())) is Done,
        left(draft.begun()) <= 3 * draft.snapshot.representations@.len() + 19,
        exists|count: nat| #[trigger] course(draft, host, count) is Done,
{
    lemma_left_later(draft, host, built, left(draft.begun()));
    assert(course(draft, host, built + left(draft.begun())) is Done);
}

/// A capture for which no manifest is made ends on every host that answers
/// what is asked for.
pub proof fn captures_without_manifest_end(
    draft: Draft,
    host: spec_fn(CaptureView) -> CaptureReply,
)
    requires
        always_answers(draft, host),
        !needs_manifest(draft),
    ensures
        course(draft, host, left(draft.begun())) is Done,
{
    assert forall|count: nat|
        #![trigger course(draft, host, count)]
        0 <= count implies course(draft, host, count) !is BuildFileSet by {
        only_file_captures_build_manifests(draft, host_answers(draft, host, count));
    }
    captures_end_where_manifests_do(draft, host, 0);
}

} // verus!

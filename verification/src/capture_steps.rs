//! Where each answer takes a capture, question by question.

use crate::capture::{
    AftermathView, CaptureReply, CaptureView, Choice, Draft, Measure, PersistView, Sourced,
    WorkView, observed_bytes, staged_payload, staged_payloads, stored_file,
};
use crate::capture_course::is_first_with;
use crate::clipboard::{
    CaptureOrigin, ClipboardChangeOrigin, ClipboardPayloadSource, DeviceId, EntryId, EventId,
    FileSetComponent, ObservedClipboardRepresentation, PayloadType, SnapshotHash,
    SystemClipboardSnapshot,
};
use crate::file_set::{BlobId, ContentHash, FileSetCaps, LineView};
use crate::manifest::{ManifestReply, ManifestView};
use crate::records::{
    CaptureError, CaptureOutcome, CaptureReport, CaptureSettings, ClipboardEvent,
    ClipboardSelectionDecision, CommitMode, HostRef, PayloadAvailability, PayloadView,
    PersistedClipboardRepresentation, PortRef, RetentionRule,
};
use crate::text_laws::{is_word, lemma_words};
use vstd::prelude::*;

verus! {

/// Files were copied, and nothing is known yet of their content.
pub open spec fn has_unknown_files(snapshot: SystemClipboardSnapshot) -> bool {
    &&& snapshot.file_content_digests@.len() == 0
    &&& snapshot.file_set_v1_component is None
    &&& exists|i: int|
        0 <= i < snapshot.representations@.len() && (
        (#[trigger] snapshot.representations@[i]).source is LocalFile
            || snapshot.representations@[i].lists_files)
}

/// The staged list grows by the bytes of one representation: those of the
/// first that was observed under its identity, where it is to be fetched from
/// the spool and they are in memory.
pub proof fn staged_lists_grow_by_one(
    observed: Seq<ObservedClipboardRepresentation>,
    stored: Seq<PersistedClipboardRepresentation>,
    next: PersistedClipboardRepresentation,
)
    ensures
        staged_payloads(observed, seq![]) == Seq::<PayloadView>::empty(),
        next.payload_state != PayloadAvailability::Staged ==> staged_payloads(
            observed,
            stored.push(next),
        ) == staged_payloads(observed, stored),
        (forall|k: int| 0 <= k < observed.len() ==> (#[trigger] observed[k]).id.0@ != next.id.0@)
            ==> staged_payloads(observed, stored.push(next)) == staged_payloads(observed, stored),
        forall|j: int|
            #![trigger observed[j]]
            is_first_with(observed, next.id.0@, j) && next.payload_state
                == PayloadAvailability::Staged ==> staged_payloads(observed, stored.push(next))
                == staged_payloads(observed, stored) + (match observed[j].source {
                ClipboardPayloadSource::Inline(bytes) => seq![
                    PayloadView { rep_id: next.id, bytes: bytes@ },
                ],
                ClipboardPayloadSource::LocalFile { path, display, size_bytes } => seq![],
            }),
{
    let longer = stored.push(next);
    assert(longer.drop_last() == stored);
    assert(longer.last() == next);
    assert(staged_payloads(observed, longer) == staged_payloads(observed, stored)
        + staged_payload(observed, next));
    let before = staged_payloads(observed, stored);
    assert(before + Seq::<PayloadView>::empty() == before);
    if forall|k: int| 0 <= k < observed.len() ==> (#[trigger] observed[k]).id.0@ != next.id.0@ {
        lemma_unknown_bytes(observed, next.id.0@);
    }
    assert forall|j: int|
        #![trigger observed[j]]
        is_first_with(observed, next.id.0@, j) && next.payload_state
            == PayloadAvailability::Staged implies staged_payloads(observed, stored.push(next))
        == before + (match observed[j].source {
        ClipboardPayloadSource::Inline(bytes) => seq![
            PayloadView { rep_id: next.id, bytes: bytes@ },
        ],
        ClipboardPayloadSource::LocalFile { path, display, size_bytes } => seq![],
    }) by {
        lemma_known_bytes(observed, next.id.0@, j);
    }
}

proof fn lemma_unknown_bytes(observed: Seq<ObservedClipboardRepresentation>, id: Seq<char>)
    requires
        forall|k: int| 0 <= k < observed.len() ==> (#[trigger] observed[k]).id.0@ != id,
    ensures
        observed_bytes(observed, id) is None,
    decreases observed.len(),
{
    if observed.len() > 0 {
        let rest = observed.drop_first();
        assert(observed[0].id.0@ != id);
        assert forall|k: int| 0 <= k < rest.len() implies (#[trigger] rest[k]).id.0@ != id by {
            assert(rest[k] == observed[k + 1]);
        }
        lemma_unknown_bytes(rest, id);
    }
}

proof fn lemma_known_bytes(
    observed: Seq<ObservedClipboardRepresentation>,
    id: Seq<char>,
    j: int,
)
    requires
        is_first_with(observed, id, j),
    ensures
        observed_bytes(observed, id) == (match observed[j].source {
            ClipboardPayloadSource::Inline(bytes) => Some(bytes@),
            ClipboardPayloadSource::LocalFile { path, display, size_bytes } => None,
        }),
    decreases observed.len(),
{
    if j > 0 {
        assert(observed[0].id.0@ != id);
        let rest = observed.drop_first();
        assert forall|k: int| 0 <= k < j - 1 implies (#[trigger] rest[k]).id.0@ != id by {
            assert(rest[k] == observed[k + 1]);
        }
        assert(rest[j - 1] == observed[j]);
        lemma_known_bytes(rest, id, j - 1);
    }
}

/// The next payload waits to be cached. Behind the last one comes the
/// selection, for the entry that was fixed or for one that is still to be
/// named.
pub open spec fn caching_comes(
    next: CaptureView,
    work: WorkView,
    waiting: Seq<PayloadView>,
    cached: Seq<PayloadView>,
) -> bool {
    if waiting.len() > 0 {
        &&& next matches CaptureView::Cache { work: held, payload, rest, kept }
        &&& held == work
        &&& seq![payload] + rest == waiting
        &&& kept == cached
    } else {
        match work.draft.preset_entry_id {
            Some(fixed) => next matches CaptureView::Select { work: held, payloads, entry_id }
                && held == work && payloads == cached && entry_id == fixed,
            None => next matches CaptureView::NewEntryId { work: held, payloads } && held == work
                && payloads == cached,
        }
    }
}

/// The next representation waits to be brought into the form to be stored.
/// Behind the last one comes the event, where it is stored by itself: for a
/// new entry without a receipt.
pub open spec fn representation_comes(next: CaptureView, work: WorkView) -> bool {
    if work.representations.len() < work.draft.snapshot.representations@.len() {
        next matches CaptureView::Normalize { work: held } && held == work
    } else if work.draft.commit_mode == CommitMode::Create && work.draft.commit is None {
        next matches CaptureView::InsertEvent { work: held } && held == work
    } else {
        caching_comes(
            next,
            work,
            staged_payloads(work.draft.snapshot.representations@, work.representations),
            seq![],
        )
    }
}

/// A new local entry may have to take the place of the latest one, where
/// entries can be listed; everything else is written as it is.
pub open spec fn target_comes(next: CaptureView, work: WorkView) -> bool {
    if work.draft.origin == ClipboardChangeOrigin::LocalCapture && work.draft.commit_mode
        == CommitMode::Create && work.draft.use_case.list_entries is Some {
        next matches CaptureView::LoadRetention { work: held, list_entries } && held == work
            && work.draft.use_case.list_entries == Some(list_entries)
    } else {
        representation_comes(next, work)
    }
}

/// What was copied on this device is locked, where there is something to lock
/// by, and looked for; nothing else is.
pub open spec fn lookup_comes(next: CaptureView, work: WorkView) -> bool {
    if work.draft.origin == ClipboardChangeOrigin::LocalCapture {
        match work.draft.use_case.coordinator {
            Some(coordinator) => next matches CaptureView::Lock { work: held, port } && held
                == work && port == coordinator,
            None => next matches CaptureView::Find { work: held } && held == work,
        }
    } else {
        target_comes(next, work)
    }
}

/// The work begins with this identity of the content.
pub open spec fn begins_under(
    work: WorkView,
    sourced: Sourced,
    file_set: Option<Seq<LineView>>,
    hash: SnapshotHash,
) -> bool {
    &&& work.draft == sourced.draft
    &&& work.event.event_id == sourced.event_id
    &&& work.event.source_device == sourced.source_device
    &&& work.event.captured_at_ms == sourced.draft.snapshot.ts_ms
    &&& work.event.snapshot_hash == hash
    &&& work.file_set == file_set
    &&& work.representations.len() == 0
}

/// An identity that came with the content stands; any other content is
/// hashed.
pub open spec fn identity_comes(
    next: CaptureView,
    sourced: Sourced,
    file_set: Option<Seq<LineView>>,
) -> bool {
    match sourced.draft.authoritative_hash {
        Some(hash) => exists|work: WorkView| #[trigger]
            begins_under(work, sourced, file_set, hash) && lookup_comes(next, work),
        None => next == (CaptureView::HashSnapshot { sourced, file_set }),
    }
}

/// Copied files of unknown content get a manifest first.
pub open spec fn manifest_comes(next: CaptureView, sourced: Sourced) -> bool {
    if has_unknown_files(sourced.draft.snapshot) {
        next == (CaptureView::LoadCaps { sourced })
    } else {
        identity_comes(next, sourced, None)
    }
}

proof fn lemma_caching(work: WorkView, waiting: Seq<PayloadView>, kept: Seq<PayloadView>)
    ensures
        caching_comes(work.cache_next(waiting, kept), work, waiting, kept),
{
    if waiting.len() > 0 {
        assert(seq![waiting[0]] + waiting.drop_first() == waiting);
    }
}

proof fn lemma_representation(work: WorkView)
    ensures
        representation_comes(work.next_representation(), work),
{
    lemma_caching(
        work,
        staged_payloads(work.draft.snapshot.representations@, work.representations),
        seq![],
    );
}

proof fn lemma_target(work: WorkView)
    ensures
        target_comes(work.targeted(), work),
{
    lemma_representation(work);
}

proof fn lemma_identity(
    sourced: Sourced,
    file_set: Option<Seq<LineView>>,
    hash: SnapshotHash,
) -> (work: WorkView)
    ensures
        begins_under(work, sourced, file_set, hash),
        lookup_comes(sourced.identified(file_set, hash), work),
{
    let work = WorkView {
        draft: sourced.draft,
        event: ClipboardEvent {
            event_id: sourced.event_id,
            captured_at_ms: sourced.draft.snapshot.ts_ms,
            source_device: sourced.source_device,
            snapshot_hash: hash,
        },
        file_set,
        representations: seq![],
    };
    lemma_target(work);
    work
}

proof fn lemma_identify(sourced: Sourced, file_set: Option<Seq<LineView>>)
    ensures
        identity_comes(sourced.identify(file_set), sourced, file_set),
{
    if let Some(hash) = sourced.draft.authoritative_hash {
        let work = lemma_identity(sourced, file_set, hash);
        assert(begins_under(work, sourced, file_set, hash));
    }
}

proof fn lemma_sourced(sourced: Sourced)
    ensures
        manifest_comes(sourced.sourced(), sourced),
{
    let snapshot = sourced.draft.snapshot;
    lemma_identify(sourced, None);
    if has_unknown_files(snapshot) {
        let i = choose|i: int|
            0 <= i < snapshot.representations@.len() && (
            (#[trigger] snapshot.representations@[i]).source is LocalFile
                || snapshot.representations@[i].lists_files);
        assert(snapshot.representations@[i].is_file_class());
    } else if snapshot.is_file_class() {
        let i = choose|i: int|
            0 <= i < snapshot.representations@.len() && (
            #[trigger] snapshot.representations@[i]).is_file_class();
        assert(snapshot.representations@[i].source is LocalFile
            || snapshot.representations@[i].lists_files);
    }
}

/// Once the event has an identity, its source is the sender, where another
/// device sent the content and is known; else this device is asked for its
/// identity. Either way the capture keeps what it was given.
pub proof fn named_events_get_a_source(
    draft: Draft,
    event_id: EventId,
    device: DeviceId,
)
    ensures
        ({
            let next = (CaptureView::NewEventId { draft }).step(CaptureReply::EventId(event_id));
            match draft.origin {
                ClipboardChangeOrigin::RemotePush { from_device: Some(sender) } => manifest_comes(
                    next,
                    Sourced { draft, event_id, source_device: sender },
                ),
                _ => next == (CaptureView::CurrentDevice { draft, event_id }),
            }
        }),
        manifest_comes(
            (CaptureView::CurrentDevice { draft, event_id }).step(CaptureReply::Device(device)),
            Sourced { draft, event_id, source_device: device },
        ),
{
    lemma_sourced(Sourced { draft, event_id, source_device: device });
    if let ClipboardChangeOrigin::RemotePush { from_device: Some(sender) } = draft.origin {
        lemma_sourced(Sourced { draft, event_id, source_device: sender });
    }
}

/// A manifest is made under the caps of the settings, or, where they cannot
/// be loaded, under one of 1 GiB and 2000 members. When it is there, what it
/// contributes is asked for; a snapshot without one is identified as it is.
pub proof fn manifests_come_before_the_identity(
    sourced: Sourced,
    settings: Result<CaptureSettings, String>,
    manifest: ManifestView,
    answer: ManifestReply,
)
    ensures
        ({
            let caps = match settings {
                Ok(loaded) => FileSetCaps {
                    max_total_bytes: loaded.max_file_set_total_bytes,
                    max_member_count: loaded.max_file_set_member_count,
                },
                Err(cause) => FileSetCaps {
                    max_total_bytes: 1_073_741_824,
                    max_member_count: 2_000,
                },
            };
            let begun = ManifestView::started(sourced.draft.snapshot.representations@, caps);
            let next = (CaptureView::LoadCaps { sourced }).step(CaptureReply::Settings(settings));
            &&& begun !is Finished ==> next == (CaptureView::BuildFileSet {
                sourced,
                manifest: begun,
            })
            &&& begun matches ManifestView::Finished { file_set: Some(file_set) } ==> next == (
            CaptureView::Contribution { sourced, file_set })
            &&& begun matches ManifestView::Finished { file_set: None } ==> identity_comes(
                next,
                sourced,
                None,
            )
        }),
        ({
            let made = manifest.step(answer@);
            let next = (CaptureView::BuildFileSet { sourced, manifest }).step(
                CaptureReply::Manifest(answer),
            );
            &&& made !is Finished ==> next == (CaptureView::BuildFileSet {
                sourced,
                manifest: made,
            })
            &&& made matches ManifestView::Finished { file_set: Some(file_set) } ==> next == (
            CaptureView::Contribution { sourced, file_set })
            &&& made matches ManifestView::Finished { file_set: None } ==> identity_comes(
                next,
                sourced,
                None,
            )
        }),
{
    lemma_identify(sourced, None);
}

/// What the copied files contribute is taken into the snapshot before it is
/// hashed: a component for a set with directories, which leaves the digests
/// as they are; else the digests, exactly these and all of them, where there
/// are any; and where there is neither, the snapshot stays as it is. Whatever
/// else the capture was given stays too.
pub proof fn contributions_enter_the_identity(
    sourced: Sourced,
    file_set: Seq<LineView>,
    component: Option<FileSetComponent>,
    digests: Vec<ContentHash>,
)
    requires
        sourced.draft.authoritative_hash is None,
    ensures
        (CaptureView::Contribution { sourced, file_set }).step(
            CaptureReply::Contribution { component, digests },
        ) matches CaptureView::HashSnapshot { sourced: hashed, file_set: held } && {
            let before = sourced.draft.snapshot;
            let after = hashed.draft.snapshot;
            &&& held == Some(file_set)
            &&& after.ts_ms == before.ts_ms
            &&& after.representations == before.representations
            &&& component is Some ==> after.file_set_v1_component == component
                && after.file_content_digests == before.file_content_digests
            &&& component is None ==> after.file_set_v1_component == before.file_set_v1_component
            &&& component is None && digests@.len() > 0 ==> after.file_content_digests == digests
            &&& component is None && digests@.len() == 0 ==> after.file_content_digests
                == before.file_content_digests
            &&& hashed.event_id == sourced.event_id
            &&& hashed.source_device == sourced.source_device
            &&& hashed.draft == (Draft { snapshot: after, ..sourced.draft })
        },
{
}

/// Where the content came with an identity, what its files contribute changes
/// the snapshot alike, and the identity stands.
pub proof fn contributions_leave_a_given_identity(
    sourced: Sourced,
    file_set: Seq<LineView>,
    component: Option<FileSetComponent>,
    digests: Vec<ContentHash>,
    hash: SnapshotHash,
)
    requires
        sourced.draft.authoritative_hash == Some(hash),
    ensures
        ({
            let before = sourced.draft.snapshot;
            let after = SystemClipboardSnapshot {
                file_content_digests: if component is None && digests@.len() > 0 {
                    digests
                } else {
                    before.file_content_digests
                },
                file_set_v1_component: if component is Some {
                    component
                } else {
                    before.file_set_v1_component
                },
                ..before
            };
            identity_comes(
                (CaptureView::Contribution { sourced, file_set }).step(
                    CaptureReply::Contribution { component, digests },
                ),
                Sourced { draft: Draft { snapshot: after, ..sourced.draft }, ..sourced },
                Some(file_set),
            )
        }),
{
    lemma_identify(sourced.digested(component, digests), Some(file_set));
}

/// The hash that was computed is the identity of the content from then on.
pub proof fn hashes_identify(
    sourced: Sourced,
    file_set: Option<Seq<LineView>>,
    hash: SnapshotHash,
)
    ensures
        exists|work: WorkView| #[trigger]
            begins_under(work, sourced, file_set, hash) && lookup_comes(
                (CaptureView::HashSnapshot { sourced, file_set }).step(CaptureReply::Hash(hash)),
                work,
            ),
{
    let work = lemma_identity(sourced, file_set, hash);
    assert(begins_under(work, sourced, file_set, hash));
}

/// Content that is locked is looked for. What is found is brought to the top;
/// where nothing is found, or the look fails, the capture is written. Where
/// bringing it to the top succeeds, the capture ends with that entry, as one
/// that was there already; where it fails, or the entry is gone, the capture
/// is written.
pub proof fn known_content_is_brought_to_the_top(
    work: WorkView,
    port: PortRef,
    existing: EntryId,
    cause: String,
)
    ensures
        (CaptureView::Lock { work, port }).step(CaptureReply::Locked) == (CaptureView::Find {
            work,
        }),
        (CaptureView::Find { work }).step(CaptureReply::Found(Ok(Some(existing)))) == (
        CaptureView::Touch { work, existing }),
        target_comes((CaptureView::Find { work }).step(CaptureReply::Found(Ok(None))), work),
        target_comes((CaptureView::Find { work }).step(CaptureReply::Found(Err(cause))), work),
        (CaptureView::Touch { work, existing }).step(CaptureReply::Touched(Ok(true))) matches
            CaptureView::Done { result: Ok(Some(outcome)) } && outcome.entry_id == existing
            && outcome.deduplicated && outcome.snapshot_hash == work.event.snapshot_hash.0,
        target_comes(
            (CaptureView::Touch { work, existing }).step(CaptureReply::Touched(Ok(false))),
            work,
        ),
        target_comes(
            (CaptureView::Touch { work, existing }).step(CaptureReply::Touched(Err(cause))),
            work,
        ),
{
    lemma_target(work);
}

/// The latest entry is asked for exactly where retention is on and one of its
/// rules lets entries go at once, that is, at an age of nothing.
pub proof fn only_zero_ages_keep_no_history(
    work: WorkView,
    list_entries: PortRef,
    settings: CaptureSettings,
    cause: String,
)
    ensures
        ({
            let next = (CaptureView::LoadRetention { work, list_entries }).step(
                CaptureReply::Settings(Ok(settings)),
            );
            &&& !settings.retention_enabled ==> representation_comes(next, work)
            &&& (forall|i: int|
                0 <= i < settings.retention_rules@.len() ==> (
                #[trigger] settings.retention_rules@[i] matches RetentionRule::ByAge {
                    max_age_nanos,
                } ==> max_age_nanos > 0)) ==> representation_comes(next, work)
            &&& settings.retention_enabled && (exists|i: int|
                0 <= i < settings.retention_rules@.len() && (
                #[trigger] settings.retention_rules@[i] matches RetentionRule::ByAge {
                    max_age_nanos,
                } && max_age_nanos == 0)) ==> next == (CaptureView::LatestEntry {
                work,
                port: list_entries,
            })
        }),
        representation_comes(
            (CaptureView::LoadRetention { work, list_entries }).step(
                CaptureReply::Settings(Err(cause)),
            ),
            work,
        ),
{
    lemma_representation(work);
    if settings.retention_enabled && (exists|i: int|
        0 <= i < settings.retention_rules@.len() && (
        #[trigger] settings.retention_rules@[i] matches RetentionRule::ByAge { max_age_nanos }
            && max_age_nanos == 0)) {
        let i = choose|i: int|
            0 <= i < settings.retention_rules@.len() && (
            #[trigger] settings.retention_rules@[i] matches RetentionRule::ByAge { max_age_nanos }
                && max_age_nanos == 0);
        assert(settings.retention_rules@[i] == RetentionRule::ByAge { max_age_nanos: 0 });
    }
}

/// A capture that takes the place of the latest entry is directed to it and
/// changed in nothing else. Where there is no entry, or the list cannot be
/// had, it is written as a new one.
pub proof fn latest_entries_give_way(
    work: WorkView,
    port: PortRef,
    listed: Vec<EntryId>,
    cause: String,
)
    ensures
        ({
            let next = (CaptureView::LatestEntry { work, port }).step(
                CaptureReply::Entries(Ok(listed)),
            );
            if listed@.len() > 0 {
                representation_comes(
                    next,
                    WorkView {
                        draft: Draft {
                            commit_mode: CommitMode::Replace,
                            preset_entry_id: Some(listed@[0]),
                            ..work.draft
                        },
                        ..work
                    },
                )
            } else {
                representation_comes(next, work)
            }
        }),
        representation_comes(
            (CaptureView::LatestEntry { work, port }).step(CaptureReply::Entries(Err(cause))),
            work,
        ),
{
    lemma_representation(work);
    if listed@.len() > 0 {
        lemma_representation(
            WorkView {
                draft: Draft {
                    commit_mode: CommitMode::Replace,
                    preset_entry_id: Some(listed@[0]),
                    ..work.draft
                },
                ..work
            },
        );
    }
}

/// Of a payload in memory the form that the normalizer gave is stored; of a
/// copied file, what was observed of it, with its content in the blob store.
/// What cannot be normalized or taken in ends the capture. An answer for the
/// other kind of payload changes nothing.
pub proof fn representations_are_stored_in_turn(
    work: WorkView,
    stored: PersistedClipboardRepresentation,
    blob_id: BlobId,
    cause: String,
)
    requires
        work.representations.len() < work.draft.snapshot.representations@.len(),
    ensures
        ({
            let state = CaptureView::Normalize { work };
            let observed = work.draft.snapshot.representations@[work.representations.len() as int];
            match observed.source {
                ClipboardPayloadSource::Inline(bytes) => {
                    &&& representation_comes(
                        state.step(CaptureReply::Normalized(Ok(stored))),
                        WorkView { representations: work.representations.push(stored), ..work },
                    )
                    &&& state.step(CaptureReply::Normalized(Err(cause))) == (CaptureView::Done {
                        result: Err(CaptureError::Normalize(cause)),
                    })
                    &&& state.step(CaptureReply::Ingested(Ok(blob_id))) == state
                    &&& state.step(CaptureReply::Ingested(Err(cause))) == state
                },
                ClipboardPayloadSource::LocalFile { path, display, size_bytes } => {
                    &&& representation_comes(
                        state.step(CaptureReply::Ingested(Ok(blob_id))),
                        WorkView {
                            representations: work.representations.push(
                                PersistedClipboardRepresentation {
                                    id: observed.id,
                                    format_id: observed.format_id,
                                    mime: observed.mime,
                                    size_bytes: size_bytes as i64,
                                    inline_data: None,
                                    blob_id: Some(blob_id),
                                    payload_state: PayloadAvailability::BlobReady,
                                },
                            ),
                            ..work
                        },
                    )
                    &&& state.step(CaptureReply::Ingested(Err(cause))) == (CaptureView::Done {
                        result: Err(CaptureError::Ingest(cause)),
                    })
                    &&& state.step(CaptureReply::Normalized(Ok(stored))) == state
                    &&& state.step(CaptureReply::Normalized(Err(cause))) == state
                },
            }
        }),
{
    let observed = work.draft.snapshot.representations@[work.representations.len() as int];
    lemma_representation(
        WorkView { representations: work.representations.push(stored), ..work },
    );
    if let ClipboardPayloadSource::LocalFile { path, display, size_bytes } = observed.source {
        lemma_representation(
            WorkView {
                representations: work.representations.push(
                    stored_file(observed, size_bytes, blob_id),
                ),
                ..work
            },
        );
    }
}

/// Once its event is stored, the payloads of a new entry are cached; an event
/// that cannot be stored ends the capture. A payload that is cached is kept
/// for the spool, behind those before it.
pub proof fn payloads_are_cached_in_turn(
    work: WorkView,
    payload: PayloadView,
    rest: Seq<PayloadView>,
    kept: Seq<PayloadView>,
    cause: String,
)
    ensures
        caching_comes(
            (CaptureView::InsertEvent { work }).step(CaptureReply::EventInserted(Ok(()))),
            work,
            staged_payloads(work.draft.snapshot.representations@, work.representations),
            seq![],
        ),
        (CaptureView::InsertEvent { work }).step(CaptureReply::EventInserted(Err(cause))) == (
        CaptureView::Done { result: Err(CaptureError::InsertEvent(cause)) }),
        caching_comes(
            (CaptureView::Cache { work, payload, rest, kept }).step(CaptureReply::Cached),
            work,
            rest,
            kept.push(payload),
        ),
{
    lemma_caching(
        work,
        staged_payloads(work.draft.snapshot.representations@, work.representations),
        seq![],
    );
    lemma_caching(work, rest, kept.push(payload));
}

/// The next payload waits to be spooled; behind the last one the snapshot is
/// measured.
pub open spec fn spooling_comes(
    next: CaptureView,
    work: WorkView,
    choice: Choice,
    waiting: Seq<PayloadView>,
) -> bool {
    if waiting.len() > 0 {
        next matches CaptureView::Spool { work: held, choice: made, payload, rest } && held == work
            && made == choice && seq![payload] + rest == waiting
    } else {
        next == (CaptureView::Measure { work, choice })
    }
}

proof fn lemma_spooling(work: WorkView, choice: Choice, waiting: Seq<PayloadView>)
    ensures
        spooling_comes(work.spool_next(choice, waiting), work, choice, waiting),
{
    if waiting.len() > 0 {
        assert(seq![waiting[0]] + waiting.drop_first() == waiting);
    }
}

/// What was selected, for the entry that was named or fixed, goes with the
/// entry; every payload that was kept is spooled, one after the other. What
/// cannot be selected or spooled ends the capture.
pub proof fn payloads_are_spooled_in_turn(
    work: WorkView,
    payloads: Seq<PayloadView>,
    entry_id: EntryId,
    selection: HostRef,
    choice: Choice,
    payload: PayloadView,
    rest: Seq<PayloadView>,
    cause: String,
)
    ensures
        (CaptureView::NewEntryId { work, payloads }).step(CaptureReply::EntryId(entry_id)) == (
        CaptureView::Select { work, payloads, entry_id }),
        spooling_comes(
            (CaptureView::Select { work, payloads, entry_id }).step(
                CaptureReply::Selected(Ok(selection)),
            ),
            work,
            Choice { entry_id, selection },
            payloads,
        ),
        (CaptureView::Select { work, payloads, entry_id }).step(
            CaptureReply::Selected(Err(cause)),
        ) == (CaptureView::Done { result: Err(CaptureError::Select(cause)) }),
        spooling_comes(
            (CaptureView::Spool { work, choice, payload, rest }).step(
                CaptureReply::Spooled(Ok(())),
            ),
            work,
            choice,
            rest,
        ),
        (CaptureView::Spool { work, choice, payload, rest }).step(
            CaptureReply::Spooled(Err(cause)),
        ) == (CaptureView::Done {
            result: Err(CaptureError::Spool { rep_id: payload.rep_id, cause }),
        }),
{
    lemma_spooling(work, Choice { entry_id, selection }, payloads);
    lemma_spooling(work, choice, rest);
}

/// Measured and dated, the entry is written: as a receipt at the port that
/// commits receipts, or not at all where there is none; else as a new entry
/// or in place of one, as the capture was directed. A clock that cannot be
/// read ends the capture.
pub proof fn entries_are_written_last(
    work: WorkView,
    choice: Choice,
    measure: Measure,
    now_ms: i64,
    cause: String,
)
    ensures
        (CaptureView::Measure { work, choice }).step(CaptureReply::Measured(measure)) == (
        CaptureView::Clock { work, choice, measure }),
        (CaptureView::Clock { work, choice, measure }).step(CaptureReply::Time(Err(cause))) == (
        CaptureView::Done { result: Err(CaptureError::Clock(cause)) }),
        work.draft.commit is Some && work.draft.use_case.inbound_receive_commit is None ==> (
        CaptureView::Clock { work, choice, measure }).step(CaptureReply::Time(Ok(now_ms))) == (
        CaptureView::Done { result: Err(CaptureError::CommitNotWired) }),
        !(work.draft.commit is Some && work.draft.use_case.inbound_receive_commit is None) ==> ((
        CaptureView::Clock { work, choice, measure }).step(CaptureReply::Time(Ok(now_ms))) matches
            CaptureView::Persist { record, aftermath } && {
            &&& work.draft.commit is Some <==> record is Commit
            &&& work.draft.commit is None && work.draft.commit_mode == CommitMode::Create
                <==> record is Save
            &&& work.draft.commit is None && work.draft.commit_mode == CommitMode::Replace
                <==> record is Replace
            &&& record matches PersistView::Commit { port, settlement }
                ==> work.draft.use_case.inbound_receive_commit == Some(port)
            &&& record matches PersistView::Save { entry, selection } ==> {
                &&& entry.entry_id == choice.entry_id
                &&& entry.event_id == work.event.event_id
                &&& entry.created_at_ms == now_ms
                &&& entry.total_size == measure.total_size
                &&& entry.content_category == measure.content_category
                &&& selection == ClipboardSelectionDecision {
                    entry_id: choice.entry_id,
                    selection: choice.selection,
                }
            }
            &&& aftermath.use_case == work.draft.use_case
            &&& aftermath.outcome.entry_id == choice.entry_id
            &&& aftermath.outcome.snapshot_hash == work.event.snapshot_hash.0
            &&& !aftermath.outcome.deduplicated
            &&& work.draft.commit is None ==> aftermath.file_set == work.file_set
            &&& work.draft.commit is Some ==> aftermath.file_set is None
        }),
{
}

/// A copied file: its MIME type or format lists files.
pub open spec fn lists_files_by_name(rep: ObservedClipboardRepresentation) -> bool {
    is_word(rep.format_id.0@, "files"@) || (rep.mime matches Some(mime) && (
    is_word(mime.0@, "text/uri-list"@) || is_word(
        mime.0@,
        "file/uri-list"@,
    )))
}

/// An image: its MIME type or format says so.
pub open spec fn is_image_by_name(rep: ObservedClipboardRepresentation) -> bool {
    is_word(rep.format_id.0@, "image"@) || (rep.mime matches Some(mime)
        && "image/"@.is_prefix_of(mime.0@))
}

/// A capture of what the user copied is reported, once its entry is durable:
/// as files where a representation lists files, else as an image where one is
/// an image, else as text, with its size, which is never below nothing. What
/// other devices sent, and what is sent once more, is not reported.
pub proof fn reports_tell_the_kind_and_size(
    work: WorkView,
    choice: Choice,
    measure: Measure,
    now_ms: i64,
)
    requires
        (CaptureView::Clock { work, choice, measure }).step(CaptureReply::Time(Ok(now_ms)))
            is Persist,
    ensures
        (CaptureView::Clock { work, choice, measure }).step(CaptureReply::Time(Ok(now_ms))) matches
            CaptureView::Persist { record, aftermath } && {
            let reps = work.draft.snapshot.representations@;
            &&& aftermath.report is Some <==> work.draft.origin
                == ClipboardChangeOrigin::LocalCapture || work.draft.origin
                == ClipboardChangeOrigin::LocalRestore
            &&& aftermath.report matches Some(report) ==> {
                &&& report.origin == (if work.draft.origin == ClipboardChangeOrigin::LocalCapture {
                    CaptureOrigin::SystemWatcher
                } else {
                    CaptureOrigin::ManualRestore
                })
                &&& measure.total_size >= 0 ==> report.size_bytes == measure.total_size
                &&& measure.total_size < 0 ==> report.size_bytes == 0
                &&& report.payload_type == PayloadType::File <==> exists|i: int|
                    0 <= i < reps.len() && lists_files_by_name(#[trigger] reps[i])
                &&& report.payload_type == PayloadType::Image <==> (exists|i: int|
                    0 <= i < reps.len() && is_image_by_name(#[trigger] reps[i])) && !(exists|
                    i: int,
                |
                    0 <= i < reps.len() && lists_files_by_name(#[trigger] reps[i]))
            }
        },
{
    let reps = work.draft.snapshot.representations@;
    lemma_words();
    assert forall|i: int| 0 <= i < reps.len() implies lists_files_by_name(#[trigger] reps[i])
        == reps[i].is_files() && is_image_by_name(reps[i]) == reps[i].is_image() by {}
    assert((exists|i: int| 0 <= i < reps.len() && lists_files_by_name(#[trigger] reps[i])) == (
    exists|i: int| 0 <= i < reps.len() && (#[trigger] reps[i]).is_files()));
    assert((exists|i: int| 0 <= i < reps.len() && is_image_by_name(#[trigger] reps[i])) == (
    exists|i: int| 0 <= i < reps.len() && (#[trigger] reps[i]).is_image()));
}

/// The report comes next, to the port of analytics, where there is one; else
/// the capture ends with its outcome.
pub open spec fn report_comes(next: CaptureView, aftermath: AftermathView) -> bool {
    match aftermath.report {
        Some(report) => next == (CaptureView::Report {
            port: aftermath.use_case.analytics,
            report,
            outcome: aftermath.outcome,
        }),
        None => next == (CaptureView::Done { result: Ok(Some(aftermath.outcome)) }),
    }
}

/// Once the entry is durable its manifest is stored, where it has one to be
/// stored by itself, and then it is reported; neither a manifest that cannot
/// be stored nor anything else keeps the outcome back. An entry that cannot
/// be made durable ends the capture.
pub proof fn durable_entries_are_the_outcome(
    record: PersistView,
    aftermath: AftermathView,
    file_set: Seq<LineView>,
    saved: Result<(), String>,
    port: PortRef,
    report: CaptureReport,
    outcome: CaptureOutcome,
    cause: String,
)
    ensures
        (CaptureView::Persist { record, aftermath }).step(CaptureReply::Persisted(Err(cause))) == (
        CaptureView::Done { result: Err(CaptureError::Persist(cause)) }),
        ({
            let next = (CaptureView::Persist { record, aftermath }).step(
                CaptureReply::Persisted(Ok(())),
            );
            match aftermath.file_set {
                Some(held) => next matches CaptureView::SaveFileSet { aftermath: left, file_set }
                    && file_set == held && left.outcome == aftermath.outcome && left.report
                    == aftermath.report && left.use_case == aftermath.use_case,
                None => report_comes(next, aftermath),
            }
        }),
        report_comes(
            (CaptureView::SaveFileSet { aftermath, file_set }).step(
                CaptureReply::FileSetSaved(saved),
            ),
            aftermath,
        ),
        (CaptureView::Report { port, report, outcome }).step(CaptureReply::Reported) == (
        CaptureView::Done { result: Ok(Some(outcome)) }),
{
}

} // verus!

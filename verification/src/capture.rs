//! The capture of what is on the clipboard into the history.
//!
//! A capture asks its host for one thing at a time and goes on with the
//! answer. Each request names the port that it goes to, as the use case was
//! wired. In order: the event and its source, the manifest of copied files,
//! the identity of the content, a look whether the history has it already,
//! the form in which each representation is stored, the selection, the spool,
//! and last the entry itself. What an entry needs is durable before the entry
//! is.

use crate::clipboard::{
    ClipboardChangeOrigin, ClipboardPayloadSource, DeviceId, EntryId, EventId, FileSetComponent,
    MimeType, ObservedClipboardRepresentation, SnapshotHash, SystemClipboardSnapshot, infer_payload_type,
    payload_type_of, reported_origin, telemetry_capture_origin,
};
use crate::file_set::{BlobId, ContentHash, EntryFileSet, FileSetCaps, LineView};
use crate::files::FilePath;
use crate::manifest::{
    ManifestReply, ManifestRequest, ManifestRun, ManifestView, build_entry_file_set,
};
use crate::records::{
    CaptureError, CaptureOutcome, CaptureReport, CaptureSettings, ClipboardEntry, ClipboardEvent,
    ClipboardSelectionDecision, CommitMode, CompletedReceiveArtifacts,
    DirectoryCaptureCommitContext, HostRef, InboundCaptureCommitContext, InboundReceiveRecord,
    InboundReceiveSettlement, PayloadAvailability, PayloadView, PersistedClipboardRepresentation,
    PortRef, RecordView, SettlementView, SpoolRequest, settled, settlement,
};
use crate::text::{begins_with, eq_ignoring_ascii_case};
use crate::views::{group_views, view_inside, views};
use std::collections::VecDeque;
use vstd::prelude::*;

verus! {

broadcast use group_views;

/// The capture use case: the ports that captures go to.
#[derive(Clone, Copy, Debug, PartialEq, Eq, Structural)]
pub struct CaptureClipboardUseCase {
    pub save_entry: PortRef,
    pub touch_entry: PortRef,
    pub find_entry_by_snapshot_hash: PortRef,
    pub event_writer: PortRef,
    pub representation_policy: PortRef,
    pub representation_normalizer: PortRef,
    pub device_identity: PortRef,
    pub representation_cache: PortRef,
    pub spool_queue: PortRef,
    /// Takes files into the blob store and hashes them.
    pub blob_ingest: PortRef,
    pub entry_file_set_repo: PortRef,
    pub settings: PortRef,
    pub replace_entry: PortRef,
    /// Commits a receipt and its entry in one.
    pub inbound_receive_commit: Option<PortRef>,
    /// Lets one writer at a time handle one content. Captures of what other
    /// devices sent do not use it: whoever applies such a delivery holds the
    /// lock already.
    pub coordinator: Option<PortRef>,
    /// Finds the entry to be replaced where no history is kept.
    pub list_entries: Option<PortRef>,
    pub analytics: PortRef,
}

/// What a capture is given.
pub struct Draft {
    pub use_case: CaptureClipboardUseCase,
    pub snapshot: SystemClipboardSnapshot,
    pub origin: ClipboardChangeOrigin,
    /// The identity of the entry to be, where it is fixed beforehand.
    pub preset_entry_id: Option<EntryId>,
    /// The identity of the content, where it came with the content.
    pub authoritative_hash: Option<SnapshotHash>,
    pub commit_mode: CommitMode,
    /// The receipt that is committed together with the entry.
    pub commit: Option<InboundCaptureCommitContext>,
}

/// A capture whose event and source are known.
pub struct Sourced {
    pub draft: Draft,
    pub event_id: EventId,
    pub source_device: DeviceId,
}

/// A capture whose content is identified.
pub struct Work {
    pub draft: Draft,
    pub event: ClipboardEvent,
    pub file_set: Option<EntryFileSet>,
    /// The representations that are ready to be stored.
    pub representations: Vec<PersistedClipboardRepresentation>,
}

/// A capture whose content is identified, as contracts speak of it.
#[verifier::ext_equal]
pub struct WorkView {
    pub draft: Draft,
    pub event: ClipboardEvent,
    pub file_set: Option<Seq<LineView>>,
    pub representations: Seq<PersistedClipboardRepresentation>,
}

impl View for Work {
    type V = WorkView;

    open spec fn view(&self) -> WorkView {
        WorkView {
            draft: self.draft,
            event: self.event,
            file_set: view_inside(self.file_set),
            representations: self.representations@,
        }
    }
}

/// The entry to be, and what was selected for it.
pub struct Choice {
    pub entry_id: EntryId,
    pub selection: HostRef,
}

/// The size and category of a snapshot.
#[derive(Clone, Copy, Debug, PartialEq, Eq, Structural)]
pub struct Measure {
    pub total_size: i64,
    pub content_category: HostRef,
}

/// What makes the entry durable.
pub enum PersistRecord {
    /// A new entry.
    Save { entry: ClipboardEntry, selection: ClipboardSelectionDecision },
    /// New content for an entry that exists.
    Replace {
        entry_id: EntryId,
        event: ClipboardEvent,
        representations: Vec<PersistedClipboardRepresentation>,
        selection: ClipboardSelectionDecision,
        total_size: i64,
        content_category: HostRef,
    },
    /// A receipt together with its entry.
    Commit { port: PortRef, settlement: InboundReceiveSettlement },
}

/// What makes the entry durable, as contracts speak of it.
#[verifier::ext_equal]
pub enum PersistView {
    Save { entry: ClipboardEntry, selection: ClipboardSelectionDecision },
    Replace {
        entry_id: EntryId,
        event: ClipboardEvent,
        representations: Seq<PersistedClipboardRepresentation>,
        selection: ClipboardSelectionDecision,
        total_size: i64,
        content_category: HostRef,
    },
    Commit { port: PortRef, settlement: SettlementView },
}

impl View for PersistRecord {
    type V = PersistView;

    open spec fn view(&self) -> PersistView {
        match *self {
            PersistRecord::Save { entry, selection } => PersistView::Save { entry, selection },
            PersistRecord::Replace {
                entry_id,
                event,
                representations,
                selection,
                total_size,
                content_category,
            } => PersistView::Replace {
                entry_id,
                event,
                representations: representations@,
                selection,
                total_size,
                content_category,
            },
            PersistRecord::Commit { port, settlement } => PersistView::Commit {
                port,
                settlement: settlement@,
            },
        }
    }
}

/// What is left to do once the entry is durable.
pub struct Aftermath {
    pub use_case: CaptureClipboardUseCase,
    pub outcome: CaptureOutcome,
    /// The manifest, where it was not stored together with the entry.
    pub file_set: Option<EntryFileSet>,
    pub report: Option<CaptureReport>,
}

/// What is left to do, as contracts speak of it.
#[verifier::ext_equal]
pub struct AftermathView {
    pub use_case: CaptureClipboardUseCase,
    pub outcome: CaptureOutcome,
    pub file_set: Option<Seq<LineView>>,
    pub report: Option<CaptureReport>,
}

impl View for Aftermath {
    type V = AftermathView;

    open spec fn view(&self) -> AftermathView {
        AftermathView {
            use_case: self.use_case,
            outcome: self.outcome,
            file_set: view_inside(self.file_set),
            report: self.report,
        }
    }
}

/// The state of a capture, named by what it waits for.
#[allow(inconsistent_fields)]
pub enum CaptureRun {
    /// An identity for the event.
    NewEventId { draft: Draft },
    /// The identity of this device.
    CurrentDevice { draft: Draft, event_id: EventId },
    /// The settings, for the caps on copied files.
    LoadCaps { sourced: Sourced },
    /// An answer for the manifest.
    BuildFileSet { sourced: Sourced, manifest: ManifestRun },
    /// What the manifest contributes to the identity of the content.
    Contribution { sourced: Sourced, file_set: EntryFileSet },
    /// The identity of the content.
    HashSnapshot { sourced: Sourced, file_set: Option<EntryFileSet> },
    /// The lock for this content. The host keeps it until the capture ends.
    Lock { work: Work, port: PortRef },
    /// The entry that has this content, if there is one.
    Find { work: Work },
    /// This entry to be brought to the top of the history.
    Touch { work: Work, existing: EntryId },
    /// The settings, for the rules by which entries leave the history.
    LoadRetention { work: Work, list_entries: PortRef },
    /// The latest entry.
    LatestEntry { work: Work, port: PortRef },
    /// The next representation in the form to be stored.
    Normalize { work: Work },
    /// The event to be stored.
    InsertEvent { work: Work },
    /// This payload to be cached; `rest` are those behind it, `kept` those
    /// before it.
    Cache {
        work: Work,
        payload: SpoolRequest,
        rest: VecDeque<SpoolRequest>,
        kept: VecDeque<SpoolRequest>,
    },
    /// An identity for the entry.
    NewEntryId { work: Work, payloads: VecDeque<SpoolRequest> },
    /// The selection of representations.
    Select { work: Work, payloads: VecDeque<SpoolRequest>, entry_id: EntryId },
    /// This payload to be written to the spool; `rest` are those behind it.
    Spool { work: Work, choice: Choice, payload: SpoolRequest, rest: VecDeque<SpoolRequest> },
    /// The size and category of the snapshot.
    Measure { work: Work, choice: Choice },
    /// The time.
    Clock { work: Work, choice: Choice, measure: Measure },
    /// The entry to be made durable.
    Persist { record: PersistRecord, aftermath: Aftermath },
    /// The manifest to be stored.
    SaveFileSet { aftermath: Aftermath, file_set: EntryFileSet },
    /// The capture to be reported.
    Report { port: PortRef, report: CaptureReport, outcome: CaptureOutcome },
    /// Nothing.
    Done { result: Result<Option<CaptureOutcome>, CaptureError> },
}

/// The state of a capture, as contracts speak of it.
#[allow(inconsistent_fields)]
pub enum CaptureView {
    NewEventId { draft: Draft },
    CurrentDevice { draft: Draft, event_id: EventId },
    LoadCaps { sourced: Sourced },
    BuildFileSet { sourced: Sourced, manifest: ManifestView },
    Contribution { sourced: Sourced, file_set: Seq<LineView> },
    HashSnapshot { sourced: Sourced, file_set: Option<Seq<LineView>> },
    Lock { work: WorkView, port: PortRef },
    Find { work: WorkView },
    Touch { work: WorkView, existing: EntryId },
    LoadRetention { work: WorkView, list_entries: PortRef },
    LatestEntry { work: WorkView, port: PortRef },
    Normalize { work: WorkView },
    InsertEvent { work: WorkView },
    Cache {
        work: WorkView,
        payload: PayloadView,
        rest: Seq<PayloadView>,
        kept: Seq<PayloadView>,
    },
    NewEntryId { work: WorkView, payloads: Seq<PayloadView> },
    Select { work: WorkView, payloads: Seq<PayloadView>, entry_id: EntryId },
    Spool { work: WorkView, choice: Choice, payload: PayloadView, rest: Seq<PayloadView> },
    Measure { work: WorkView, choice: Choice },
    Clock { work: WorkView, choice: Choice, measure: Measure },
    Persist { record: PersistView, aftermath: AftermathView },
    SaveFileSet { aftermath: AftermathView, file_set: Seq<LineView> },
    Report { port: PortRef, report: CaptureReport, outcome: CaptureOutcome },
    Done { result: Result<Option<CaptureOutcome>, CaptureError> },
}

impl View for CaptureRun {
    type V = CaptureView;

    open spec fn view(&self) -> CaptureView {
        match *self {
            CaptureRun::NewEventId { draft } => CaptureView::NewEventId { draft },
            CaptureRun::CurrentDevice { draft, event_id } => CaptureView::CurrentDevice {
                draft,
                event_id,
            },
            CaptureRun::LoadCaps { sourced } => CaptureView::LoadCaps { sourced },
            CaptureRun::BuildFileSet { sourced, manifest } => CaptureView::BuildFileSet {
                sourced,
                manifest: manifest@,
            },
            CaptureRun::Contribution { sourced, file_set } => CaptureView::Contribution {
                sourced,
                file_set: file_set@,
            },
            CaptureRun::HashSnapshot { sourced, file_set } => CaptureView::HashSnapshot {
                sourced,
                file_set: view_inside(file_set),
            },
            CaptureRun::Lock { work, port } => CaptureView::Lock { work: work@, port },
            CaptureRun::Find { work } => CaptureView::Find { work: work@ },
            CaptureRun::Touch { work, existing } => CaptureView::Touch { work: work@, existing },
            CaptureRun::LoadRetention { work, list_entries } => CaptureView::LoadRetention {
                work: work@,
                list_entries,
            },
            CaptureRun::LatestEntry { work, port } => CaptureView::LatestEntry {
                work: work@,
                port,
            },
            CaptureRun::Normalize { work } => CaptureView::Normalize { work: work@ },
            CaptureRun::InsertEvent { work } => CaptureView::InsertEvent { work: work@ },
            CaptureRun::Cache { work, payload, rest, kept } => CaptureView::Cache {
                work: work@,
                payload: payload@,
                rest: views(rest@),
                kept: views(kept@),
            },
            CaptureRun::NewEntryId { work, payloads } => CaptureView::NewEntryId {
                work: work@,
                payloads: views(payloads@),
            },
            CaptureRun::Select { work, payloads, entry_id } => CaptureView::Select {
                work: work@,
                payloads: views(payloads@),
                entry_id,
            },
            CaptureRun::Spool { work, choice, payload, rest } => CaptureView::Spool {
                work: work@,
                choice,
                payload: payload@,
                rest: views(rest@),
            },
            CaptureRun::Measure { work, choice } => CaptureView::Measure { work: work@, choice },
            CaptureRun::Clock { work, choice, measure } => CaptureView::Clock {
                work: work@,
                choice,
                measure,
            },
            CaptureRun::Persist { record, aftermath } => CaptureView::Persist {
                record: record@,
                aftermath: aftermath@,
            },
            CaptureRun::SaveFileSet { aftermath, file_set } => CaptureView::SaveFileSet {
                aftermath: aftermath@,
                file_set: file_set@,
            },
            CaptureRun::Report { port, report, outcome } => CaptureView::Report {
                port,
                report,
                outcome,
            },
            CaptureRun::Done { result } => CaptureView::Done { result },
        }
    }
}

/// What the host answers. A failure is told in words.
pub enum CaptureReply {
    EventId(EventId),
    Device(DeviceId),
    Settings(Result<CaptureSettings, String>),
    Manifest(ManifestReply),
    /// What the manifest contributes as a set with directories, and what it
    /// contributes as a list of files.
    Contribution { component: Option<FileSetComponent>, digests: Vec<ContentHash> },
    Hash(SnapshotHash),
    Locked,
    Found(Result<Option<EntryId>, String>),
    /// Whether the entry was still there.
    Touched(Result<bool, String>),
    /// Entries, the latest first.
    Entries(Result<Vec<EntryId>, String>),
    Ingested(Result<BlobId, String>),
    Normalized(Result<PersistedClipboardRepresentation, String>),
    EventInserted(Result<(), String>),
    Cached,
    EntryId(EntryId),
    Selected(Result<HostRef, String>),
    Spooled(Result<(), String>),
    Measured(Measure),
    Time(Result<i64, String>),
    Persisted(Result<(), String>),
    FileSetSaved(Result<(), String>),
    Reported,
}

/// The caps that settings give, or those for settings that cannot be loaded.
pub open spec fn caps_of(settings: Result<CaptureSettings, String>) -> FileSetCaps {
    match settings {
        Ok(loaded) => FileSetCaps {
            max_total_bytes: loaded.max_file_set_total_bytes,
            max_member_count: loaded.max_file_set_member_count,
        },
        Err(cause) => FileSetCaps { max_total_bytes: 0x4000_0000, max_member_count: 2000 },
    }
}

/// The bytes that the snapshot holds for a representation: those of the first
/// one with this identity, where they are in memory.
pub open spec fn observed_bytes(
    observed: Seq<ObservedClipboardRepresentation>,
    id: Seq<char>,
) -> Option<Seq<u8>>
    decreases observed.len(),
{
    if observed.len() == 0 {
        None
    } else if observed[0].id.0@ == id {
        match observed[0].source {
            ClipboardPayloadSource::Inline(bytes) => Some(bytes@),
            ClipboardPayloadSource::LocalFile { path, display, size_bytes } => None,
        }
    } else {
        observed_bytes(observed.drop_first(), id)
    }
}

/// The payload that a stored representation still has to bring to the spool.
pub open spec fn staged_payload(
    observed: Seq<ObservedClipboardRepresentation>,
    stored: PersistedClipboardRepresentation,
) -> Seq<PayloadView> {
    match observed_bytes(observed, stored.id.0@) {
        Some(bytes) if stored.payload_state == PayloadAvailability::Staged => seq![
            PayloadView { rep_id: stored.id, bytes },
        ],
        _ => seq![],
    }
}

/// The payloads that stored representations still have to bring to the spool.
pub open spec fn staged_payloads(
    observed: Seq<ObservedClipboardRepresentation>,
    stored: Seq<PersistedClipboardRepresentation>,
) -> Seq<PayloadView>
    decreases stored.len(),
{
    if stored.len() == 0 {
        seq![]
    } else {
        staged_payloads(observed, stored.drop_last()) + staged_payload(observed, stored.last())
    }
}

/// A copied file as it is stored: its content is in the blob store already.
pub open spec fn stored_file(
    observed: ObservedClipboardRepresentation,
    size_bytes: u64,
    blob_id: BlobId,
) -> PersistedClipboardRepresentation {
    PersistedClipboardRepresentation {
        id: observed.id,
        format_id: observed.format_id,
        mime: observed.mime,
        size_bytes: size_bytes as i64,
        inline_data: None,
        blob_id: Some(blob_id),
        payload_state: PayloadAvailability::BlobReady,
    }
}

impl Draft {
    /// The capture at its start. What was put back from the history is not
    /// captured, and neither is a snapshot of which nothing can be.
    pub open spec fn begun(self) -> CaptureView {
        if self.origin == ClipboardChangeOrigin::LocalRestore || !self.snapshot.is_supported() {
            CaptureView::Done { result: Ok(None) }
        } else {
            CaptureView::NewEventId { draft: self }
        }
    }

    /// Goes on once the event has an identity. What another device sent has
    /// that device as its source.
    pub open spec fn event_named(self, event_id: EventId) -> CaptureView {
        match self.origin {
            ClipboardChangeOrigin::RemotePush { from_device: Some(device) } => Sourced {
                draft: self,
                event_id,
                source_device: device,
            }.sourced(),
            _ => CaptureView::CurrentDevice { draft: self, event_id },
        }
    }
}

impl Sourced {
    /// Goes on once the source is known. A manifest is made where files were
    /// copied of whose content nothing is known yet.
    pub open spec fn sourced(self) -> CaptureView {
        if self.draft.snapshot.is_undigested() && self.draft.snapshot.is_file_class() {
            CaptureView::LoadCaps { sourced: self }
        } else {
            self.identify(None)
        }
    }

    /// Goes on with the manifest.
    pub open spec fn manifest(self, manifest: ManifestView) -> CaptureView {
        match manifest {
            ManifestView::Finished { file_set: None } => self.identify(None),
            ManifestView::Finished { file_set: Some(file_set) } => CaptureView::Contribution {
                sourced: self,
                file_set,
            },
            _ => CaptureView::BuildFileSet { sourced: self, manifest },
        }
    }

    /// The content is identified by that of the copied files: as a set with
    /// directories where the manifest is one, else as a list of files where
    /// there is one.
    pub open spec fn digested(
        self,
        component: Option<FileSetComponent>,
        digests: Vec<ContentHash>,
    ) -> Sourced {
        let snapshot = self.draft.snapshot;
        Sourced {
            draft: Draft {
                snapshot: match component {
                    Some(set) => SystemClipboardSnapshot {
                        file_set_v1_component: Some(set),
                        ..snapshot
                    },
                    None => if digests@.len() > 0 {
                        SystemClipboardSnapshot { file_content_digests: digests, ..snapshot }
                    } else {
                        snapshot
                    },
                },
                ..self.draft
            },
            ..self
        }
    }

    /// Goes on with the identity of the content. One that came with the
    /// content stands as it is.
    pub open spec fn identify(self, file_set: Option<Seq<LineView>>) -> CaptureView {
        match self.draft.authoritative_hash {
            Some(hash) => self.identified(file_set, hash),
            None => CaptureView::HashSnapshot { sourced: self, file_set },
        }
    }

    /// Goes on once the content is identified. Only what was copied on this
    /// device is looked for in the history.
    pub open spec fn identified(
        self,
        file_set: Option<Seq<LineView>>,
        hash: SnapshotHash,
    ) -> CaptureView {
        let work = WorkView {
            draft: self.draft,
            event: ClipboardEvent {
                event_id: self.event_id,
                captured_at_ms: self.draft.snapshot.ts_ms,
                source_device: self.source_device,
                snapshot_hash: hash,
            },
            file_set,
            representations: seq![],
        };
        if self.draft.origin == ClipboardChangeOrigin::LocalCapture {
            match self.draft.use_case.coordinator {
                Some(port) => CaptureView::Lock { work, port },
                None => CaptureView::Find { work },
            }
        } else {
            work.targeted()
        }
    }
}

/// The entry that a look into the history found. A look that failed found
/// none.
pub open spec fn found_entry(found: Result<Option<EntryId>, String>) -> Option<EntryId> {
    match found {
        Ok(Some(existing)) => Some(existing),
        _ => None,
    }
}

/// The entry, where bringing it to the top of the history succeeded. It does
/// not where the entry has left the history since it was found.
pub open spec fn resurfaced_entry(existing: EntryId, touched: Result<bool, String>) -> Option<
    EntryId,
> {
    match touched {
        Ok(true) => Some(existing),
        _ => None,
    }
}

impl WorkView {
    /// Goes on after the look into the history.
    pub open spec fn found(self, found: Result<Option<EntryId>, String>) -> CaptureView {
        match found_entry(found) {
            Some(existing) => CaptureView::Touch { work: self, existing },
            None => self.targeted(),
        }
    }

    /// Goes on after the entry that was found was brought to the top.
    pub open spec fn touched(self, existing: EntryId, touched: Result<bool, String>) -> CaptureView {
        match resurfaced_entry(existing, touched) {
            Some(entry_id) => CaptureView::Done {
                result: Ok(
                    Some(
                        CaptureOutcome {
                            entry_id,
                            deduplicated: true,
                            snapshot_hash: self.event.snapshot_hash.0,
                        },
                    ),
                ),
            },
            None => self.targeted(),
        }
    }

    /// Goes on to what the capture is written to. A new local entry may have
    /// to take the place of the latest one.
    pub open spec fn targeted(self) -> CaptureView {
        match self.draft.use_case.list_entries {
            Some(list_entries) if self.draft.origin == ClipboardChangeOrigin::LocalCapture
                && self.draft.commit_mode == CommitMode::Create => CaptureView::LoadRetention {
                work: self,
                list_entries,
            },
            _ => self.next_representation(),
        }
    }

    /// Goes on once the rules of retention are known.
    pub open spec fn retention_loaded(
        self,
        list_entries: PortRef,
        settings: Result<CaptureSettings, String>,
    ) -> CaptureView {
        match settings {
            Ok(loaded) if loaded.keeps_no_history() => CaptureView::LatestEntry {
                work: self,
                port: list_entries,
            },
            _ => self.next_representation(),
        }
    }

    /// The capture, to take the place of the given entry.
    pub open spec fn replacing(self, target: EntryId) -> WorkView {
        WorkView {
            draft: Draft {
                commit_mode: CommitMode::Replace,
                preset_entry_id: Some(target),
                ..self.draft
            },
            ..self
        }
    }

    /// Goes on once the latest entry is known.
    pub open spec fn latest_listed(self, entries: Result<Vec<EntryId>, String>) -> CaptureView {
        match entries {
            Ok(listed) if listed@.len() > 0 => self.replacing(listed@[0]).next_representation(),
            _ => self.next_representation(),
        }
    }

    /// Goes on with the next representation, or with the event where none is
    /// left.
    pub open spec fn next_representation(self) -> CaptureView {
        if self.representations.len() < self.draft.snapshot.representations@.len() {
            CaptureView::Normalize { work: self }
        } else {
            self.normalized()
        }
    }

    /// Goes on with one more representation in the form to be stored.
    pub open spec fn stored(self, stored: PersistedClipboardRepresentation) -> CaptureView {
        WorkView { representations: self.representations.push(stored), ..self }.next_representation()
    }

    /// Goes on after a copied file was taken into the blob store.
    pub open spec fn ingested(self, ingested: Result<BlobId, String>) -> CaptureView {
        let at = self.representations.len() as int;
        let observed = self.draft.snapshot.representations@;
        if at < observed.len() {
            match observed[at].source {
                ClipboardPayloadSource::LocalFile { path, display, size_bytes } => match ingested {
                    Ok(blob_id) => self.stored(stored_file(observed[at], size_bytes, blob_id)),
                    Err(cause) => failed(CaptureError::Ingest(cause)),
                },
                ClipboardPayloadSource::Inline(bytes) => CaptureView::Normalize { work: self },
            }
        } else {
            CaptureView::Normalize { work: self }
        }
    }

    /// Goes on after a payload in memory was brought into the form to be
    /// stored.
    pub open spec fn inline_normalized(
        self,
        normalized: Result<PersistedClipboardRepresentation, String>,
    ) -> CaptureView {
        let at = self.representations.len() as int;
        let observed = self.draft.snapshot.representations@;
        if at < observed.len() && observed[at].source is Inline {
            match normalized {
                Ok(stored) => self.stored(stored),
                Err(cause) => failed(CaptureError::Normalize(cause)),
            }
        } else {
            CaptureView::Normalize { work: self }
        }
    }

    /// Goes on once every representation is in the form to be stored. Only a
    /// new entry of its own has its event stored by itself; every other event
    /// is stored together with the entry.
    pub open spec fn normalized(self) -> CaptureView {
        if self.draft.commit_mode == CommitMode::Create && self.draft.commit is None {
            CaptureView::InsertEvent { work: self }
        } else {
            self.cache_staged()
        }
    }

    /// The payloads that have to be in the spool before the entry is durable.
    pub open spec fn payloads(self) -> Seq<PayloadView> {
        staged_payloads(self.draft.snapshot.representations@, self.representations)
    }

    /// Goes on with the payloads to be spooled.
    pub open spec fn cache_staged(self) -> CaptureView {
        self.cache_next(self.payloads(), seq![])
    }

    /// Goes on with the next payload to be cached, or with the entry's
    /// identity where none is left.
    pub open spec fn cache_next(
        self,
        waiting: Seq<PayloadView>,
        kept: Seq<PayloadView>,
    ) -> CaptureView {
        if waiting.len() == 0 {
            match self.draft.preset_entry_id {
                Some(entry_id) => CaptureView::Select { work: self, payloads: kept, entry_id },
                None => CaptureView::NewEntryId { work: self, payloads: kept },
            }
        } else {
            CaptureView::Cache {
                work: self,
                payload: waiting[0],
                rest: waiting.drop_first(),
                kept,
            }
        }
    }

    /// Goes on with the next payload to be spooled, or with the entry where
    /// none is left.
    pub open spec fn spool_next(self, choice: Choice, waiting: Seq<PayloadView>) -> CaptureView {
        if waiting.len() == 0 {
            CaptureView::Measure { work: self, choice }
        } else {
            CaptureView::Spool {
                work: self,
                choice,
                payload: waiting[0],
                rest: waiting.drop_first(),
            }
        }
    }

    /// The new entry.
    pub open spec fn entry(self, choice: Choice, measure: Measure, now_ms: i64) -> ClipboardEntry {
        ClipboardEntry {
            entry_id: choice.entry_id,
            event_id: self.event.event_id,
            created_at_ms: now_ms,
            total_size: measure.total_size,
            content_category: measure.content_category,
        }
    }

    /// What is left to do once the entry is durable. A manifest that was
    /// stored together with the entry is not stored again.
    pub open spec fn aftermath(self, choice: Choice, measure: Measure) -> AftermathView {
        AftermathView {
            use_case: self.draft.use_case,
            outcome: CaptureOutcome {
                entry_id: choice.entry_id,
                deduplicated: false,
                snapshot_hash: self.event.snapshot_hash.0,
            },
            file_set: if self.draft.commit is None {
                self.file_set
            } else {
                None
            },
            report: match reported_origin(self.draft.origin) {
                Some(origin) => Some(
                    CaptureReport {
                        origin,
                        payload_type: payload_type_of(self.draft.snapshot.representations@),
                        size_bytes: if measure.total_size < 0 {
                            0
                        } else {
                            measure.total_size as u64
                        },
                    },
                ),
                None => None,
            },
        }
    }

    /// What is written of a receipt.
    pub open spec fn inbound_record(
        self,
        choice: Choice,
        measure: Measure,
        now_ms: i64,
    ) -> RecordView {
        let selection = ClipboardSelectionDecision {
            entry_id: choice.entry_id,
            selection: choice.selection,
        };
        match self.draft.commit_mode {
            CommitMode::Create => RecordView::Create {
                entry: self.entry(choice, measure, now_ms),
                event: self.event,
                representations: self.representations,
                selection,
            },
            CommitMode::Replace => RecordView::Replace {
                entry_id: choice.entry_id,
                new_event: self.event,
                new_representations: self.representations,
                new_selection: selection,
                new_total_size: measure.total_size,
                new_content_category: measure.content_category,
            },
        }
    }

    /// Goes on to make the entry durable.
    pub open spec fn persisting(self, choice: Choice, measure: Measure, now_ms: i64) -> CaptureView {
        let selection = ClipboardSelectionDecision {
            entry_id: choice.entry_id,
            selection: choice.selection,
        };
        match self.draft.commit {
            Some(context) => match self.draft.use_case.inbound_receive_commit {
                Some(port) => CaptureView::Persist {
                    record: PersistView::Commit {
                        port,
                        settlement: settled(
                            self.inbound_record(choice, measure, now_ms),
                            context,
                            now_ms,
                        ),
                    },
                    aftermath: self.aftermath(choice, measure),
                },
                None => CaptureView::Done { result: Err(CaptureError::CommitNotWired) },
            },
            None => CaptureView::Persist {
                record: match self.draft.commit_mode {
                    CommitMode::Create => PersistView::Save {
                        entry: self.entry(choice, measure, now_ms),
                        selection,
                    },
                    CommitMode::Replace => PersistView::Replace {
                        entry_id: choice.entry_id,
                        event: self.event,
                        representations: self.representations,
                        selection,
                        total_size: measure.total_size,
                        content_category: measure.content_category,
                    },
                },
                aftermath: self.aftermath(choice, measure),
            },
        }
    }
}

impl AftermathView {
    /// Goes on once the entry is durable.
    pub open spec fn persisted(self) -> CaptureView {
        match self.file_set {
            Some(file_set) => CaptureView::SaveFileSet {
                aftermath: AftermathView { file_set: None, ..self },
                file_set,
            },
            None => self.reporting(),
        }
    }

    /// Goes on to report the capture, where it is reported.
    pub open spec fn reporting(self) -> CaptureView {
        match self.report {
            Some(report) => CaptureView::Report {
                port: self.use_case.analytics,
                report,
                outcome: self.outcome,
            },
            None => CaptureView::Done { result: Ok(Some(self.outcome)) },
        }
    }
}

/// The capture has failed.
pub open spec fn failed(error: CaptureError) -> CaptureView {
    CaptureView::Done { result: Err(error) }
}

impl CaptureView {
    /// The state after an answer. An answer to another question than the one
    /// that was asked changes nothing.
    pub open spec fn step(self, reply: CaptureReply) -> CaptureView {
        match self {
            CaptureView::NewEventId { draft } => match reply {
                CaptureReply::EventId(event_id) => draft.event_named(event_id),
                _ => self,
            },
            CaptureView::CurrentDevice { draft, event_id } => match reply {
                CaptureReply::Device(source_device) => Sourced {
                    draft,
                    event_id,
                    source_device,
                }.sourced(),
                _ => self,
            },
            CaptureView::LoadCaps { sourced } => match reply {
                CaptureReply::Settings(settings) => sourced.manifest(
                    ManifestView::started(
                        sourced.draft.snapshot.representations@,
                        caps_of(settings),
                    ),
                ),
                _ => self,
            },
            CaptureView::BuildFileSet { sourced, manifest } => match reply {
                CaptureReply::Manifest(answer) => sourced.manifest(manifest.step(answer@)),
                _ => self,
            },
            CaptureView::Contribution { sourced, file_set } => match reply {
                CaptureReply::Contribution { component, digests } => sourced.digested(
                    component,
                    digests,
                ).identify(Some(file_set)),
                _ => self,
            },
            CaptureView::HashSnapshot { sourced, file_set } => match reply {
                CaptureReply::Hash(hash) => sourced.identified(file_set, hash),
                _ => self,
            },
            CaptureView::Lock { work, port } => match reply {
                CaptureReply::Locked => CaptureView::Find { work },
                _ => self,
            },
            CaptureView::Find { work } => match reply {
                CaptureReply::Found(found) => work.found(found),
                _ => self,
            },
            CaptureView::Touch { work, existing } => match reply {
                CaptureReply::Touched(touched) => work.touched(existing, touched),
                _ => self,
            },
            CaptureView::LoadRetention { work, list_entries } => match reply {
                CaptureReply::Settings(settings) => work.retention_loaded(list_entries, settings),
                _ => self,
            },
            CaptureView::LatestEntry { work, port } => match reply {
                CaptureReply::Entries(entries) => work.latest_listed(entries),
                _ => self,
            },
            CaptureView::Normalize { work } => match reply {
                CaptureReply::Ingested(ingested) => work.ingested(ingested),
                CaptureReply::Normalized(normalized) => work.inline_normalized(normalized),
                _ => self,
            },
            CaptureView::InsertEvent { work } => match reply {
                CaptureReply::EventInserted(inserted) => match inserted {
                    Ok(_) => work.cache_staged(),
                    Err(cause) => failed(CaptureError::InsertEvent(cause)),
                },
                _ => self,
            },
            CaptureView::Cache { work, payload, rest, kept } => match reply {
                CaptureReply::Cached => work.cache_next(rest, kept.push(payload)),
                _ => self,
            },
            CaptureView::NewEntryId { work, payloads } => match reply {
                CaptureReply::EntryId(entry_id) => CaptureView::Select {
                    work,
                    payloads,
                    entry_id,
                },
                _ => self,
            },
            CaptureView::Select { work, payloads, entry_id } => match reply {
                CaptureReply::Selected(selected) => match selected {
                    Ok(selection) => work.spool_next(Choice { entry_id, selection }, payloads),
                    Err(cause) => failed(CaptureError::Select(cause)),
                },
                _ => self,
            },
            CaptureView::Spool { work, choice, payload, rest } => match reply {
                CaptureReply::Spooled(spooled) => match spooled {
                    Ok(_) => work.spool_next(choice, rest),
                    Err(cause) => failed(CaptureError::Spool { rep_id: payload.rep_id, cause }),
                },
                _ => self,
            },
            CaptureView::Measure { work, choice } => match reply {
                CaptureReply::Measured(measure) => CaptureView::Clock { work, choice, measure },
                _ => self,
            },
            CaptureView::Clock { work, choice, measure } => match reply {
                CaptureReply::Time(now) => match now {
                    Ok(now_ms) => work.persisting(choice, measure, now_ms),
                    Err(cause) => failed(CaptureError::Clock(cause)),
                },
                _ => self,
            },
            CaptureView::Persist { record, aftermath } => match reply {
                CaptureReply::Persisted(persisted) => match persisted {
                    Ok(_) => aftermath.persisted(),
                    Err(cause) => failed(CaptureError::Persist(cause)),
                },
                _ => self,
            },
            CaptureView::SaveFileSet { aftermath, file_set } => match reply {
                CaptureReply::FileSetSaved(saved) => aftermath.reporting(),
                _ => self,
            },
            CaptureView::Report { port, report, outcome } => match reply {
                CaptureReply::Reported => CaptureView::Done { result: Ok(Some(outcome)) },
                _ => self,
            },
            CaptureView::Done { result } => self,
        }
    }
}

/// The bytes that the snapshot holds for a representation.
fn find_bytes<'a>(
    observed: &'a Vec<ObservedClipboardRepresentation>,
    id: &String,
) -> (r: Option<&'a Vec<u8>>)
    ensures
        match r {
            Some(bytes) => observed_bytes(observed@, id@) == Some(bytes@),
            None => observed_bytes(observed@, id@) is None,
        },
{
    let mut i: usize = 0;
    proof {
        assert(observed@.skip(0) == observed@);
    }
    while i < observed.len()
        invariant
            i <= observed@.len(),
            observed_bytes(observed@, id@) == observed_bytes(observed@.skip(i as int), id@),
        decreases observed@.len() - i,
    {
        proof {
            assert(observed@.skip(i as int)[0] == observed@[i as int]);
            assert(observed@.skip(i as int).drop_first() == observed@.skip(i + 1));
        }
        if observed[i].id.0 == *id {
            return observed[i].inline_bytes();
        }
        i = i + 1;
    }
    None
}

/// A copy of `bytes`.
fn copied(bytes: &Vec<u8>) -> (r: Vec<u8>)
    ensures
        r@ == bytes@,
{
    let mut out: Vec<u8> = Vec::new();
    for i in 0..bytes.len()
        invariant
            out@ == bytes@.take(i as int),
    {
        proof {
            assert(bytes@.take(i + 1) == bytes@.take(i as int).push(bytes@[i as int]));
        }
        out.push(bytes[i]);
    }
    proof {
        assert(bytes@.take(bytes@.len() as int) == bytes@);
    }
    out
}

/// The entry that a look into the history found. A look that failed found
/// none.
pub fn resurface_candidate(found: Result<Option<EntryId>, String>) -> (r: Option<EntryId>)
    ensures
        r == found_entry(found),
{
    match found {
        Ok(existing) => existing,
        Err(_) => None,
    }
}

/// The entry, where bringing it to the top of the history succeeded.
pub fn resurface_existing_entry(existing: EntryId, touched: Result<bool, String>) -> (r: Option<
    EntryId,
>)
    ensures
        r == resurfaced_entry(existing, touched),
{
    match touched {
        Ok(updated) => if updated {
            Some(existing)
        } else {
            None
        },
        Err(_) => None,
    }
}

/// The entry that a capture replaces where no history is kept: the latest
/// one, where the list could be had and is not empty.
pub fn resolve_no_history_target(entries: Result<Vec<EntryId>, String>) -> (r: Option<EntryId>)
    ensures
        r == (match entries {
            Ok(listed) if listed@.len() > 0 => Some(listed@[0]),
            _ => None,
        }),
{
    match entries {
        Ok(listed) => if listed.len() > 0 {
            Some(listed[0].clone())
        } else {
            None
        },
        Err(_) => None,
    }
}

/// The caps that settings give, or those for settings that cannot be loaded.
pub fn capture_caps(settings: Result<CaptureSettings, String>) -> (r: FileSetCaps)
    ensures
        r == caps_of(settings),
{
    match settings {
        Ok(loaded) => FileSetCaps {
            max_total_bytes: loaded.max_file_set_total_bytes,
            max_member_count: loaded.max_file_set_member_count,
        },
        Err(_) => FileSetCaps::fallback(),
    }
}

fn failure(error: CaptureError) -> (r: CaptureRun)
    ensures
        r@ == failed(error),
{
    CaptureRun::Done { result: Err(error) }
}

impl Draft {
    fn begin(self) -> (r: CaptureRun)
        ensures
            r@ == self.begun(),
    {
        if self.origin == ClipboardChangeOrigin::LocalRestore
            || !CaptureClipboardUseCase::has_supported_representation(&self.snapshot) {
            CaptureRun::Done { result: Ok(None) }
        } else {
            CaptureRun::NewEventId { draft: self }
        }
    }

    fn name_event(self, event_id: EventId) -> (r: CaptureRun)
        ensures
            r@ == self.event_named(event_id),
    {
        match self.origin {
            ClipboardChangeOrigin::RemotePush { from_device: Some(device) } => Sourced {
                draft: self,
                event_id,
                source_device: device,
            }.with_source(),
            _ => CaptureRun::CurrentDevice { draft: self, event_id },
        }
    }
}

impl Sourced {
    fn with_source(self) -> (r: CaptureRun)
        ensures
            r@ == self.sourced(),
    {
        if self.draft.snapshot.file_content_digests.len() == 0
            && self.draft.snapshot.file_set_v1_component.is_none()
            && self.draft.snapshot.is_file_class_snapshot() {
            CaptureRun::LoadCaps { sourced: self }
        } else {
            self.with_identity(None)
        }
    }

    fn with_manifest(self, manifest: ManifestRun) -> (r: CaptureRun)
        ensures
            r@ == self.manifest(manifest@),
    {
        match manifest {
            ManifestRun::Finished { file_set } => match file_set {
                None => self.with_identity(None),
                Some(file_set) => CaptureRun::Contribution { sourced: self, file_set },
            },
            manifest => CaptureRun::BuildFileSet { sourced: self, manifest },
        }
    }

    fn with_contribution(
        self,
        component: Option<FileSetComponent>,
        digests: Vec<ContentHash>,
    ) -> (r: Self)
        ensures
            r == self.digested(component, digests),
    {
        let mut sourced: Sourced = self;
        match component {
            Some(set) => {
                sourced.draft.snapshot.file_set_v1_component = Some(set);
            },
            None => {
                if digests.len() > 0 {
                    sourced.draft.snapshot.file_content_digests = digests;
                }
            },
        }
        sourced
    }

    fn with_identity(self, file_set: Option<EntryFileSet>) -> (r: CaptureRun)
        ensures
            r@ == self.identify(view_inside(file_set)),
    {
        let known: Option<SnapshotHash> = match &self.draft.authoritative_hash {
            Some(hash) => Some(hash.clone()),
            None => None,
        };
        match known {
            Some(hash) => self.with_hash(file_set, hash),
            None => CaptureRun::HashSnapshot { sourced: self, file_set },
        }
    }

    fn with_hash(self, file_set: Option<EntryFileSet>, hash: SnapshotHash) -> (r: CaptureRun)
        ensures
            r@ == self.identified(view_inside(file_set), hash),
    {
        let local: bool = self.draft.origin == ClipboardChangeOrigin::LocalCapture;
        let coordinator: Option<PortRef> = self.draft.use_case.coordinator;
        let captured_at_ms: i64 = self.draft.snapshot.ts_ms;
        let work = Work {
            draft: self.draft,
            event: ClipboardEvent {
                event_id: self.event_id,
                captured_at_ms,
                source_device: self.source_device,
                snapshot_hash: hash,
            },
            file_set,
            representations: Vec::new(),
        };
        proof {
            assert(work@.representations == Seq::<PersistedClipboardRepresentation>::empty());
        }
        if local {
            match coordinator {
                Some(port) => CaptureRun::Lock { work, port },
                None => CaptureRun::Find { work },
            }
        } else {
            work.targeted()
        }
    }
}

impl Work {
    fn found(self, found: Result<Option<EntryId>, String>) -> (r: CaptureRun)
        ensures
            r@ == self@.found(found),
    {
        match resurface_candidate(found) {
            Some(existing) => CaptureRun::Touch { work: self, existing },
            None => self.targeted(),
        }
    }

    fn touched(self, existing: EntryId, touched: Result<bool, String>) -> (r: CaptureRun)
        ensures
            r@ == self@.touched(existing, touched),
    {
        match resurface_existing_entry(existing, touched) {
            Some(entry_id) => CaptureRun::Done {
                result: Ok(
                    Some(
                        CaptureOutcome {
                            entry_id,
                            deduplicated: true,
                            snapshot_hash: self.event.snapshot_hash.0,
                        },
                    ),
                ),
            },
            None => self.targeted(),
        }
    }

    fn targeted(self) -> (r: CaptureRun)
        ensures
            r@ == self@.targeted(),
    {
        if self.draft.origin == ClipboardChangeOrigin::LocalCapture && self.draft.commit_mode
            == CommitMode::Create {
            if let Some(list_entries) = self.draft.use_case.list_entries {
                return CaptureRun::LoadRetention { work: self, list_entries };
            }
        }
        self.next_representation()
    }

    fn retention_loaded(
        self,
        list_entries: PortRef,
        settings: Result<CaptureSettings, String>,
    ) -> (r: CaptureRun)
        ensures
            r@ == self@.retention_loaded(list_entries, settings),
    {
        match settings {
            Ok(loaded) => if loaded.no_history() {
                CaptureRun::LatestEntry { work: self, port: list_entries }
            } else {
                self.next_representation()
            },
            Err(_) => self.next_representation(),
        }
    }

    fn latest_listed(self, entries: Result<Vec<EntryId>, String>) -> (r: CaptureRun)
        ensures
            r@ == self@.latest_listed(entries),
    {
        match resolve_no_history_target(entries) {
            Some(target) => {
                let mut work: Work = self;
                work.draft.commit_mode = CommitMode::Replace;
                work.draft.preset_entry_id = Some(target);
                proof {
                    assert(work@ == self@.replacing(target));
                }
                work.next_representation()
            },
            None => self.next_representation(),
        }
    }

    fn next_representation(self) -> (r: CaptureRun)
        ensures
            r@ == self@.next_representation(),
    {
        if self.representations.len() < self.draft.snapshot.representations.len() {
            CaptureRun::Normalize { work: self }
        } else {
            self.normalized()
        }
    }

    fn stored(self, stored: PersistedClipboardRepresentation) -> (r: CaptureRun)
        ensures
            r@ == self@.stored(stored),
    {
        let mut work: Work = self;
        work.representations.push(stored);
        proof {
            assert(work@ == WorkView {
                representations: self@.representations.push(stored),
                ..self@
            });
        }
        work.next_representation()
    }

    fn normalized(self) -> (r: CaptureRun)
        ensures
            r@ == self@.normalized(),
    {
        if self.draft.commit_mode == CommitMode::Create && self.draft.commit.is_none() {
            CaptureRun::InsertEvent { work: self }
        } else {
            self.cache_staged()
        }
    }

    fn staged(&self) -> (r: VecDeque<SpoolRequest>)
        ensures
            views(r@) == self@.payloads(),
    {
        let observed = &self.draft.snapshot.representations;
        let stored = &self.representations;
        let mut out: VecDeque<SpoolRequest> = VecDeque::new();
        let mut i: usize = 0;
        while i < stored.len()
            invariant
                i <= stored@.len(),
                views(out@) == staged_payloads(observed@, stored@.take(i as int)),
            decreases stored@.len() - i,
        {
            let ghost before = views(out@);
            proof {
                assert(stored@.take(i + 1).drop_last() == stored@.take(i as int));
                assert(stored@.take(i + 1).last() == stored@[i as int]);
            }
            let rep = &stored[i];
            if rep.payload_state == PayloadAvailability::Staged {
                if let Some(bytes) = find_bytes(observed, &rep.id.0) {
                    let payload = SpoolRequest { rep_id: rep.id.clone(), bytes: copied(bytes) };
                    let ghost shown = payload@;
                    out.push_back(payload);
                    proof {
                        assert(staged_payload(observed@, stored@[i as int]) == seq![shown]);
                        assert(before.push(shown) == before + seq![shown]);
                    }
                }
            }
            i = i + 1;
        }
        proof {
            assert(stored@.take(stored@.len() as int) == stored@);
        }
        out
    }

    fn cache_staged(self) -> (r: CaptureRun)
        ensures
            r@ == self@.cache_staged(),
    {
        let payloads: VecDeque<SpoolRequest> = self.staged();
        let kept: VecDeque<SpoolRequest> = VecDeque::new();
        proof {
            assert(views(kept@) == Seq::<PayloadView>::empty());
        }
        self.cache_next(payloads, kept)
    }

    fn cache_next(self, waiting: VecDeque<SpoolRequest>, kept: VecDeque<SpoolRequest>) -> (r:
        CaptureRun)
        ensures
            r@ == self@.cache_next(views(waiting@), views(kept@)),
    {
        let mut rest: VecDeque<SpoolRequest> = waiting;
        let ghost before = views(rest@);
        match rest.pop_front() {
            Some(payload) => {
                proof {
                    assert(views(rest@) == before.drop_first());
                }
                CaptureRun::Cache { work: self, payload, rest, kept }
            },
            None => {
                let preset: Option<EntryId> = match &self.draft.preset_entry_id {
                    Some(entry_id) => Some(entry_id.clone()),
                    None => None,
                };
                match preset {
                    Some(entry_id) => CaptureRun::Select { work: self, payloads: kept, entry_id },
                    None => CaptureRun::NewEntryId { work: self, payloads: kept },
                }
            },
        }
    }

    fn spool_next(self, choice: Choice, waiting: VecDeque<SpoolRequest>) -> (r: CaptureRun)
        ensures
            r@ == self@.spool_next(choice, views(waiting@)),
    {
        let mut rest: VecDeque<SpoolRequest> = waiting;
        let ghost before = views(rest@);
        match rest.pop_front() {
            Some(payload) => {
                proof {
                    assert(views(rest@) == before.drop_first());
                }
                CaptureRun::Spool { work: self, choice, payload, rest }
            },
            None => CaptureRun::Measure { work: self, choice },
        }
    }

    fn report(&self, measure: Measure) -> (r: Option<CaptureReport>)
        ensures
            forall|choice: Choice| r == (#[trigger] self@.aftermath(choice, measure)).report,
    {
        match telemetry_capture_origin(self.draft.origin) {
            Some(origin) => {
                let size_bytes: u64 = if measure.total_size < 0 {
                    0
                } else {
                    measure.total_size as u64
                };
                Some(
                    CaptureReport {
                        origin,
                        payload_type: infer_payload_type(&self.draft.snapshot),
                        size_bytes,
                    },
                )
            },
            None => None,
        }
    }

    fn persisting(self, choice: Choice, measure: Measure, now_ms: i64) -> (r: CaptureRun)
        ensures
            r@ == self@.persisting(choice, measure, now_ms),
    {
        let report: Option<CaptureReport> = self.report(measure);
        let Work { draft, event, file_set, representations } = self;
        let use_case: CaptureClipboardUseCase = draft.use_case;
        let outcome = CaptureOutcome {
            entry_id: choice.entry_id.clone(),
            deduplicated: false,
            snapshot_hash: event.snapshot_hash.0.clone(),
        };
        let selection = ClipboardSelectionDecision {
            entry_id: choice.entry_id.clone(),
            selection: choice.selection,
        };
        match draft.commit {
            Some(context) => match use_case.inbound_receive_commit {
                None => failure(CaptureError::CommitNotWired),
                Some(port) => {
                    let record = match draft.commit_mode {
                        CommitMode::Create => InboundReceiveRecord::Create {
                            entry: ClipboardEntry {
                                entry_id: choice.entry_id,
                                event_id: event.event_id.clone(),
                                created_at_ms: now_ms,
                                total_size: measure.total_size,
                                content_category: measure.content_category,
                            },
                            event,
                            representations,
                            selection,
                        },
                        CommitMode::Replace => InboundReceiveRecord::Replace {
                            entry_id: choice.entry_id,
                            new_event: event,
                            new_representations: representations,
                            new_selection: selection,
                            new_total_size: measure.total_size,
                            new_content_category: measure.content_category,
                        },
                    };
                    CaptureRun::Persist {
                        record: PersistRecord::Commit {
                            port,
                            settlement: settlement(record, context, now_ms),
                        },
                        aftermath: Aftermath { use_case, outcome, file_set: None, report },
                    }
                },
            },
            None => {
                let record = match draft.commit_mode {
                    CommitMode::Create => PersistRecord::Save {
                        entry: ClipboardEntry {
                            entry_id: choice.entry_id,
                            event_id: event.event_id,
                            created_at_ms: now_ms,
                            total_size: measure.total_size,
                            content_category: measure.content_category,
                        },
                        selection,
                    },
                    CommitMode::Replace => PersistRecord::Replace {
                        entry_id: choice.entry_id,
                        event,
                        representations,
                        selection,
                        total_size: measure.total_size,
                        content_category: measure.content_category,
                    },
                };
                CaptureRun::Persist {
                    record,
                    aftermath: Aftermath { use_case, outcome, file_set, report },
                }
            },
        }
    }
}

impl Aftermath {
    fn persisted(self) -> (r: CaptureRun)
        ensures
            r@ == self@.persisted(),
    {
        let Aftermath { use_case, outcome, file_set, report } = self;
        let rest = Aftermath { use_case, outcome, file_set: None, report };
        match file_set {
            Some(file_set) => CaptureRun::SaveFileSet { aftermath: rest, file_set },
            None => rest.reporting(),
        }
    }

    fn reporting(self) -> (r: CaptureRun)
        ensures
            r@ == self@.reporting(),
    {
        match self.report {
            Some(report) => CaptureRun::Report {
                port: self.use_case.analytics,
                report,
                outcome: self.outcome,
            },
            None => CaptureRun::Done { result: Ok(Some(self.outcome)) },
        }
    }
}

impl CaptureClipboardUseCase {
    /// A use case that commits no receipts, takes no locks and keeps to the
    /// history.
    pub fn new(
        save_entry: PortRef,
        touch_entry: PortRef,
        find_entry_by_snapshot_hash: PortRef,
        event_writer: PortRef,
        representation_policy: PortRef,
        representation_normalizer: PortRef,
        device_identity: PortRef,
        representation_cache: PortRef,
        spool_queue: PortRef,
        blob_ingest: PortRef,
        entry_file_set_repo: PortRef,
        settings: PortRef,
        replace_entry: PortRef,
        analytics: PortRef,
    ) -> (r: Self)
        ensures
            r == (CaptureClipboardUseCase {
                save_entry,
                touch_entry,
                find_entry_by_snapshot_hash,
                event_writer,
                representation_policy,
                representation_normalizer,
                device_identity,
                representation_cache,
                spool_queue,
                blob_ingest,
                entry_file_set_repo,
                settings,
                replace_entry,
                inbound_receive_commit: None,
                coordinator: None,
                list_entries: None,
                analytics,
            }),
    {
        CaptureClipboardUseCase {
            save_entry,
            touch_entry,
            find_entry_by_snapshot_hash,
            event_writer,
            representation_policy,
            representation_normalizer,
            device_identity,
            representation_cache,
            spool_queue,
            blob_ingest,
            entry_file_set_repo,
            settings,
            replace_entry,
            inbound_receive_commit: None,
            coordinator: None,
            list_entries: None,
            analytics,
        }
    }

    /// The use case, to commit receipts with `commit`.
    pub fn with_inbound_receive_commit(self, commit: PortRef) -> (r: Self)
        ensures
            r == (CaptureClipboardUseCase { inbound_receive_commit: Some(commit), ..self }),
    {
        CaptureClipboardUseCase { inbound_receive_commit: Some(commit), ..self }
    }

    /// The use case, to let one local capture of one content at a time look
    /// for it and write it.
    pub fn with_entry_identity_coordinator(self, coordinator: PortRef) -> (r: Self)
        ensures
            r == (CaptureClipboardUseCase { coordinator: Some(coordinator), ..self }),
    {
        CaptureClipboardUseCase { coordinator: Some(coordinator), ..self }
    }

    /// The use case, to replace the latest entry where no history is kept.
    pub fn with_list_entries(self, list_entries: PortRef) -> (r: Self)
        ensures
            r == (CaptureClipboardUseCase { list_entries: Some(list_entries), ..self }),
    {
        CaptureClipboardUseCase { list_entries: Some(list_entries), ..self }
    }

    /// Captures what the user copied on this device. What it ends with is
    /// read by [`captured_entry`].
    pub fn execute(&self, snapshot: SystemClipboardSnapshot) -> (r: CaptureRun)
        ensures
            r@ == (Draft {
                use_case: *self,
                snapshot,
                origin: ClipboardChangeOrigin::LocalCapture,
                preset_entry_id: None,
                authoritative_hash: None,
                commit_mode: CommitMode::Create,
                commit: None,
            }).begun(),
    {
        self.execute_with_origin(
            snapshot,
            ClipboardChangeOrigin::LocalCapture,
            None,
            None,
            CommitMode::Create,
        )
    }

    /// Captures what came onto the clipboard in the given way.
    ///
    /// `preset_entry_id` fixes the identity of the entry beforehand, so that
    /// it can be shown before its content is there. `authoritative_hash` is
    /// the identity under which the content was sent: what was received is
    /// stored under it, and never hashed again, since what is received of a
    /// file differs from what was sent.
    pub fn execute_with_origin(
        &self,
        snapshot: SystemClipboardSnapshot,
        origin: ClipboardChangeOrigin,
        preset_entry_id: Option<EntryId>,
        authoritative_hash: Option<SnapshotHash>,
        commit_mode: CommitMode,
    ) -> (r: CaptureRun)
        ensures
            r@ == (Draft {
                use_case: *self,
                snapshot,
                origin,
                preset_entry_id,
                authoritative_hash,
                commit_mode,
                commit: None,
            }).begun(),
    {
        Draft {
            use_case: *self,
            snapshot,
            origin,
            preset_entry_id,
            authoritative_hash,
            commit_mode,
            commit: None,
        }.begin()
    }

    /// Captures a directory that was received, and commits its receipt.
    pub fn execute_directory_with_origin(
        &self,
        snapshot: SystemClipboardSnapshot,
        origin: ClipboardChangeOrigin,
        preset_entry_id: EntryId,
        authoritative_hash: Option<SnapshotHash>,
        commit_mode: CommitMode,
        directory_commit: DirectoryCaptureCommitContext,
    ) -> (r: CaptureRun)
        ensures
            r@ == (Draft {
                use_case: *self,
                snapshot,
                origin,
                preset_entry_id: Some(preset_entry_id),
                authoritative_hash,
                commit_mode,
                commit: Some(
                    InboundCaptureCommitContext::Complete {
                        attempt_id: directory_commit.attempt_id,
                        file_set: Some(directory_commit.file_set),
                        artifacts: CompletedReceiveArtifacts::DirectoryPublished,
                    },
                ),
            }).begun(),
    {
        self.execute_inbound_with_origin(
            snapshot,
            origin,
            preset_entry_id,
            authoritative_hash,
            commit_mode,
            InboundCaptureCommitContext::Complete {
                attempt_id: directory_commit.attempt_id,
                file_set: Some(directory_commit.file_set),
                artifacts: CompletedReceiveArtifacts::DirectoryPublished,
            },
        )
    }

    /// Captures something that was received, and commits its receipt.
    pub fn execute_inbound_with_origin(
        &self,
        snapshot: SystemClipboardSnapshot,
        origin: ClipboardChangeOrigin,
        preset_entry_id: EntryId,
        authoritative_hash: Option<SnapshotHash>,
        commit_mode: CommitMode,
        commit: InboundCaptureCommitContext,
    ) -> (r: CaptureRun)
        ensures
            r@ == (Draft {
                use_case: *self,
                snapshot,
                origin,
                preset_entry_id: Some(preset_entry_id),
                authoritative_hash,
                commit_mode,
                commit: Some(commit),
            }).begun(),
    {
        Draft {
            use_case: *self,
            snapshot,
            origin,
            preset_entry_id: Some(preset_entry_id),
            authoritative_hash,
            commit_mode,
            commit: Some(commit),
        }.begin()
    }

    /// Whether some representation of the snapshot can be captured.
    pub fn has_supported_representation(snapshot: &SystemClipboardSnapshot) -> (r: bool)
        ensures
            r == snapshot.is_supported(),
    {
        for i in 0..snapshot.representations.len()
            invariant
                forall|j: int|
                    0 <= j < i ==> !(#[trigger] snapshot.representations@[j]).is_supported(),
        {
            if Self::is_supported_representation(&snapshot.representations[i]) {
                assert(snapshot.representations@[i as int].is_supported());
                return true;
            }
        }
        false
    }

    /// Whether the representation can be captured.
    pub fn is_supported_representation(rep: &ObservedClipboardRepresentation) -> (r: bool)
        ensures
            r == rep.is_supported(),
    {
        if let Some(mime) = &rep.mime {
            if begins_with(&mime.0, "text/") || begins_with(&mime.0, "image/")
                || eq_ignoring_ascii_case(&mime.0, "file/uri-list") || eq_ignoring_ascii_case(
                &mime.0,
                "text/uri-list",
            ) {
                return true;
            }
        }
        let format: &String = &rep.format_id.0;
        eq_ignoring_ascii_case(format, "text") || eq_ignoring_ascii_case(format, "rtf")
            || eq_ignoring_ascii_case(format, "html") || eq_ignoring_ascii_case(format, "files")
            || eq_ignoring_ascii_case(format, "image") || eq_ignoring_ascii_case(
            format,
            "public.utf8-plain-text",
        ) || eq_ignoring_ascii_case(format, "public.text") || eq_ignoring_ascii_case(
            format,
            "NSStringPboardType",
        )
    }
}

/// The entry of a local capture. One that ended without an entry failed.
pub fn captured_entry(result: Result<Option<CaptureOutcome>, CaptureError>) -> (r: Result<
    EntryId,
    CaptureError,
>)
    ensures
        r == (match result {
            Ok(Some(outcome)) => Ok::<EntryId, CaptureError>(outcome.entry_id),
            Ok(None) => Err(CaptureError::NothingPersisted),
            Err(error) => Err(error),
        }),
{
    match result {
        Ok(Some(outcome)) => Ok(outcome.entry_id),
        Ok(None) => Err(CaptureError::NothingPersisted),
        Err(error) => Err(error),
    }
}

/// What a capture asks its host for.
pub enum CaptureRequest<'a> {
    NewEventId,
    CurrentDevice { port: PortRef },
    LoadSettings { port: PortRef },
    /// Something for the manifest; hashes come from the port.
    BuildFileSet { port: PortRef, request: ManifestRequest<'a> },
    Contribution { file_set: &'a EntryFileSet },
    HashSnapshot { snapshot: &'a SystemClipboardSnapshot },
    Lock { port: PortRef, hash: &'a String },
    Find { port: PortRef, hash: &'a String },
    Touch { port: PortRef, entry_id: &'a EntryId, active_time_ms: i64 },
    /// `limit` entries from `offset` on, the latest first.
    ListEntries { port: PortRef, limit: u64, offset: u64 },
    Ingest { port: PortRef, path: &'a FilePath },
    Normalize { port: PortRef, representation: &'a ObservedClipboardRepresentation },
    InsertEvent {
        port: PortRef,
        event: &'a ClipboardEvent,
        representations: &'a Vec<PersistedClipboardRepresentation>,
    },
    Cache { port: PortRef, payload: &'a SpoolRequest },
    NewEntryId,
    Select { port: PortRef, snapshot: &'a SystemClipboardSnapshot },
    Spool { port: PortRef, payload: &'a SpoolRequest },
    Measure { snapshot: &'a SystemClipboardSnapshot },
    ReadClock,
    /// The record goes to the port; one that commits a receipt names it
    /// again.
    Persist { port: PortRef, record: &'a PersistRecord },
    SaveFileSet { port: PortRef, entry_id: &'a EntryId, file_set: &'a EntryFileSet },
    Report { port: PortRef, report: CaptureReport },
    /// Nothing: the capture has ended.
    Nothing,
}

/// The port that makes an entry durable.
pub open spec fn persisting_port(use_case: CaptureClipboardUseCase, record: PersistRecord) -> PortRef {
    match record {
        PersistRecord::Save { entry, selection } => use_case.save_entry,
        PersistRecord::Replace {
            entry_id,
            event,
            representations,
            selection,
            total_size,
            content_category,
        } => use_case.replace_entry,
        PersistRecord::Commit { port, settlement } => port,
    }
}

impl CaptureRun {
    /// The request is the one that the capture waits to have answered.
    pub open spec fn awaits(&self, request: CaptureRequest<'_>) -> bool {
        match *self {
            CaptureRun::NewEventId { draft } => request is NewEventId,
            CaptureRun::CurrentDevice { draft, event_id } => request
                == (CaptureRequest::CurrentDevice { port: draft.use_case.device_identity }),
            CaptureRun::LoadCaps { sourced } => request == (CaptureRequest::LoadSettings {
                port: sourced.draft.use_case.settings,
            }),
            CaptureRun::BuildFileSet { sourced, manifest } => {
                &&& request matches CaptureRequest::BuildFileSet { port, request: asked }
                &&& port == sourced.draft.use_case.blob_ingest
                &&& manifest.awaits(asked)
            },
            CaptureRun::Contribution { sourced, file_set } => request
                == (CaptureRequest::Contribution { file_set: &file_set }),
            CaptureRun::HashSnapshot { sourced, file_set } => request
                == (CaptureRequest::HashSnapshot { snapshot: &sourced.draft.snapshot }),
            CaptureRun::Lock { work, port } => request == (CaptureRequest::Lock {
                port,
                hash: &work.event.snapshot_hash.0,
            }),
            CaptureRun::Find { work } => request == (CaptureRequest::Find {
                port: work.draft.use_case.find_entry_by_snapshot_hash,
                hash: &work.event.snapshot_hash.0,
            }),
            CaptureRun::Touch { work, existing } => request == (CaptureRequest::Touch {
                port: work.draft.use_case.touch_entry,
                entry_id: &existing,
                active_time_ms: work.event.captured_at_ms,
            }),
            CaptureRun::LoadRetention { work, list_entries } => request
                == (CaptureRequest::LoadSettings { port: work.draft.use_case.settings }),
            CaptureRun::LatestEntry { work, port } => request == (CaptureRequest::ListEntries {
                port,
                limit: 1,
                offset: 0,
            }),
            CaptureRun::Normalize { work } => {
                let at = work.representations@.len() as int;
                let observed = work.draft.snapshot.representations@;
                if at < observed.len() {
                    match observed[at].source {
                        ClipboardPayloadSource::LocalFile { path, display, size_bytes } => request
                            == (CaptureRequest::Ingest {
                            port: work.draft.use_case.blob_ingest,
                            path: &path,
                        }),
                        ClipboardPayloadSource::Inline(bytes) => request
                            == (CaptureRequest::Normalize {
                            port: work.draft.use_case.representation_normalizer,
                            representation: &observed[at],
                        }),
                    }
                } else {
                    request is Nothing
                }
            },
            CaptureRun::InsertEvent { work } => request == (CaptureRequest::InsertEvent {
                port: work.draft.use_case.event_writer,
                event: &work.event,
                representations: &work.representations,
            }),
            CaptureRun::Cache { work, payload, rest, kept } => request == (CaptureRequest::Cache {
                port: work.draft.use_case.representation_cache,
                payload: &payload,
            }),
            CaptureRun::NewEntryId { work, payloads } => request is NewEntryId,
            CaptureRun::Select { work, payloads, entry_id } => request
                == (CaptureRequest::Select {
                port: work.draft.use_case.representation_policy,
                snapshot: &work.draft.snapshot,
            }),
            CaptureRun::Spool { work, choice, payload, rest } => request
                == (CaptureRequest::Spool {
                port: work.draft.use_case.spool_queue,
                payload: &payload,
            }),
            CaptureRun::Measure { work, choice } => request == (CaptureRequest::Measure {
                snapshot: &work.draft.snapshot,
            }),
            CaptureRun::Clock { work, choice, measure } => request is ReadClock,
            CaptureRun::Persist { record, aftermath } => request == (CaptureRequest::Persist {
                port: persisting_port(aftermath.use_case, record),
                record: &record,
            }),
            CaptureRun::SaveFileSet { aftermath, file_set } => request
                == (CaptureRequest::SaveFileSet {
                port: aftermath.use_case.entry_file_set_repo,
                entry_id: &aftermath.outcome.entry_id,
                file_set: &file_set,
            }),
            CaptureRun::Report { port, report, outcome } => request == (CaptureRequest::Report {
                port,
                report,
            }),
            CaptureRun::Done { result } => request is Nothing,
        }
    }

    /// What the capture waits for.
    pub fn request(&self) -> (r: CaptureRequest<'_>)
        ensures
            self.awaits(r),
    {
        match self {
            CaptureRun::NewEventId { draft: _ } => CaptureRequest::NewEventId,
            CaptureRun::CurrentDevice { draft, event_id: _ } => CaptureRequest::CurrentDevice {
                port: draft.use_case.device_identity,
            },
            CaptureRun::LoadCaps { sourced } => CaptureRequest::LoadSettings {
                port: sourced.draft.use_case.settings,
            },
            CaptureRun::BuildFileSet { sourced, manifest } => CaptureRequest::BuildFileSet {
                port: sourced.draft.use_case.blob_ingest,
                request: manifest.request(),
            },
            CaptureRun::Contribution { sourced: _, file_set } => CaptureRequest::Contribution {
                file_set,
            },
            CaptureRun::HashSnapshot { sourced, file_set: _ } => CaptureRequest::HashSnapshot {
                snapshot: &sourced.draft.snapshot,
            },
            CaptureRun::Lock { work, port } => CaptureRequest::Lock {
                port: *port,
                hash: &work.event.snapshot_hash.0,
            },
            CaptureRun::Find { work } => CaptureRequest::Find {
                port: work.draft.use_case.find_entry_by_snapshot_hash,
                hash: &work.event.snapshot_hash.0,
            },
            CaptureRun::Touch { work, existing } => CaptureRequest::Touch {
                port: work.draft.use_case.touch_entry,
                entry_id: existing,
                active_time_ms: work.event.captured_at_ms,
            },
            CaptureRun::LoadRetention { work, list_entries: _ } => CaptureRequest::LoadSettings {
                port: work.draft.use_case.settings,
            },
            CaptureRun::LatestEntry { work: _, port } => CaptureRequest::ListEntries {
                port: *port,
                limit: 1,
                offset: 0,
            },
            CaptureRun::Normalize { work } => work.normalize_request(),
            CaptureRun::InsertEvent { work } => CaptureRequest::InsertEvent {
                port: work.draft.use_case.event_writer,
                event: &work.event,
                representations: &work.representations,
            },
            CaptureRun::Cache { work, payload, rest: _, kept: _ } => CaptureRequest::Cache {
                port: work.draft.use_case.representation_cache,
                payload,
            },
            CaptureRun::NewEntryId { work: _, payloads: _ } => CaptureRequest::NewEntryId,
            CaptureRun::Select { work, payloads: _, entry_id: _ } => CaptureRequest::Select {
                port: work.draft.use_case.representation_policy,
                snapshot: &work.draft.snapshot,
            },
            CaptureRun::Spool { work, choice: _, payload, rest: _ } => CaptureRequest::Spool {
                port: work.draft.use_case.spool_queue,
                payload,
            },
            CaptureRun::Measure { work, choice: _ } => CaptureRequest::Measure {
                snapshot: &work.draft.snapshot,
            },
            CaptureRun::Clock { work: _, choice: _, measure: _ } => CaptureRequest::ReadClock,
            CaptureRun::Persist { record, aftermath } => CaptureRequest::Persist {
                port: match record {
                    PersistRecord::Save { entry: _, selection: _ } => {
                        aftermath.use_case.save_entry
                    },
                    PersistRecord::Replace {
                        entry_id: _,
                        event: _,
                        representations: _,
                        selection: _,
                        total_size: _,
                        content_category: _,
                    } => aftermath.use_case.replace_entry,
                    PersistRecord::Commit { port, settlement: _ } => *port,
                },
                record,
            },
            CaptureRun::SaveFileSet { aftermath, file_set } => CaptureRequest::SaveFileSet {
                port: aftermath.use_case.entry_file_set_repo,
                entry_id: &aftermath.outcome.entry_id,
                file_set,
            },
            CaptureRun::Report { port, report, outcome: _ } => CaptureRequest::Report {
                port: *port,
                report: *report,
            },
            CaptureRun::Done { result: _ } => CaptureRequest::Nothing,
        }
    }

    /// Goes on with an answer. An answer to another question than the one
    /// that was asked changes nothing.
    pub fn resume(self, reply: CaptureReply) -> (r: Self)
        ensures
            r@ == self@.step(reply),
    {
        match self {
            CaptureRun::NewEventId { draft } => match reply {
                CaptureReply::EventId(event_id) => draft.name_event(event_id),
                _ => CaptureRun::NewEventId { draft },
            },
            CaptureRun::CurrentDevice { draft, event_id } => match reply {
                CaptureReply::Device(source_device) => Sourced {
                    draft,
                    event_id,
                    source_device,
                }.with_source(),
                _ => CaptureRun::CurrentDevice { draft, event_id },
            },
            CaptureRun::LoadCaps { sourced } => match reply {
                CaptureReply::Settings(settings) => {
                    let manifest: ManifestRun = build_entry_file_set(
                        &sourced.draft.snapshot,
                        capture_caps(settings),
                    );
                    sourced.with_manifest(manifest)
                },
                _ => CaptureRun::LoadCaps { sourced },
            },
            CaptureRun::BuildFileSet { sourced, manifest } => match reply {
                CaptureReply::Manifest(answer) => sourced.with_manifest(manifest.resume(answer)),
                _ => CaptureRun::BuildFileSet { sourced, manifest },
            },
            CaptureRun::Contribution { sourced, file_set } => match reply {
                CaptureReply::Contribution { component, digests } => sourced.with_contribution(
                    component,
                    digests,
                ).with_identity(Some(file_set)),
                _ => CaptureRun::Contribution { sourced, file_set },
            },
            CaptureRun::HashSnapshot { sourced, file_set } => match reply {
                CaptureReply::Hash(hash) => sourced.with_hash(file_set, hash),
                _ => CaptureRun::HashSnapshot { sourced, file_set },
            },
            CaptureRun::Lock { work, port } => match reply {
                CaptureReply::Locked => CaptureRun::Find { work },
                _ => CaptureRun::Lock { work, port },
            },
            CaptureRun::Find { work } => match reply {
                CaptureReply::Found(found) => work.found(found),
                _ => CaptureRun::Find { work },
            },
            CaptureRun::Touch { work, existing } => match reply {
                CaptureReply::Touched(touched) => work.touched(existing, touched),
                _ => CaptureRun::Touch { work, existing },
            },
            CaptureRun::LoadRetention { work, list_entries } => match reply {
                CaptureReply::Settings(settings) => work.retention_loaded(list_entries, settings),
                _ => CaptureRun::LoadRetention { work, list_entries },
            },
            CaptureRun::LatestEntry { work, port } => match reply {
                CaptureReply::Entries(entries) => work.latest_listed(entries),
                _ => CaptureRun::LatestEntry { work, port },
            },
            CaptureRun::Normalize { work } => match reply {
                CaptureReply::Ingested(ingested) => work.ingested(ingested),
                CaptureReply::Normalized(normalized) => work.inline_normalized(normalized),
                _ => CaptureRun::Normalize { work },
            },
            CaptureRun::InsertEvent { work } => match reply {
                CaptureReply::EventInserted(inserted) => match inserted {
                    Ok(_) => work.cache_staged(),
                    Err(cause) => failure(CaptureError::InsertEvent(cause)),
                },
                _ => CaptureRun::InsertEvent { work },
            },
            CaptureRun::Cache { work, payload, rest, kept } => match reply {
                CaptureReply::Cached => {
                    let mut kept: VecDeque<SpoolRequest> = kept;
                    kept.push_back(payload);
                    work.cache_next(rest, kept)
                },
                _ => CaptureRun::Cache { work, payload, rest, kept },
            },
            CaptureRun::NewEntryId { work, payloads } => match reply {
                CaptureReply::EntryId(entry_id) => CaptureRun::Select { work, payloads, entry_id },
                _ => CaptureRun::NewEntryId { work, payloads },
            },
            CaptureRun::Select { work, payloads, entry_id } => match reply {
                CaptureReply::Selected(selected) => match selected {
                    Ok(selection) => work.spool_next(Choice { entry_id, selection }, payloads),
                    Err(cause) => failure(CaptureError::Select(cause)),
                },
                _ => CaptureRun::Select { work, payloads, entry_id },
            },
            CaptureRun::Spool { work, choice, payload, rest } => match reply {
                CaptureReply::Spooled(spooled) => match spooled {
                    Ok(_) => work.spool_next(choice, rest),
                    Err(cause) => failure(CaptureError::Spool { rep_id: payload.rep_id, cause }),
                },
                _ => CaptureRun::Spool { work, choice, payload, rest },
            },
            CaptureRun::Measure { work, choice } => match reply {
                CaptureReply::Measured(measure) => CaptureRun::Clock { work, choice, measure },
                _ => CaptureRun::Measure { work, choice },
            },
            CaptureRun::Clock { work, choice, measure } => match reply {
                CaptureReply::Time(now) => match now {
                    Ok(now_ms) => work.persisting(choice, measure, now_ms),
                    Err(cause) => failure(CaptureError::Clock(cause)),
                },
                _ => CaptureRun::Clock { work, choice, measure },
            },
            CaptureRun::Persist { record, aftermath } => match reply {
                CaptureReply::Persisted(persisted) => match persisted {
                    Ok(_) => aftermath.persisted(),
                    Err(cause) => failure(CaptureError::Persist(cause)),
                },
                _ => CaptureRun::Persist { record, aftermath },
            },
            CaptureRun::SaveFileSet { aftermath, file_set } => match reply {
                CaptureReply::FileSetSaved(_) => aftermath.reporting(),
                _ => CaptureRun::SaveFileSet { aftermath, file_set },
            },
            CaptureRun::Report { port, report, outcome } => match reply {
                CaptureReply::Reported => CaptureRun::Done { result: Ok(Some(outcome)) },
                _ => CaptureRun::Report { port, report, outcome },
            },
            CaptureRun::Done { result } => CaptureRun::Done { result },
        }
    }
}

impl Work {
    fn normalize_request(&self) -> (r: CaptureRequest<'_>)
        ensures
            forall|run: CaptureRun|
                run == (CaptureRun::Normalize { work: *self }) ==> #[trigger] run.awaits(r),
    {
        let at: usize = self.representations.len();
        if at < self.draft.snapshot.representations.len() {
            let observed = &self.draft.snapshot.representations[at];
            match &observed.source {
                ClipboardPayloadSource::LocalFile { path, display: _, size_bytes: _ } =>
                    CaptureRequest::Ingest { port: self.draft.use_case.blob_ingest, path },
                ClipboardPayloadSource::Inline(_) => CaptureRequest::Normalize {
                    port: self.draft.use_case.representation_normalizer,
                    representation: observed,
                },
            }
        } else {
            CaptureRequest::Nothing
        }
    }

    fn ingested(self, ingested: Result<BlobId, String>) -> (r: CaptureRun)
        ensures
            r@ == self@.ingested(ingested),
    {
        let at: usize = self.representations.len();
        if at < self.draft.snapshot.representations.len() {
            let observed = &self.draft.snapshot.representations[at];
            let size: Option<u64> = match &observed.source {
                ClipboardPayloadSource::LocalFile { path: _, display: _, size_bytes } => Some(
                    *size_bytes,
                ),
                ClipboardPayloadSource::Inline(_) => None,
            };
            if let Some(size_bytes) = size {
                match ingested {
                    Ok(blob_id) => {
                        let mime: Option<MimeType> = match &observed.mime {
                            Some(mime) => Some(mime.clone()),
                            None => None,
                        };
                        let stored = PersistedClipboardRepresentation {
                            id: observed.id.clone(),
                            format_id: observed.format_id.clone(),
                            mime,
                            size_bytes: size_bytes as i64,
                            inline_data: None,
                            blob_id: Some(blob_id),
                            payload_state: PayloadAvailability::BlobReady,
                        };
                        return self.stored(stored);
                    },
                    Err(cause) => {
                        return failure(CaptureError::Ingest(cause));
                    },
                }
            }
        }
        CaptureRun::Normalize { work: self }
    }

    fn inline_normalized(self, normalized: Result<PersistedClipboardRepresentation, String>) -> (r:
        CaptureRun)
        ensures
            r@ == self@.inline_normalized(normalized),
    {
        let at: usize = self.representations.len();
        if at < self.draft.snapshot.representations.len() {
            let inline: bool = matches!(
                self.draft.snapshot.representations[at].source,
                ClipboardPayloadSource::Inline(_)
            );
            if inline {
                return match normalized {
                    Ok(stored) => self.stored(stored),
                    Err(cause) => failure(CaptureError::Normalize(cause)),
                };
            }
        }
        CaptureRun::Normalize { work: self }
    }
}

} // verus!

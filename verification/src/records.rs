//! What a capture writes, and what it is given to write it with.

use crate::clipboard::{
    DeviceId, EntryId, EventId, FormatId, MimeType, PayloadType, RepresentationId, SnapshotHash,
    CaptureOrigin,
};
use crate::file_set::{BlobId, EntryFileSet};
use vstd::prelude::*;

verus! {

/// A value that only the host reads, by the handle under which the host keeps
/// it.
#[derive(Clone, Copy, Debug, PartialEq, Eq, Structural)]
pub struct HostRef(pub u64);

/// A port of the host, by the handle under which the host keeps it.
#[derive(Clone, Copy, Debug, PartialEq, Eq, Structural)]
pub struct PortRef(pub u64);

/// How a captured snapshot is committed to storage.
#[derive(Clone, Copy, Debug, PartialEq, Eq, Structural)]
pub enum CommitMode {
    /// As a new entry.
    Create,
    /// In place of the content of an entry that exists, which keeps its
    /// identity.
    Replace,
}

/// What became of a capture.
#[derive(Debug, PartialEq, Eq)]
pub struct CaptureOutcome {
    pub entry_id: EntryId,
    /// The content was there already, and its entry was brought to the top of
    /// the history. Such an entry is to be shown again, not indexed or sent
    /// again.
    pub deduplicated: bool,
    /// The identity of the content, the same on every device, under which
    /// the entry is stored.
    pub snapshot_hash: String,
}

/// The moment at which something came onto the clipboard.
#[derive(Debug, PartialEq, Eq)]
pub struct ClipboardEvent {
    pub event_id: EventId,
    pub captured_at_ms: i64,
    pub source_device: DeviceId,
    pub snapshot_hash: SnapshotHash,
}

/// An entry of the history.
#[derive(Debug, PartialEq, Eq)]
pub struct ClipboardEntry {
    pub entry_id: EntryId,
    pub event_id: EventId,
    pub created_at_ms: i64,
    pub total_size: i64,
    pub content_category: HostRef,
}

/// Which representations of an entry are used for what.
#[derive(Debug, PartialEq, Eq)]
pub struct ClipboardSelectionDecision {
    pub entry_id: EntryId,
    pub selection: HostRef,
}

/// Where the payload of a stored representation is.
#[derive(Clone, Copy, Debug, PartialEq, Eq, Structural)]
pub enum PayloadAvailability {
    /// In the record itself.
    Inline,
    /// In the blob store.
    BlobReady,
    /// In the spool, until it is moved to the blob store.
    Staged,
    /// Anywhere else, or nowhere.
    Other,
}

/// A representation as it is stored.
#[derive(Debug, PartialEq, Eq)]
pub struct PersistedClipboardRepresentation {
    pub id: RepresentationId,
    pub format_id: FormatId,
    pub mime: Option<MimeType>,
    pub size_bytes: i64,
    pub inline_data: Option<Vec<u8>>,
    pub blob_id: Option<BlobId>,
    pub payload_state: PayloadAvailability,
}

/// The bytes of a representation for the spool.
#[derive(Debug, PartialEq, Eq)]
pub struct SpoolRequest {
    pub rep_id: RepresentationId,
    pub bytes: Vec<u8>,
}

/// A spool request, as contracts speak of it.
#[verifier::ext_equal]
pub struct PayloadView {
    pub rep_id: RepresentationId,
    pub bytes: Seq<u8>,
}

impl View for SpoolRequest {
    type V = PayloadView;

    open spec fn view(&self) -> PayloadView {
        PayloadView { rep_id: self.rep_id, bytes: self.bytes@ }
    }
}

/// What a completed receipt left behind.
#[derive(Clone, Copy, Debug, PartialEq, Eq, Structural)]
pub enum CompletedReceiveArtifacts {
    /// A directory that was published as a whole.
    DirectoryPublished,
    /// Anything else.
    Host(HostRef),
}

/// What a receipt that was cut short ended with.
#[derive(Clone, Copy, Debug, PartialEq, Eq, Structural)]
pub struct PartialReceiveTerminal(pub HostRef);

/// What a receipt that was cut short left behind.
#[derive(Clone, Copy, Debug, PartialEq, Eq, Structural)]
pub struct PartialReceiveArtifacts(pub HostRef);

/// A directory that was received, and is to be committed.
pub struct DirectoryCaptureCommitContext {
    pub attempt_id: String,
    pub file_set: EntryFileSet,
}

/// Something that was received, and is to be committed together with the
/// state of its receipt.
#[allow(inconsistent_fields)]
pub enum InboundCaptureCommitContext {
    Complete {
        attempt_id: String,
        file_set: Option<EntryFileSet>,
        artifacts: CompletedReceiveArtifacts,
    },
    Partial {
        attempt_id: String,
        terminal: PartialReceiveTerminal,
        file_set: Option<EntryFileSet>,
        artifacts: PartialReceiveArtifacts,
    },
}

/// The clipboard side of a receipt that is committed.
pub enum InboundReceiveRecord {
    Create {
        entry: ClipboardEntry,
        event: ClipboardEvent,
        representations: Vec<PersistedClipboardRepresentation>,
        selection: ClipboardSelectionDecision,
    },
    Replace {
        entry_id: EntryId,
        new_event: ClipboardEvent,
        new_representations: Vec<PersistedClipboardRepresentation>,
        new_selection: ClipboardSelectionDecision,
        new_total_size: i64,
        new_content_category: HostRef,
    },
}

/// An inbound record, as contracts speak of it.
#[verifier::ext_equal]
pub enum RecordView {
    Create {
        entry: ClipboardEntry,
        event: ClipboardEvent,
        representations: Seq<PersistedClipboardRepresentation>,
        selection: ClipboardSelectionDecision,
    },
    Replace {
        entry_id: EntryId,
        new_event: ClipboardEvent,
        new_representations: Seq<PersistedClipboardRepresentation>,
        new_selection: ClipboardSelectionDecision,
        new_total_size: i64,
        new_content_category: HostRef,
    },
}

impl View for InboundReceiveRecord {
    type V = RecordView;

    open spec fn view(&self) -> RecordView {
        match *self {
            InboundReceiveRecord::Create { entry, event, representations, selection } =>
                RecordView::Create { entry, event, representations: representations@, selection },
            InboundReceiveRecord::Replace {
                entry_id,
                new_event,
                new_representations,
                new_selection,
                new_total_size,
                new_content_category,
            } => RecordView::Replace {
                entry_id,
                new_event,
                new_representations: new_representations@,
                new_selection,
                new_total_size,
                new_content_category,
            },
        }
    }
}

/// A receipt that is committed: entry, manifest and the state of the receipt
/// in one.
#[allow(inconsistent_fields)]
pub enum InboundReceiveSettlement {
    Complete {
        record: InboundReceiveRecord,
        attempt_id: String,
        file_set: Option<EntryFileSet>,
        artifacts: CompletedReceiveArtifacts,
        now_ms: i64,
    },
    Partial {
        record: InboundReceiveRecord,
        attempt_id: String,
        terminal: PartialReceiveTerminal,
        file_set: Option<EntryFileSet>,
        artifacts: PartialReceiveArtifacts,
        now_ms: i64,
    },
}

/// A settlement, as contracts speak of it.
#[allow(inconsistent_fields)]
#[verifier::ext_equal]
pub enum SettlementView {
    Complete {
        record: RecordView,
        attempt_id: String,
        file_set: Option<EntryFileSet>,
        artifacts: CompletedReceiveArtifacts,
        now_ms: i64,
    },
    Partial {
        record: RecordView,
        attempt_id: String,
        terminal: PartialReceiveTerminal,
        file_set: Option<EntryFileSet>,
        artifacts: PartialReceiveArtifacts,
        now_ms: i64,
    },
}

impl View for InboundReceiveSettlement {
    type V = SettlementView;

    open spec fn view(&self) -> SettlementView {
        match *self {
            InboundReceiveSettlement::Complete {
                record,
                attempt_id,
                file_set,
                artifacts,
                now_ms,
            } => SettlementView::Complete {
                record: record@,
                attempt_id,
                file_set,
                artifacts,
                now_ms,
            },
            InboundReceiveSettlement::Partial {
                record,
                attempt_id,
                terminal,
                file_set,
                artifacts,
                now_ms,
            } => SettlementView::Partial {
                record: record@,
                attempt_id,
                terminal,
                file_set,
                artifacts,
                now_ms,
            },
        }
    }
}

/// The settlement of a receipt.
pub open spec fn settled(
    record: RecordView,
    context: InboundCaptureCommitContext,
    now_ms: i64,
) -> SettlementView {
    match context {
        InboundCaptureCommitContext::Complete { attempt_id, file_set, artifacts } =>
            SettlementView::Complete { record, attempt_id, file_set, artifacts, now_ms },
        InboundCaptureCommitContext::Partial { attempt_id, terminal, file_set, artifacts } =>
            SettlementView::Partial { record, attempt_id, terminal, file_set, artifacts, now_ms },
    }
}

/// The settlement of a receipt.
pub fn settlement(
    record: InboundReceiveRecord,
    context: InboundCaptureCommitContext,
    now_ms: i64,
) -> (r: InboundReceiveSettlement)
    ensures
        r@ == settled(record@, context, now_ms),
{
    match context {
        InboundCaptureCommitContext::Complete { attempt_id, file_set, artifacts } =>
            InboundReceiveSettlement::Complete { record, attempt_id, file_set, artifacts, now_ms },
        InboundCaptureCommitContext::Partial { attempt_id, terminal, file_set, artifacts } =>
            InboundReceiveSettlement::Partial {
            record,
            attempt_id,
            terminal,
            file_set,
            artifacts,
            now_ms,
        },
    }
}

/// What a captured entry is reported as.
#[derive(Clone, Copy, Debug, PartialEq, Eq, Structural)]
pub struct CaptureReport {
    pub origin: CaptureOrigin,
    pub payload_type: PayloadType,
    /// The size, to be reported by its order of magnitude.
    pub size_bytes: u64,
}

/// A rule by which entries leave the history.
#[derive(Clone, Copy, Debug, PartialEq, Eq, Structural)]
pub enum RetentionRule {
    /// Entries older than this leave.
    ByAge { max_age_nanos: u128 },
    /// Anything else.
    Other,
}

/// The settings that a capture reads.
pub struct CaptureSettings {
    pub max_file_set_total_bytes: u64,
    pub max_file_set_member_count: u64,
    pub retention_enabled: bool,
    pub retention_rules: Vec<RetentionRule>,
}

impl CaptureSettings {
    /// No entry is kept once another one comes: retention is on, and a rule
    /// lets entries go at once.
    pub open spec fn keeps_no_history(self) -> bool {
        self.retention_enabled && exists|i: int|
            0 <= i < self.retention_rules@.len() && #[trigger] self.retention_rules@[i]
                == RetentionRule::ByAge { max_age_nanos: 0 }
    }

    /// Whether no entry is kept once another one comes.
    pub fn no_history(&self) -> (r: bool)
        ensures
            r == self.keeps_no_history(),
    {
        if !self.retention_enabled {
            return false;
        }
        for i in 0..self.retention_rules.len()
            invariant
                self.retention_enabled,
                forall|j: int|
                    0 <= j < i ==> #[trigger] self.retention_rules@[j] != (RetentionRule::ByAge {
                        max_age_nanos: 0,
                    }),
        {
            if let RetentionRule::ByAge { max_age_nanos } = self.retention_rules[i] {
                if max_age_nanos == 0 {
                    assert(self.retention_rules@[i as int] == (RetentionRule::ByAge {
                        max_age_nanos: 0,
                    }));
                    return true;
                }
            }
        }
        false
    }
}

/// Why a capture failed. Each holds what the host said of it.
#[derive(Debug, PartialEq, Eq)]
pub enum CaptureError {
    /// A copied file could not be taken into the blob store.
    Ingest(String),
    /// A representation could not be brought into the form to be stored.
    Normalize(String),
    /// The event could not be stored.
    InsertEvent(String),
    /// No representation could be selected.
    Select(String),
    /// A representation could not be written to the spool.
    Spool { rep_id: RepresentationId, cause: String },
    /// The clock could not be read.
    Clock(String),
    /// There is nothing to commit a receipt with.
    CommitNotWired,
    /// The entry could not be stored.
    Persist(String),
    /// A local capture ended without an entry.
    NothingPersisted,
}

impl CaptureError {
    /// The error in words.
    pub open spec fn words(self) -> Seq<char> {
        match self {
            CaptureError::Ingest(cause) => "LocalFile rep ingest into blob store failed: "@
                + cause@,
            CaptureError::Normalize(cause) => cause@,
            CaptureError::InsertEvent(cause) => cause@,
            CaptureError::Select(cause) => cause@,
            CaptureError::Spool { rep_id, cause } => "Failed to durably spool representation "@
                + rep_id.0@ + " during capture: "@ + cause@,
            CaptureError::Clock(cause) => "Failed to get system time: "@ + cause@,
            CaptureError::CommitNotWired => "inbound receive commit port is not wired"@,
            CaptureError::Persist(cause) => cause@,
            CaptureError::NothingPersisted => "local capture should always persist an entry"@,
        }
    }

    /// The error in words.
    pub fn message(&self) -> (r: String)
        ensures
            r@ == self.words(),
    {
        match self {
            CaptureError::Ingest(cause) => {
                "LocalFile rep ingest into blob store failed: ".to_string().concat(cause.as_str())
            },
            CaptureError::Normalize(cause) => cause.clone(),
            CaptureError::InsertEvent(cause) => cause.clone(),
            CaptureError::Select(cause) => cause.clone(),
            CaptureError::Spool { rep_id, cause } => {
                "Failed to durably spool representation ".to_string().concat(
                    rep_id.0.as_str(),
                ).concat(" during capture: ").concat(cause.as_str())
            },
            CaptureError::Clock(cause) => {
                "Failed to get system time: ".to_string().concat(cause.as_str())
            },
            CaptureError::CommitNotWired => "inbound receive commit port is not wired".to_string(),
            CaptureError::Persist(cause) => cause.clone(),
            CaptureError::NothingPersisted => {
                "local capture should always persist an entry".to_string()
            },
        }
    }
}

} // verus!

//! The parts that the application is put together from.

use crate::capture::CaptureClipboardUseCase;
use crate::deps::{EntryPorts, PathRef, RepresentationPorts, SpaceAccessPorts};
use crate::integration::ClipboardIntegrationMode;
use crate::records::PortRef;
use std::sync::Arc;
use vstd::prelude::*;

verus! {

/// Another handle on a shared value.
///
/// Calls `Arc::clone`, which documents that it makes another pointer to the
/// same allocation: both handles hold the same value.
#[verifier::external_body]
pub(crate) fn share<T>(shared: &Arc<T>) -> (r: Arc<T>)
    ensures
        r == *shared,
{
    Arc::clone(shared)
}

/// What applies a delivery to the system clipboard.
#[derive(Clone, Copy, Debug, PartialEq, Eq, Structural)]
pub enum InboundWrite {
    /// The coordinator of clipboard writes.
    Coordinator(PortRef),
    /// Nothing: the process has no system clipboard, and a write succeeds
    /// without effect.
    Noop,
}

impl InboundWrite {
    /// The port that a write goes to. Where there is none, the write has
    /// succeeded as it is.
    pub fn write(&self) -> (r: Option<PortRef>)
        ensures
            r == (match *self {
                InboundWrite::Coordinator(port) => Some(port),
                InboundWrite::Noop => None,
            }),
    {
        match *self {
            InboundWrite::Coordinator(port) => Some(port),
            InboundWrite::Noop => None,
        }
    }
}

/// The ports of receipts under way.
#[derive(Clone, Copy, Debug, PartialEq, Eq, Structural)]
pub struct ReceiveAttemptPorts {
    pub get_attempt: PortRef,
    pub begin_receive: PortRef,
    pub claim_commit: PortRef,
    pub request_cancel: PortRef,
    pub begin_failure: PortRef,
    pub commit_inbound: PortRef,
    pub clock: PortRef,
}

/// The register of the active entry, and what decides whether mobile devices
/// can use it.
#[derive(Clone, Copy, Debug, PartialEq, Eq, Structural)]
pub struct ActiveRegisterPorts {
    pub active_register: PortRef,
    pub mobile_consumability: PortRef,
}

/// What a snapshot is made of again.
#[derive(Clone, Copy, Debug, PartialEq, Eq, Structural)]
pub struct ClipboardSnapshotDeps {
    pub entry_repo: PortRef,
    pub selection_repo: PortRef,
    pub representation_repo: PortRef,
    pub rep_processing_repo: PortRef,
    pub payload_resolver: PortRef,
    pub blob_store: PortRef,
}

/// What brings an entry back to the clipboard.
#[derive(Clone, Copy, Debug, PartialEq, Eq, Structural)]
pub struct ResurfaceDeps {
    pub snapshot: ClipboardSnapshotDeps,
    pub touch: PortRef,
}

/// What puts received blobs into files. Files go where the settings say.
#[derive(Clone, Copy, Debug, PartialEq, Eq, Structural)]
pub struct FileCacheBlobMaterializer {
    pub blob_transfer: PortRef,
    pub file_cache_dir: PathRef,
    pub get_attempt: PortRef,
    pub claim_commit: PortRef,
    pub record_publish: PortRef,
    pub clock: PortRef,
    pub record_artifacts: PortRef,
    pub target_settings: PortRef,
}

/// What makes new entries searchable.
#[derive(Clone, Copy, Debug, PartialEq, Eq, Structural)]
pub struct ClipboardLiveIndexer {
    pub clipboard_entry_repo: PortRef,
    pub representation_policy: PortRef,
    pub search_key_derivation: PortRef,
    pub search_pipeline: PortRef,
    pub search_index: PortRef,
    pub event_repo: PortRef,
    pub entry_file_set_repo: PortRef,
}

/// What takes a delivery from another device.
pub struct ApplyInboundClipboardUseCase {
    pub find_entry_by_snapshot_hash: PortRef,
    pub capture: Arc<CaptureClipboardUseCase>,
    pub write: InboundWrite,
    pub receive_attempts: ReceiveAttemptPorts,
    /// Files of receipts that failed are removed.
    pub cleans_receive_artifacts: bool,
    pub active_register: ActiveRegisterPorts,
    pub check_entry_availability: PortRef,
    pub coordinator: PortRef,
    pub blob_materializer: Option<Arc<FileCacheBlobMaterializer>>,
    pub provisional_receive: Option<PortRef>,
    pub receive_readiness: Option<PortRef>,
    pub host_event_emitter: Option<PortRef>,
    pub search_live_index: Option<Arc<ClipboardLiveIndexer>>,
    pub resurface: Option<ResurfaceDeps>,
}

/// What captures the clipboard at once.
pub struct ClipboardCaptureFacade {
    pub capture: Arc<CaptureClipboardUseCase>,
    pub clipboard: PortRef,
    pub entry_file_set_repository: Option<PortRef>,
}

/// What sends captures to other devices.
#[derive(Clone, Copy, Debug, PartialEq, Eq, Structural)]
pub struct ClipboardOutboundFacade {
    pub settings: PortRef,
    pub clipboard_sync: PortRef,
    pub blob_transfer: PortRef,
    pub event_repo: PortRef,
    pub snapshot: ClipboardSnapshotDeps,
    pub entry_delivery_repo: PortRef,
    pub trusted_peer_repo: PortRef,
    pub device_identity: PortRef,
    pub entry_file_set_repo: PortRef,
}

/// What mobile devices read of the clipboard.
#[derive(Clone, Copy, Debug, PartialEq, Eq, Structural)]
pub struct MobileSyncSnapshotPorts {
    pub mobile_consumable_load: PortRef,
    pub entry_repo: PortRef,
    pub selection_repo: PortRef,
    pub representation_repo: PortRef,
    pub payload_resolver: PortRef,
    pub blob_reader: PortRef,
}

/// Where files of mobile devices are staged.
#[derive(Clone, Copy, Debug, PartialEq, Eq, Structural)]
pub struct MobileFileStaging {
    pub file_cache_dir: PathRef,
    pub target_settings: PortRef,
}

/// The synchronization with mobile devices. Credentials, password hashes, the
/// probe of network interfaces and the buffer of what comes in are its own.
pub struct MobileSyncFacade {
    pub clock: PortRef,
    pub devices: PortRef,
    pub endpoint_info: PortRef,
    pub settings: PortRef,
    pub apply_inbound: Arc<ApplyInboundClipboardUseCase>,
    pub file_staging: MobileFileStaging,
    pub snapshot_ports: MobileSyncSnapshotPorts,
    pub file_transfer: Option<PortRef>,
    pub clipboard_outbound: Option<Arc<ClipboardOutboundFacade>>,
    pub lan_lifecycle: Option<PortRef>,
    pub analytics: PortRef,
    pub active_clipboard: Option<PortRef>,
    pub find_entry_by_snapshot_hash: PortRef,
    pub check_entry_availability: PortRef,
}

/// What puts entries back onto the clipboard.
#[derive(Clone, Copy, Debug, PartialEq, Eq, Structural)]
pub struct ClipboardRestoreFacade {
    pub selection_repo: PortRef,
    pub entry_ports: EntryPorts,
    pub representation_ports: RepresentationPorts,
    pub payload_resolver: PortRef,
    pub blob_store: PortRef,
    pub clock: PortRef,
    pub device_identity: PortRef,
    pub active_register: PortRef,
    pub mobile_consumability: PortRef,
    pub restore_broadcast: Option<PortRef>,
    pub write_coordinator: PortRef,
    pub integration_mode: ClipboardIntegrationMode,
}

/// Where the status of the life cycle is kept.
#[derive(Clone, Copy, Debug, PartialEq, Eq, Structural)]
pub enum LifecycleStatus {
    InMemory,
    Gateway(PortRef),
}

/// The life cycle of the application.
#[derive(Clone, Copy, Debug, PartialEq, Eq, Structural)]
pub struct LifecycleFacade {
    pub status: LifecycleStatus,
}

/// The encrypted space.
#[derive(Clone, Copy, Debug, PartialEq, Eq, Structural)]
pub struct EncryptionFacade {
    pub setup_status: PortRef,
    pub space_access: SpaceAccessPorts,
    pub mobile_consumable_backfill: PortRef,
}

/// Payloads by their blob or their event.
#[derive(Clone, Copy, Debug, PartialEq, Eq, Structural)]
pub struct ResourceFacade {
    pub representation_by_blob_id: PortRef,
    pub representations_for_event: PortRef,
    pub thumbnail_repo: PortRef,
    pub blob_store: PortRef,
    pub entry_repo: PortRef,
}

/// The history of the clipboard.
#[derive(Clone, Copy, Debug, PartialEq, Eq, Structural)]
pub struct ClipboardHistoryFacade {
    pub entry_ports: EntryPorts,
    pub selection_repo: PortRef,
    pub representation_ports: RepresentationPorts,
    pub event_writer: PortRef,
    pub payload_resolver: PortRef,
    pub blob_store: PortRef,
    pub thumbnail_repo: PortRef,
    pub file_transfer_repo: PortRef,
    pub entry_file_set_repo: PortRef,
    pub search_index: Option<PortRef>,
    pub file_cache_dir: Option<PathRef>,
    pub blob_transfer: Option<PortRef>,
    pub settings: PortRef,
    pub device_identity: PortRef,
    pub clock: PortRef,
    pub cache_fs: PortRef,
}

/// What keeps the search index up to date.
#[derive(Clone, Copy, Debug, PartialEq, Eq, Structural)]
pub struct SearchCoordinator {
    pub search_index: PortRef,
    pub search_maintenance: PortRef,
    pub search_key_derivation: PortRef,
    pub search_pipeline: PortRef,
    pub entry_list: PortRef,
    pub entry_repo: PortRef,
    pub representations_for_event: PortRef,
    pub selection_repo: PortRef,
    pub event_repo: PortRef,
    pub entry_file_set_repo: PortRef,
}

/// The search.
pub struct SearchFacade {
    pub search_index: PortRef,
    pub coordinator: Option<Arc<SearchCoordinator>>,
}

/// The settings. Without a probe, relays cannot be tried out.
#[derive(Clone, Copy, Debug, PartialEq, Eq, Structural)]
pub struct SettingsFacade {
    pub settings: PortRef,
    pub relay_diagnostic: Option<PortRef>,
}

/// Diagnostics.
pub struct DiagnosticsFacade {
    pub settings: PortRef,
    pub logs_dir: PathRef,
    pub app_version: String,
}

/// The device.
#[derive(Clone, Copy, Debug, PartialEq, Eq, Structural)]
pub struct DeviceFacade {
    pub device_identity: PortRef,
    pub settings: PortRef,
}

/// The storage.
#[derive(Clone, Copy, Debug, PartialEq, Eq, Structural)]
pub struct StorageFacade {
    pub db_path: PathRef,
    pub vault_dir: PathRef,
    pub cache_dir: PathRef,
    pub logs_dir: PathRef,
    pub app_data_root_dir: PathRef,
    pub cache_fs: PortRef,
}

/// Upgrades of the application.
#[derive(Clone, Copy, Debug, PartialEq, Eq, Structural)]
pub struct UpgradeFacade {
    pub app_version_state: PortRef,
    pub setup_status: PortRef,
}

/// The application: the one way into everything that it does.
pub struct AppFacade {
    pub space_setup: Option<PortRef>,
    pub member_roster: Option<PortRef>,
    pub lifecycle: Arc<LifecycleFacade>,
    pub encryption: Arc<EncryptionFacade>,
    pub resource: Arc<ResourceFacade>,
    pub clipboard_history: Arc<ClipboardHistoryFacade>,
    pub clipboard_capture: Arc<ClipboardCaptureFacade>,
    pub clipboard_sync: Option<PortRef>,
    pub blob_transfer: Option<PortRef>,
    pub clipboard_outbound: Option<Arc<ClipboardOutboundFacade>>,
    pub file_transfer: Option<PortRef>,
    pub clipboard_restore: Option<Arc<ClipboardRestoreFacade>>,
    pub search: Arc<SearchFacade>,
    pub settings: Arc<SettingsFacade>,
    pub diagnostics: Arc<DiagnosticsFacade>,
    pub device: Arc<DeviceFacade>,
    pub storage: Arc<StorageFacade>,
    pub config_migration: PortRef,
    pub upgrade: Arc<UpgradeFacade>,
    pub mobile_sync: Option<Arc<MobileSyncFacade>>,
}

} // verus!

//! The ports that the host brings, and the paths that it stores under.

use crate::capture::CaptureClipboardUseCase;
use crate::records::PortRef;
use vstd::prelude::*;

verus! {

/// A path of the host, by the handle under which the host keeps it.
#[derive(Clone, Copy, Debug, PartialEq, Eq, Structural)]
pub struct PathRef(pub u64);

/// What can be done with entries.
#[derive(Clone, Copy, Debug, PartialEq, Eq, Structural)]
pub struct EntryPorts {
    pub save: PortRef,
    pub touch: PortRef,
    pub find_by_snapshot_hash: PortRef,
    pub replace_content: PortRef,
    pub list: PortRef,
    pub get: PortRef,
    pub availability: PortRef,
}

/// What can be done with stored representations.
#[derive(Clone, Copy, Debug, PartialEq, Eq, Structural)]
pub struct RepresentationPorts {
    pub get: PortRef,
    pub update_processing_result: PortRef,
    pub get_by_blob_id: PortRef,
    pub list_for_event: PortRef,
}

/// The ports that have to do with the clipboard.
#[derive(Clone, Copy, Debug, PartialEq, Eq, Structural)]
pub struct ClipboardDeps {
    pub clipboard: PortRef,
    pub system_clipboard: PortRef,
    pub clipboard_change_origin: PortRef,
    pub entry_ports: EntryPorts,
    pub representation_ports: RepresentationPorts,
    pub clipboard_event_repo: PortRef,
    pub clipboard_event_reader_repo: PortRef,
    pub selection_repo: PortRef,
    pub representation_policy: PortRef,
    pub representation_normalizer: PortRef,
    pub representation_cache: PortRef,
    pub spool_queue: PortRef,
    pub payload_resolver: PortRef,
    pub entry_identity_coordinator: PortRef,
    pub active_register: PortRef,
    pub mobile_consumability: PortRef,
    pub mobile_consumable_load: PortRef,
    pub mobile_consumable_backfill: PortRef,
}

/// The ports of receipts.
#[derive(Clone, Copy, Debug, PartialEq, Eq, Structural)]
pub struct DirectoryReceivePorts {
    pub get_attempt: PortRef,
    pub begin_receive: PortRef,
    pub claim_commit: PortRef,
    pub request_cancel: PortRef,
    pub begin_failure: PortRef,
    pub commit_inbound: PortRef,
    pub record_publish: PortRef,
    pub record_artifacts: PortRef,
}

/// The ports of file transfers.
#[derive(Clone, Copy, Debug, PartialEq, Eq, Structural)]
pub struct FileTransferPorts {
    pub finalize_provisional: PortRef,
    pub entry_summary: PortRef,
}

/// The ports of the storage.
#[derive(Clone, Copy, Debug, PartialEq, Eq, Structural)]
pub struct StorageDeps {
    pub blob_content_ingest: PortRef,
    pub blob_store: PortRef,
    pub entry_file_set_repo: PortRef,
    pub thumbnail_repo: PortRef,
    pub directory_receive: DirectoryReceivePorts,
    pub file_transfer: FileTransferPorts,
}

/// The ports of the device.
#[derive(Clone, Copy, Debug, PartialEq, Eq, Structural)]
pub struct DeviceDeps {
    pub device_identity: PortRef,
}

/// The ports of the operating system.
#[derive(Clone, Copy, Debug, PartialEq, Eq, Structural)]
pub struct SystemDeps {
    pub clock: PortRef,
    pub cache_fs: PortRef,
}

/// The ports of the synchronization with mobile devices.
#[derive(Clone, Copy, Debug, PartialEq, Eq, Structural)]
pub struct MobileSyncDeps {
    pub devices: PortRef,
    pub endpoint_info: PortRef,
}

/// The ports of the encrypted space.
#[derive(Clone, Copy, Debug, PartialEq, Eq, Structural)]
pub struct SpaceAccessPorts {
    pub initialize: PortRef,
    pub resume_session: PortRef,
    pub is_unlocked: PortRef,
    pub lock: PortRef,
    pub verify_keychain_access: PortRef,
}

/// The ports of the security.
#[derive(Clone, Copy, Debug, PartialEq, Eq, Structural)]
pub struct SecurityDeps {
    pub space_access_ports: SpaceAccessPorts,
}

/// The ports of the search.
#[derive(Clone, Copy, Debug, PartialEq, Eq, Structural)]
pub struct SearchDeps {
    pub search_index: PortRef,
    pub search_maintenance: PortRef,
    pub search_key_derivation: PortRef,
    pub search_pipeline: PortRef,
}

/// Every port that the application is put together from.
#[derive(Clone, Copy, Debug, PartialEq, Eq, Structural)]
pub struct AppDeps {
    pub clipboard: ClipboardDeps,
    pub storage: StorageDeps,
    pub device: DeviceDeps,
    pub system: SystemDeps,
    pub mobile_sync: MobileSyncDeps,
    pub security: SecurityDeps,
    pub search: SearchDeps,
    pub settings: PortRef,
    pub analytics: PortRef,
    pub setup_status: PortRef,
    pub config_migration: PortRef,
    pub app_version_state: PortRef,
}

/// Where the application stores what it stores.
#[derive(Clone, Copy, Debug, PartialEq, Eq, Structural)]
pub struct AppPaths {
    pub db_path: PathRef,
    pub vault_dir: PathRef,
    pub cache_dir: PathRef,
    pub file_cache_dir: PathRef,
    pub logs_dir: PathRef,
    pub app_data_root_dir: PathRef,
}

impl AppDeps {
    /// A capture use case on these ports, without locks, without receipts and
    /// with a history.
    pub open spec fn plain_capture(self) -> CaptureClipboardUseCase {
        CaptureClipboardUseCase {
            save_entry: self.clipboard.entry_ports.save,
            touch_entry: self.clipboard.entry_ports.touch,
            find_entry_by_snapshot_hash: self.clipboard.entry_ports.find_by_snapshot_hash,
            event_writer: self.clipboard.clipboard_event_repo,
            representation_policy: self.clipboard.representation_policy,
            representation_normalizer: self.clipboard.representation_normalizer,
            device_identity: self.device.device_identity,
            representation_cache: self.clipboard.representation_cache,
            spool_queue: self.clipboard.spool_queue,
            blob_ingest: self.storage.blob_content_ingest,
            entry_file_set_repo: self.storage.entry_file_set_repo,
            settings: self.settings,
            replace_entry: self.clipboard.entry_ports.replace_content,
            inbound_receive_commit: None,
            coordinator: None,
            list_entries: None,
            analytics: self.analytics,
        }
    }

    /// A capture use case on these ports that commits no receipts and keeps
    /// to the history. Every use case on the same ports takes its locks from
    /// the same place.
    pub open spec fn locking_capture(self) -> CaptureClipboardUseCase {
        CaptureClipboardUseCase {
            coordinator: Some(self.clipboard.entry_identity_coordinator),
            ..self.plain_capture()
        }
    }

    /// A capture use case on these ports that takes its locks, commits no
    /// receipts and keeps to the history.
    pub(crate) fn capture_use_case(&self) -> (r: CaptureClipboardUseCase)
        ensures
            r == self.locking_capture(),
    {
        CaptureClipboardUseCase::new(
            self.clipboard.entry_ports.save,
            self.clipboard.entry_ports.touch,
            self.clipboard.entry_ports.find_by_snapshot_hash,
            self.clipboard.clipboard_event_repo,
            self.clipboard.representation_policy,
            self.clipboard.representation_normalizer,
            self.device.device_identity,
            self.clipboard.representation_cache,
            self.clipboard.spool_queue,
            self.storage.blob_content_ingest,
            self.storage.entry_file_set_repo,
            self.settings,
            self.clipboard.entry_ports.replace_content,
            self.analytics,
        ).with_entry_identity_coordinator(self.clipboard.entry_identity_coordinator)
    }
}

} // verus!

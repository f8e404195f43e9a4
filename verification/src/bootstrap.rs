//! How the application is put together, for the processes without a window.

use crate::capture::CaptureClipboardUseCase;
use crate::deps::{AppDeps, AppPaths};
use crate::facades::{
    ActiveRegisterPorts, AppFacade, ApplyInboundClipboardUseCase, ClipboardCaptureFacade,
    ClipboardHistoryFacade, ClipboardOutboundFacade, ClipboardRestoreFacade,
    ClipboardSnapshotDeps, DeviceFacade, DiagnosticsFacade, EncryptionFacade, InboundWrite,
    LifecycleFacade, LifecycleStatus, MobileFileStaging, MobileSyncFacade,
    MobileSyncSnapshotPorts, ReceiveAttemptPorts, ResourceFacade, SearchCoordinator, SearchFacade,
    SettingsFacade, StorageFacade, UpgradeFacade,
};
use crate::integration::ClipboardIntegrationMode;
use crate::records::PortRef;
use std::sync::Arc;
use vstd::prelude::*;

verus! {

/// What restoring entries needs beyond the ports.
#[derive(Clone, Copy, Debug, PartialEq, Eq, Structural)]
pub struct ClipboardRestoreAssembly {
    pub write_coordinator: PortRef,
    pub integration_mode: ClipboardIntegrationMode,
    /// Tells other devices of a restored entry, where the process can.
    pub restore_broadcast: Option<PortRef>,
}

/// In what processes differ. What is common to all of them comes from the
/// ports.
pub struct AppFacadeAssemblyOptions {
    pub space_setup: Option<PortRef>,
    pub member_roster: Option<PortRef>,
    pub clipboard_sync: Option<PortRef>,
    pub blob_transfer: Option<PortRef>,
    pub clipboard_outbound: Option<Arc<ClipboardOutboundFacade>>,
    pub file_transfer: Option<PortRef>,
    /// Releases the blobs of entries that leave the history.
    pub blob_transfer_port: Option<PortRef>,
    pub clipboard_restore: Option<ClipboardRestoreAssembly>,
    pub search_coordinator: Option<Arc<SearchCoordinator>>,
    /// What takes deliveries of mobile devices. Without it the application
    /// has no synchronization with them.
    pub mobile_sync_apply_inbound: Option<Arc<ApplyInboundClipboardUseCase>>,
}

impl Default for AppFacadeAssemblyOptions {
    fn default() -> (r: Self)
        ensures
            r.space_setup is None,
            r.member_roster is None,
            r.clipboard_sync is None,
            r.blob_transfer is None,
            r.clipboard_outbound is None,
            r.file_transfer is None,
            r.blob_transfer_port is None,
            r.clipboard_restore is None,
            r.search_coordinator is None,
            r.mobile_sync_apply_inbound is None,
    {
        AppFacadeAssemblyOptions {
            space_setup: None,
            member_roster: None,
            clipboard_sync: None,
            blob_transfer: None,
            clipboard_outbound: None,
            file_transfer: None,
            blob_transfer_port: None,
            clipboard_restore: None,
            search_coordinator: None,
            mobile_sync_apply_inbound: None,
        }
    }
}

impl AppDeps {
    /// The ports of receipts under way.
    pub open spec fn attempt_ports(self) -> ReceiveAttemptPorts {
        ReceiveAttemptPorts {
            get_attempt: self.storage.directory_receive.get_attempt,
            begin_receive: self.storage.directory_receive.begin_receive,
            claim_commit: self.storage.directory_receive.claim_commit,
            request_cancel: self.storage.directory_receive.request_cancel,
            begin_failure: self.storage.directory_receive.begin_failure,
            commit_inbound: self.storage.directory_receive.commit_inbound,
            clock: self.system.clock,
        }
    }

    /// The ports of receipts under way.
    pub(crate) fn receive_attempt_ports(&self) -> (r: ReceiveAttemptPorts)
        ensures
            r == self.attempt_ports(),
    {
        ReceiveAttemptPorts {
            get_attempt: self.storage.directory_receive.get_attempt,
            begin_receive: self.storage.directory_receive.begin_receive,
            claim_commit: self.storage.directory_receive.claim_commit,
            request_cancel: self.storage.directory_receive.request_cancel,
            begin_failure: self.storage.directory_receive.begin_failure,
            commit_inbound: self.storage.directory_receive.commit_inbound,
            clock: self.system.clock,
        }
    }

    /// What a snapshot is made of again.
    pub open spec fn snapshot_parts(self) -> ClipboardSnapshotDeps {
        ClipboardSnapshotDeps {
            entry_repo: self.clipboard.entry_ports.get,
            selection_repo: self.clipboard.selection_repo,
            representation_repo: self.clipboard.representation_ports.get,
            rep_processing_repo: self.clipboard.representation_ports.update_processing_result,
            payload_resolver: self.clipboard.payload_resolver,
            blob_store: self.storage.blob_store,
        }
    }

    /// What a snapshot is made of again.
    pub(crate) fn snapshot_deps(&self) -> (r: ClipboardSnapshotDeps)
        ensures
            r == self.snapshot_parts(),
    {
        ClipboardSnapshotDeps {
            entry_repo: self.clipboard.entry_ports.get,
            selection_repo: self.clipboard.selection_repo,
            representation_repo: self.clipboard.representation_ports.get,
            rep_processing_repo: self.clipboard.representation_ports.update_processing_result,
            payload_resolver: self.clipboard.payload_resolver,
            blob_store: self.storage.blob_store,
        }
    }
}

/// The delivery side that every process shares: it looks for content, takes
/// receipts, and locks by the same coordinator as captures do.
pub open spec fn takes_deliveries(deps: AppDeps, apply: ApplyInboundClipboardUseCase) -> bool {
    &&& apply.find_entry_by_snapshot_hash == deps.clipboard.entry_ports.find_by_snapshot_hash
    &&& apply.receive_attempts == deps.attempt_ports()
    &&& apply.cleans_receive_artifacts
    &&& apply.active_register == (ActiveRegisterPorts {
        active_register: deps.clipboard.active_register,
        mobile_consumability: deps.clipboard.mobile_consumability,
    })
    &&& apply.check_entry_availability == deps.clipboard.entry_ports.availability
    &&& apply.coordinator == deps.clipboard.entry_identity_coordinator
}

/// The delivery side of a process that neither has a system clipboard nor
/// fetches blobs.
pub open spec fn falls_back(deps: AppDeps, apply: ApplyInboundClipboardUseCase) -> bool {
    &&& takes_deliveries(deps, apply)
    &&& *apply.capture == (CaptureClipboardUseCase {
        inbound_receive_commit: Some(deps.storage.directory_receive.commit_inbound),
        ..deps.locking_capture()
    })
    &&& apply.write == InboundWrite::Noop
    &&& apply.blob_materializer is None
    &&& apply.provisional_receive is None
    &&& apply.receive_readiness is None
    &&& apply.host_event_emitter is None
    &&& apply.search_live_index is None
    &&& apply.resurface is None
}

/// The delivery side of a process that neither has a system clipboard nor
/// fetches blobs. It captures as every other does, so that what comes in is
/// stored, and writes to no clipboard.
pub fn build_fallback_apply_inbound(deps: &AppDeps) -> (r: Arc<ApplyInboundClipboardUseCase>)
    ensures
        falls_back(*deps, *r),
{
    let capture: CaptureClipboardUseCase = deps.capture_use_case().with_inbound_receive_commit(
        deps.storage.directory_receive.commit_inbound,
    );
    Arc::new(
        ApplyInboundClipboardUseCase {
            find_entry_by_snapshot_hash: deps.clipboard.entry_ports.find_by_snapshot_hash,
            capture: Arc::new(capture),
            write: InboundWrite::Noop,
            receive_attempts: deps.receive_attempt_ports(),
            cleans_receive_artifacts: true,
            active_register: ActiveRegisterPorts {
                active_register: deps.clipboard.active_register,
                mobile_consumability: deps.clipboard.mobile_consumability,
            },
            check_entry_availability: deps.clipboard.entry_ports.availability,
            coordinator: deps.clipboard.entry_identity_coordinator,
            blob_materializer: None,
            provisional_receive: None,
            receive_readiness: None,
            host_event_emitter: None,
            search_live_index: None,
            resurface: None,
        },
    )
}

/// A facade that captures the clipboard at once, for every process.
pub open spec fn captures_at_once(deps: AppDeps, facade: ClipboardCaptureFacade) -> bool {
    &&& *facade.capture == (CaptureClipboardUseCase {
        list_entries: Some(deps.clipboard.entry_ports.list),
        ..deps.locking_capture()
    })
    &&& facade.clipboard == deps.clipboard.clipboard
    &&& facade.entry_file_set_repository == Some(deps.storage.entry_file_set_repo)
}

/// What captures the clipboard at once. Its captures are local: they commit
/// no receipts, and replace the latest entry where no history is kept.
pub fn build_clipboard_capture_facade(deps: &AppDeps) -> (r: Arc<ClipboardCaptureFacade>)
    ensures
        captures_at_once(*deps, *r),
{
    let capture: CaptureClipboardUseCase = deps.capture_use_case().with_list_entries(
        deps.clipboard.entry_ports.list,
    );
    Arc::new(
        ClipboardCaptureFacade {
            capture: Arc::new(capture),
            clipboard: deps.clipboard.clipboard,
            entry_file_set_repository: Some(deps.storage.entry_file_set_repo),
        },
    )
}

/// The part of the synchronization with mobile devices that comes from the
/// ports and paths.
pub open spec fn serves_mobile_devices(
    deps: AppDeps,
    storage_paths: AppPaths,
    facade: MobileSyncFacade,
) -> bool {
    &&& facade.clock == deps.system.clock
    &&& facade.devices == deps.mobile_sync.devices
    &&& facade.endpoint_info == deps.mobile_sync.endpoint_info
    &&& facade.settings == deps.settings
    &&& facade.file_staging == (MobileFileStaging {
        file_cache_dir: storage_paths.file_cache_dir,
        target_settings: deps.settings,
    })
    &&& facade.snapshot_ports == (MobileSyncSnapshotPorts {
        mobile_consumable_load: deps.clipboard.mobile_consumable_load,
        entry_repo: deps.clipboard.entry_ports.get,
        selection_repo: deps.clipboard.selection_repo,
        representation_repo: deps.clipboard.representation_ports.get,
        payload_resolver: deps.clipboard.payload_resolver,
        blob_reader: deps.storage.blob_store,
    })
    &&& facade.analytics == deps.analytics
    &&& facade.find_entry_by_snapshot_hash == deps.clipboard.entry_ports.find_by_snapshot_hash
    &&& facade.check_entry_availability == deps.clipboard.entry_ports.availability
}

/// The synchronization with mobile devices.
///
/// With `lan_lifecycle` a change of settings takes effect at once, without it
/// at the next start. With `clipboard_outbound` what a mobile device sends
/// goes on to the other devices, and with `active_clipboard` they are told
/// that it is active; without them it stays on this device.
pub fn build_mobile_sync_facade(
    deps: &AppDeps,
    storage_paths: &AppPaths,
    apply_inbound: Arc<ApplyInboundClipboardUseCase>,
    file_transfer: Option<PortRef>,
    lan_lifecycle: Option<PortRef>,
    clipboard_outbound: Option<Arc<ClipboardOutboundFacade>>,
    active_clipboard: Option<PortRef>,
) -> (r: Arc<MobileSyncFacade>)
    ensures
        serves_mobile_devices(*deps, *storage_paths, *r),
        r.apply_inbound == apply_inbound,
        r.file_transfer == file_transfer,
        r.lan_lifecycle == lan_lifecycle,
        r.clipboard_outbound == clipboard_outbound,
        r.active_clipboard == active_clipboard,
{
    Arc::new(
        MobileSyncFacade {
            clock: deps.system.clock,
            devices: deps.mobile_sync.devices,
            endpoint_info: deps.mobile_sync.endpoint_info,
            settings: deps.settings,
            apply_inbound,
            file_staging: MobileFileStaging {
                file_cache_dir: storage_paths.file_cache_dir,
                target_settings: deps.settings,
            },
            snapshot_ports: MobileSyncSnapshotPorts {
                mobile_consumable_load: deps.clipboard.mobile_consumable_load,
                entry_repo: deps.clipboard.entry_ports.get,
                selection_repo: deps.clipboard.selection_repo,
                representation_repo: deps.clipboard.representation_ports.get,
                payload_resolver: deps.clipboard.payload_resolver,
                blob_reader: deps.storage.blob_store,
            },
            file_transfer,
            clipboard_outbound,
            lan_lifecycle,
            analytics: deps.analytics,
            active_clipboard,
            find_entry_by_snapshot_hash: deps.clipboard.entry_ports.find_by_snapshot_hash,
            check_entry_availability: deps.clipboard.entry_ports.availability,
        },
    )
}

/// What restores entries.
pub open spec fn restores(
    deps: AppDeps,
    assembly: ClipboardRestoreAssembly,
) -> ClipboardRestoreFacade {
    ClipboardRestoreFacade {
        selection_repo: deps.clipboard.selection_repo,
        entry_ports: deps.clipboard.entry_ports,
        representation_ports: deps.clipboard.representation_ports,
        payload_resolver: deps.clipboard.payload_resolver,
        blob_store: deps.storage.blob_store,
        clock: deps.system.clock,
        device_identity: deps.device.device_identity,
        active_register: deps.clipboard.active_register,
        mobile_consumability: deps.clipboard.mobile_consumability,
        restore_broadcast: assembly.restore_broadcast,
        write_coordinator: assembly.write_coordinator,
        integration_mode: assembly.integration_mode,
    }
}

fn restore_facade(deps: &AppDeps, assembly: ClipboardRestoreAssembly) -> (r: ClipboardRestoreFacade)
    ensures
        r == restores(*deps, assembly),
{
    ClipboardRestoreFacade {
        selection_repo: deps.clipboard.selection_repo,
        entry_ports: deps.clipboard.entry_ports,
        representation_ports: deps.clipboard.representation_ports,
        payload_resolver: deps.clipboard.payload_resolver,
        blob_store: deps.storage.blob_store,
        clock: deps.system.clock,
        device_identity: deps.device.device_identity,
        active_register: deps.clipboard.active_register,
        mobile_consumability: deps.clipboard.mobile_consumability,
        restore_broadcast: assembly.restore_broadcast,
        write_coordinator: assembly.write_coordinator,
        integration_mode: assembly.integration_mode,
    }
}

/// The history on these ports, which releases blobs through `blob_transfer`.
pub open spec fn keeps_history(
    deps: AppDeps,
    storage_paths: AppPaths,
    blob_transfer: Option<PortRef>,
) -> ClipboardHistoryFacade {
    ClipboardHistoryFacade {
        entry_ports: deps.clipboard.entry_ports,
        selection_repo: deps.clipboard.selection_repo,
        representation_ports: deps.clipboard.representation_ports,
        event_writer: deps.clipboard.clipboard_event_repo,
        payload_resolver: deps.clipboard.payload_resolver,
        blob_store: deps.storage.blob_store,
        thumbnail_repo: deps.storage.thumbnail_repo,
        file_transfer_repo: deps.storage.file_transfer.entry_summary,
        entry_file_set_repo: deps.storage.entry_file_set_repo,
        search_index: Some(deps.search.search_index),
        file_cache_dir: Some(storage_paths.file_cache_dir),
        blob_transfer,
        settings: deps.settings,
        device_identity: deps.device.device_identity,
        clock: deps.system.clock,
        cache_fs: deps.system.cache_fs,
    }
}

fn history_facade(
    deps: &AppDeps,
    storage_paths: &AppPaths,
    blob_transfer: Option<PortRef>,
) -> (r: ClipboardHistoryFacade)
    ensures
        r == keeps_history(*deps, *storage_paths, blob_transfer),
{
    ClipboardHistoryFacade {
        entry_ports: deps.clipboard.entry_ports,
        selection_repo: deps.clipboard.selection_repo,
        representation_ports: deps.clipboard.representation_ports,
        event_writer: deps.clipboard.clipboard_event_repo,
        payload_resolver: deps.clipboard.payload_resolver,
        blob_store: deps.storage.blob_store,
        thumbnail_repo: deps.storage.thumbnail_repo,
        file_transfer_repo: deps.storage.file_transfer.entry_summary,
        entry_file_set_repo: deps.storage.entry_file_set_repo,
        search_index: Some(deps.search.search_index),
        file_cache_dir: Some(storage_paths.file_cache_dir),
        blob_transfer,
        settings: deps.settings,
        device_identity: deps.device.device_identity,
        clock: deps.system.clock,
        cache_fs: deps.system.cache_fs,
    }
}

/// The parts of the application that come from the ports and paths alone.
pub open spec fn has_common_parts(
    deps: AppDeps,
    storage_paths: AppPaths,
    facade: AppFacade,
) -> bool {
    &&& *facade.encryption == (EncryptionFacade {
        setup_status: deps.setup_status,
        space_access: deps.security.space_access_ports,
        mobile_consumable_backfill: deps.clipboard.mobile_consumable_backfill,
    })
    &&& *facade.resource == (ResourceFacade {
        representation_by_blob_id: deps.clipboard.representation_ports.get_by_blob_id,
        representations_for_event: deps.clipboard.representation_ports.list_for_event,
        thumbnail_repo: deps.storage.thumbnail_repo,
        blob_store: deps.storage.blob_store,
        entry_repo: deps.clipboard.entry_ports.get,
    })
    &&& captures_at_once(deps, *facade.clipboard_capture)
    &&& facade.search.search_index == deps.search.search_index
    &&& facade.settings.settings == deps.settings
    &&& facade.diagnostics.settings == deps.settings
    &&& facade.diagnostics.logs_dir == storage_paths.logs_dir
    &&& *facade.device == (DeviceFacade {
        device_identity: deps.device.device_identity,
        settings: deps.settings,
    })
    &&& *facade.storage == (StorageFacade {
        db_path: storage_paths.db_path,
        vault_dir: storage_paths.vault_dir,
        cache_dir: storage_paths.cache_dir,
        logs_dir: storage_paths.logs_dir,
        app_data_root_dir: storage_paths.app_data_root_dir,
        cache_fs: deps.system.cache_fs,
    })
    &&& facade.config_migration == deps.config_migration
    &&& *facade.upgrade == (UpgradeFacade {
        app_version_state: deps.app_version_state,
        setup_status: deps.setup_status,
    })
}

/// The synchronization with mobile devices that an application is built with:
/// there is one exactly where something takes their deliveries, and it keeps
/// what they send on this device.
pub open spec fn has_mobile_sync(
    deps: AppDeps,
    storage_paths: AppPaths,
    apply_inbound: Option<Arc<ApplyInboundClipboardUseCase>>,
    file_transfer: Option<PortRef>,
    mobile_sync: Option<Arc<MobileSyncFacade>>,
) -> bool {
    match apply_inbound {
        Some(apply) => {
            &&& mobile_sync matches Some(facade)
            &&& serves_mobile_devices(deps, storage_paths, *facade)
            &&& facade.apply_inbound == apply
            &&& facade.file_transfer == file_transfer
            &&& facade.lan_lifecycle is None
            &&& facade.clipboard_outbound is None
            &&& facade.active_clipboard is None
        },
        None => mobile_sync is None,
    }
}

/// Puts the application together from the ports, the paths and the options of
/// the process. `relay_probe` is the prober of the network layer, where it
/// could be set up: without it only the trying out of relays is missing.
pub fn build_app_facade_from_deps(
    deps: &AppDeps,
    storage_paths: &AppPaths,
    lifecycle_status: LifecycleStatus,
    relay_probe: Option<PortRef>,
    app_version: String,
    options: AppFacadeAssemblyOptions,
) -> (r: Arc<AppFacade>)
    ensures
        has_common_parts(*deps, *storage_paths, *r),
        has_mobile_sync(
            *deps,
            *storage_paths,
            options.mobile_sync_apply_inbound,
            options.file_transfer,
            r.mobile_sync,
        ),
        r.space_setup == options.space_setup,
        r.member_roster == options.member_roster,
        r.lifecycle.status == lifecycle_status,
        *r.clipboard_history == keeps_history(*deps, *storage_paths, options.blob_transfer_port),
        r.clipboard_sync == options.clipboard_sync,
        r.blob_transfer == options.blob_transfer,
        r.clipboard_outbound == options.clipboard_outbound,
        r.file_transfer == options.file_transfer,
        match options.clipboard_restore {
            Some(assembly) => r.clipboard_restore matches Some(facade) && *facade == restores(
                *deps,
                assembly,
            ),
            None => r.clipboard_restore is None,
        },
        r.search.coordinator == options.search_coordinator,
        r.settings.relay_diagnostic == relay_probe,
        r.diagnostics.app_version == app_version,
{
    let mobile_sync: Option<Arc<MobileSyncFacade>> = match options.mobile_sync_apply_inbound {
        Some(apply_inbound) => Some(
            build_mobile_sync_facade(
                deps,
                storage_paths,
                apply_inbound,
                options.file_transfer,
                None,
                None,
                None,
            ),
        ),
        None => None,
    };
    let clipboard_restore: Option<Arc<ClipboardRestoreFacade>> = match options.clipboard_restore {
        Some(assembly) => Some(Arc::new(restore_facade(deps, assembly))),
        None => None,
    };
    Arc::new(
        AppFacade {
            space_setup: options.space_setup,
            member_roster: options.member_roster,
            lifecycle: Arc::new(LifecycleFacade { status: lifecycle_status }),
            encryption: Arc::new(
                EncryptionFacade {
                    setup_status: deps.setup_status,
                    space_access: deps.security.space_access_ports,
                    mobile_consumable_backfill: deps.clipboard.mobile_consumable_backfill,
                },
            ),
            resource: Arc::new(
                ResourceFacade {
                    representation_by_blob_id: deps.clipboard.representation_ports.get_by_blob_id,
                    representations_for_event: deps.clipboard.representation_ports.list_for_event,
                    thumbnail_repo: deps.storage.thumbnail_repo,
                    blob_store: deps.storage.blob_store,
                    entry_repo: deps.clipboard.entry_ports.get,
                },
            ),
            clipboard_history: Arc::new(
                history_facade(deps, storage_paths, options.blob_transfer_port),
            ),
            clipboard_capture: build_clipboard_capture_facade(deps),
            clipboard_sync: options.clipboard_sync,
            blob_transfer: options.blob_transfer,
            clipboard_outbound: options.clipboard_outbound,
            file_transfer: options.file_transfer,
            clipboard_restore,
            search: Arc::new(
                SearchFacade {
                    search_index: deps.search.search_index,
                    coordinator: options.search_coordinator,
                },
            ),
            settings: Arc::new(
                SettingsFacade { settings: deps.settings, relay_diagnostic: relay_probe },
            ),
            diagnostics: Arc::new(
                DiagnosticsFacade {
                    settings: deps.settings,
                    logs_dir: storage_paths.logs_dir,
                    app_version,
                },
            ),
            device: Arc::new(
                DeviceFacade {
                    device_identity: deps.device.device_identity,
                    settings: deps.settings,
                },
            ),
            storage: Arc::new(
                StorageFacade {
                    db_path: storage_paths.db_path,
                    vault_dir: storage_paths.vault_dir,
                    cache_dir: storage_paths.cache_dir,
                    logs_dir: storage_paths.logs_dir,
                    app_data_root_dir: storage_paths.app_data_root_dir,
                    cache_fs: deps.system.cache_fs,
                },
            ),
            config_migration: deps.config_migration,
            upgrade: Arc::new(
                UpgradeFacade {
                    app_version_state: deps.app_version_state,
                    setup_status: deps.setup_status,
                },
            ),
            mobile_sync,
        },
    )
}

} // verus!

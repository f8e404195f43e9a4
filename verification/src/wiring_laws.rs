//! What the parts of the application are connected to.

use crate::bootstrap::{
    AppFacadeAssemblyOptions, ClipboardRestoreAssembly, build_app_facade_from_deps,
    build_clipboard_capture_facade, build_fallback_apply_inbound, build_mobile_sync_facade,
};
use crate::capture::CaptureClipboardUseCase;
use crate::cli::{
    CliAppRuntime, CliStartup, CliStartupError, CliStartupReply, CliStartupRequest,
    SyncEngineAssembly, WiredContext, assemble_cli_app_runtime,
    build_cli_app_runtime, runs_on,
};
use crate::daemon::{
    DaemonRunMode, DaemonRuntimeAssemblyInput, DaemonRuntimeWorkers,
    build_daemon_runtime_workers,
};
use crate::deps::{AppDeps, AppPaths};
use crate::facades::{
    AppFacade, ApplyInboundClipboardUseCase, ClipboardCaptureFacade, ClipboardHistoryFacade,
    ClipboardLiveIndexer, ClipboardOutboundFacade, ClipboardRestoreFacade, ClipboardSnapshotDeps,
    InboundWrite, LifecycleStatus, MobileSyncFacade, ReceiveAttemptPorts,
};
use crate::records::PortRef;
use std::sync::Arc;
use vstd::prelude::*;

verus! {

/// The capture goes to the ports of the application, and locks by its
/// coordinator.
pub open spec fn captures_on(capture: CaptureClipboardUseCase, deps: AppDeps) -> bool {
    &&& capture.save_entry == deps.clipboard.entry_ports.save
    &&& capture.touch_entry == deps.clipboard.entry_ports.touch
    &&& capture.find_entry_by_snapshot_hash == deps.clipboard.entry_ports.find_by_snapshot_hash
    &&& capture.replace_entry == deps.clipboard.entry_ports.replace_content
    &&& capture.event_writer == deps.clipboard.clipboard_event_repo
    &&& capture.representation_policy == deps.clipboard.representation_policy
    &&& capture.representation_normalizer == deps.clipboard.representation_normalizer
    &&& capture.representation_cache == deps.clipboard.representation_cache
    &&& capture.spool_queue == deps.clipboard.spool_queue
    &&& capture.device_identity == deps.device.device_identity
    &&& capture.blob_ingest == deps.storage.blob_content_ingest
    &&& capture.entry_file_set_repo == deps.storage.entry_file_set_repo
    &&& capture.settings == deps.settings
    &&& capture.analytics == deps.analytics
    &&& capture.coordinator == Some(deps.clipboard.entry_identity_coordinator)
}

/// The ports of receipts are those of the storage, with the clock.
pub open spec fn attempts_on(ports: ReceiveAttemptPorts, deps: AppDeps) -> bool {
    &&& ports.get_attempt == deps.storage.directory_receive.get_attempt
    &&& ports.begin_receive == deps.storage.directory_receive.begin_receive
    &&& ports.claim_commit == deps.storage.directory_receive.claim_commit
    &&& ports.request_cancel == deps.storage.directory_receive.request_cancel
    &&& ports.begin_failure == deps.storage.directory_receive.begin_failure
    &&& ports.commit_inbound == deps.storage.directory_receive.commit_inbound
    &&& ports.clock == deps.system.clock
}

/// A snapshot is made again from these parts.
pub open spec fn rebuilds_on(parts: ClipboardSnapshotDeps, deps: AppDeps) -> bool {
    &&& parts.entry_repo == deps.clipboard.entry_ports.get
    &&& parts.selection_repo == deps.clipboard.selection_repo
    &&& parts.representation_repo == deps.clipboard.representation_ports.get
    &&& parts.rep_processing_repo
        == deps.clipboard.representation_ports.update_processing_result
    &&& parts.payload_resolver == deps.clipboard.payload_resolver
    &&& parts.blob_store == deps.storage.blob_store
}

/// Deliveries are looked for, taken, locked and cleaned up after, in every
/// process alike.
pub open spec fn delivers_on(apply: ApplyInboundClipboardUseCase, deps: AppDeps) -> bool {
    &&& apply.find_entry_by_snapshot_hash == deps.clipboard.entry_ports.find_by_snapshot_hash
    &&& attempts_on(apply.receive_attempts, deps)
    &&& apply.cleans_receive_artifacts
    &&& apply.active_register.active_register == deps.clipboard.active_register
    &&& apply.active_register.mobile_consumability == deps.clipboard.mobile_consumability
    &&& apply.check_entry_availability == deps.clipboard.entry_ports.availability
    &&& apply.coordinator == deps.clipboard.entry_identity_coordinator
    &&& captures_on(*apply.capture, deps)
    &&& apply.capture.inbound_receive_commit == Some(
        deps.storage.directory_receive.commit_inbound,
    )
}

/// Deliveries are stored, and go neither to a clipboard nor further.
pub open spec fn delivers_to_storage_only(
    apply: ApplyInboundClipboardUseCase,
    deps: AppDeps,
) -> bool {
    &&& delivers_on(apply, deps)
    &&& apply.capture.list_entries is None
    &&& apply.write is Noop
    &&& apply.blob_materializer is None
    &&& apply.provisional_receive is None
    &&& apply.receive_readiness is None
    &&& apply.host_event_emitter is None
    &&& apply.search_live_index is None
    &&& apply.resurface is None
}

/// A process without a system clipboard stores what it is sent, and leaves it
/// at that.
pub proof fn fallbacks_store_only(deps: AppDeps, r: Arc<ApplyInboundClipboardUseCase>)
    requires
        call_ensures(build_fallback_apply_inbound, (&deps,), r),
    ensures
        delivers_to_storage_only(*r, deps),
{
}

/// What is captured at once is captured as local: the latest entry can be
/// replaced, and no receipt is committed.
pub open spec fn captures_locally(facade: ClipboardCaptureFacade, deps: AppDeps) -> bool {
    &&& captures_on(*facade.capture, deps)
    &&& facade.capture.inbound_receive_commit is None
    &&& facade.capture.list_entries == Some(deps.clipboard.entry_ports.list)
    &&& facade.clipboard == deps.clipboard.clipboard
    &&& facade.entry_file_set_repository == Some(deps.storage.entry_file_set_repo)
}

/// The facade that captures at once captures locally.
pub proof fn captures_at_once_are_local(deps: AppDeps, r: Arc<ClipboardCaptureFacade>)
    requires
        call_ensures(build_clipboard_capture_facade, (&deps,), r),
    ensures
        captures_locally(*r, deps),
{
}

/// Mobile devices are served from the ports and paths of the application.
pub open spec fn serves_on(facade: MobileSyncFacade, deps: AppDeps, paths: AppPaths) -> bool {
    &&& facade.clock == deps.system.clock
    &&& facade.devices == deps.mobile_sync.devices
    &&& facade.endpoint_info == deps.mobile_sync.endpoint_info
    &&& facade.settings == deps.settings
    &&& facade.file_staging.file_cache_dir == paths.file_cache_dir
    &&& facade.file_staging.target_settings == deps.settings
    &&& facade.snapshot_ports.mobile_consumable_load == deps.clipboard.mobile_consumable_load
    &&& facade.snapshot_ports.entry_repo == deps.clipboard.entry_ports.get
    &&& facade.snapshot_ports.selection_repo == deps.clipboard.selection_repo
    &&& facade.snapshot_ports.representation_repo == deps.clipboard.representation_ports.get
    &&& facade.snapshot_ports.payload_resolver == deps.clipboard.payload_resolver
    &&& facade.snapshot_ports.blob_reader == deps.storage.blob_store
    &&& facade.analytics == deps.analytics
    &&& facade.find_entry_by_snapshot_hash == deps.clipboard.entry_ports.find_by_snapshot_hash
    &&& facade.check_entry_availability == deps.clipboard.entry_ports.availability
}

/// Mobile devices are served by what was given for them, and by the ports and
/// paths of the application.
pub proof fn mobile_devices_are_served_by_what_was_given(
    deps: AppDeps,
    paths: AppPaths,
    apply: Arc<ApplyInboundClipboardUseCase>,
    file_transfer: Option<PortRef>,
    lan_lifecycle: Option<PortRef>,
    outbound: Option<Arc<ClipboardOutboundFacade>>,
    active_clipboard: Option<PortRef>,
    r: Arc<MobileSyncFacade>,
)
    requires
        call_ensures(
            build_mobile_sync_facade,
            (
                &deps,
                &paths,
                apply,
                file_transfer,
                lan_lifecycle,
                outbound,
                active_clipboard,
            ),
            r,
        ),
    ensures
        serves_on(*r, deps, paths),
        r.apply_inbound == apply,
        r.file_transfer == file_transfer,
        r.lan_lifecycle == lan_lifecycle,
        r.clipboard_outbound == outbound,
        r.active_clipboard == active_clipboard,
{
}

/// The history is kept on the ports and paths of the application.
pub open spec fn keeps_on(
    history: ClipboardHistoryFacade,
    deps: AppDeps,
    paths: AppPaths,
    blob_transfer: Option<PortRef>,
) -> bool {
    &&& history.entry_ports == deps.clipboard.entry_ports
    &&& history.selection_repo == deps.clipboard.selection_repo
    &&& history.representation_ports == deps.clipboard.representation_ports
    &&& history.event_writer == deps.clipboard.clipboard_event_repo
    &&& history.payload_resolver == deps.clipboard.payload_resolver
    &&& history.blob_store == deps.storage.blob_store
    &&& history.thumbnail_repo == deps.storage.thumbnail_repo
    &&& history.file_transfer_repo == deps.storage.file_transfer.entry_summary
    &&& history.entry_file_set_repo == deps.storage.entry_file_set_repo
    &&& history.search_index == Some(deps.search.search_index)
    &&& history.file_cache_dir == Some(paths.file_cache_dir)
    &&& history.blob_transfer == blob_transfer
    &&& history.settings == deps.settings
    &&& history.device_identity == deps.device.device_identity
    &&& history.clock == deps.system.clock
    &&& history.cache_fs == deps.system.cache_fs
}

/// Entries are restored on the ports of the application, by what was given
/// for it.
pub open spec fn restores_on(
    restore: ClipboardRestoreFacade,
    deps: AppDeps,
    assembly: ClipboardRestoreAssembly,
) -> bool {
    &&& restore.selection_repo == deps.clipboard.selection_repo
    &&& restore.entry_ports == deps.clipboard.entry_ports
    &&& restore.representation_ports == deps.clipboard.representation_ports
    &&& restore.payload_resolver == deps.clipboard.payload_resolver
    &&& restore.blob_store == deps.storage.blob_store
    &&& restore.clock == deps.system.clock
    &&& restore.device_identity == deps.device.device_identity
    &&& restore.active_register == deps.clipboard.active_register
    &&& restore.mobile_consumability == deps.clipboard.mobile_consumability
    &&& restore.restore_broadcast == assembly.restore_broadcast
    &&& restore.write_coordinator == assembly.write_coordinator
    &&& restore.integration_mode == assembly.integration_mode
}

/// The parts that every application has, on its ports and paths.
pub open spec fn is_put_together_on(app: AppFacade, deps: AppDeps, paths: AppPaths) -> bool {
    &&& app.encryption.setup_status == deps.setup_status
    &&& app.encryption.space_access == deps.security.space_access_ports
    &&& app.encryption.mobile_consumable_backfill == deps.clipboard.mobile_consumable_backfill
    &&& app.resource.representation_by_blob_id
        == deps.clipboard.representation_ports.get_by_blob_id
    &&& app.resource.representations_for_event
        == deps.clipboard.representation_ports.list_for_event
    &&& app.resource.thumbnail_repo == deps.storage.thumbnail_repo
    &&& app.resource.blob_store == deps.storage.blob_store
    &&& app.resource.entry_repo == deps.clipboard.entry_ports.get
    &&& captures_locally(*app.clipboard_capture, deps)
    &&& app.search.search_index == deps.search.search_index
    &&& app.settings.settings == deps.settings
    &&& app.diagnostics.settings == deps.settings
    &&& app.diagnostics.logs_dir == paths.logs_dir
    &&& app.device.device_identity == deps.device.device_identity
    &&& app.device.settings == deps.settings
    &&& app.storage.db_path == paths.db_path
    &&& app.storage.vault_dir == paths.vault_dir
    &&& app.storage.cache_dir == paths.cache_dir
    &&& app.storage.logs_dir == paths.logs_dir
    &&& app.storage.app_data_root_dir == paths.app_data_root_dir
    &&& app.storage.cache_fs == deps.system.cache_fs
    &&& app.config_migration == deps.config_migration
    &&& app.upgrade.app_version_state == deps.app_version_state
    &&& app.upgrade.setup_status == deps.setup_status
}

/// Mobile devices are served exactly where something takes what they send,
/// and what they send stays on this device.
pub open spec fn serves_mobile_locally(
    app: AppFacade,
    deps: AppDeps,
    paths: AppPaths,
    apply: Option<Arc<ApplyInboundClipboardUseCase>>,
    file_transfer: Option<PortRef>,
) -> bool {
    &&& app.mobile_sync is Some <==> apply is Some
    &&& app.mobile_sync matches Some(mobile) ==> {
        &&& serves_on(*mobile, deps, paths)
        &&& apply == Some(mobile.apply_inbound)
        &&& mobile.file_transfer == file_transfer
        &&& mobile.lan_lifecycle is None
        &&& mobile.clipboard_outbound is None
        &&& mobile.active_clipboard is None
    }
}

/// The application is put together from its ports and paths, and has in
/// addition exactly what the options of its process bring.
pub proof fn applications_are_put_together_from_their_parts(
    deps: AppDeps,
    paths: AppPaths,
    lifecycle: LifecycleStatus,
    relay_probe: Option<PortRef>,
    app_version: String,
    options: AppFacadeAssemblyOptions,
    r: Arc<AppFacade>,
)
    requires
        call_ensures(
            build_app_facade_from_deps,
            (&deps, &paths, lifecycle, relay_probe, app_version, options),
            r,
        ),
    ensures
        is_put_together_on(*r, deps, paths),
        keeps_on(*r.clipboard_history, deps, paths, options.blob_transfer_port),
        serves_mobile_locally(
            *r,
            deps,
            paths,
            options.mobile_sync_apply_inbound,
            options.file_transfer,
        ),
        r.clipboard_restore is Some <==> options.clipboard_restore is Some,
        options.clipboard_restore matches Some(assembly) ==> restores_on(
            *r.clipboard_restore->0,
            deps,
            assembly,
        ),
        r.space_setup == options.space_setup,
        r.member_roster == options.member_roster,
        r.lifecycle.status == lifecycle,
        r.clipboard_sync == options.clipboard_sync,
        r.blob_transfer == options.blob_transfer,
        r.clipboard_outbound == options.clipboard_outbound,
        r.file_transfer == options.file_transfer,
        r.search.coordinator == options.search_coordinator,
        r.settings.relay_diagnostic == relay_probe,
        r.diagnostics.app_version == app_version,
{
}

/// By default a process brings nothing.
pub proof fn processes_bring_nothing_by_default(r: AppFacadeAssemblyOptions)
    requires
        call_ensures(AppFacadeAssemblyOptions::default, (), r),
    ensures
        r.space_setup is None && r.member_roster is None && r.clipboard_sync is None
            && r.blob_transfer is None && r.clipboard_outbound is None && r.file_transfer is None
            && r.blob_transfer_port is None && r.clipboard_restore is None && r.search_coordinator
            is None && r.mobile_sync_apply_inbound is None,
{
}

/// New entries are indexed on the ports of the application.
pub open spec fn indexes_on(
    indexer: ClipboardLiveIndexer,
    deps: AppDeps,
    events: PortRef,
) -> bool {
    &&& indexer.clipboard_entry_repo == deps.clipboard.entry_ports.get
    &&& indexer.representation_policy == deps.clipboard.representation_policy
    &&& indexer.search_key_derivation == deps.search.search_key_derivation
    &&& indexer.search_pipeline == deps.search.search_pipeline
    &&& indexer.search_index == deps.search.search_index
    &&& indexer.event_repo == events
    &&& indexer.entry_file_set_repo == deps.storage.entry_file_set_repo
}

/// Captures are sent to other devices on the ports of the application.
pub open spec fn sends_on(
    outbound: ClipboardOutboundFacade,
    deps: AppDeps,
    sync: PortRef,
    blobs: PortRef,
    events: PortRef,
    deliveries: PortRef,
    peers: PortRef,
) -> bool {
    &&& outbound.settings == deps.settings
    &&& outbound.clipboard_sync == sync
    &&& outbound.blob_transfer == blobs
    &&& outbound.event_repo == events
    &&& rebuilds_on(outbound.snapshot, deps)
    &&& outbound.entry_delivery_repo == deliveries
    &&& outbound.trusted_peer_repo == peers
    &&& outbound.device_identity == deps.device.device_identity
    &&& outbound.entry_file_set_repo == deps.storage.entry_file_set_repo
}

/// The daemon sends and takes what is sent on the ports of the application,
/// puts files where its cache is, writes to the clipboard through its
/// coordinator, and brings known content back to it.
pub proof fn the_daemon_delivers_to_the_clipboard(
    input: DaemonRuntimeAssemblyInput<'_>,
    r: DaemonRuntimeWorkers,
)
    requires
        call_ensures(build_daemon_runtime_workers, (input,), r),
    ensures
        delivers_on(*r.apply_inbound, *input.deps),
        r.apply_inbound.capture.list_entries == Some(input.deps.clipboard.entry_ports.list),
        r.apply_inbound.write == InboundWrite::Coordinator(input.clipboard_write_coordinator),
        r.apply_inbound.provisional_receive == Some(
            input.deps.storage.file_transfer.finalize_provisional,
        ),
        r.apply_inbound.receive_readiness == Some(input.receive_readiness),
        r.apply_inbound.host_event_emitter == Some(input.host_event_bus),
        r.apply_inbound.search_live_index matches Some(indexer) && indexes_on(
            *indexer,
            *input.deps,
            input.clipboard_event_reader_repo,
        ),
        r.apply_inbound.resurface matches Some(resurface) && rebuilds_on(
            resurface.snapshot,
            *input.deps,
        ) && resurface.touch == input.deps.clipboard.entry_ports.touch,
        r.apply_inbound.blob_materializer matches Some(files) && {
            &&& files.blob_transfer == input.blob_transfer_facade
            &&& files.file_cache_dir == input.file_cache_dir
            &&& files.get_attempt == input.deps.storage.directory_receive.get_attempt
            &&& files.claim_commit == input.deps.storage.directory_receive.claim_commit
            &&& files.record_publish == input.deps.storage.directory_receive.record_publish
            &&& files.record_artifacts == input.deps.storage.directory_receive.record_artifacts
            &&& files.clock == input.deps.system.clock
            &&& files.target_settings == input.deps.settings
        },
        r.inbound_clipboard_sync.clipboard_sync == input.clipboard_sync_facade,
        r.inbound_clipboard_sync.inbound == r.apply_inbound,
        r.inbound_clipboard_sync.event_tx == input.event_tx,
        r.file_sync_orchestrator.file_transfer_lifecycle == input.file_transfer_lifecycle,
        r.file_sync_orchestrator.blob_transfer == input.blob_transfer_facade,
        sends_on(
            *r.clipboard_outbound,
            *input.deps,
            input.clipboard_sync_facade,
            input.blob_transfer_facade,
            input.clipboard_event_reader_repo,
            input.entry_delivery_repo,
            input.trusted_peer_repo,
        ),
{
}

/// The daemon watches the system clipboard exactly where it takes it over and
/// it is the real one. What it sees it captures locally, indexes, sends to
/// other devices and makes the active entry.
pub proof fn the_daemon_watches_the_real_clipboard(
    input: DaemonRuntimeAssemblyInput<'_>,
    r: DaemonRuntimeWorkers,
    mode: DaemonRunMode,
    takes: bool,
)
    requires
        call_ensures(build_daemon_runtime_workers, (input,), r),
        call_ensures(DaemonRunMode::runs_system_clipboard, (&mode,), takes),
    ensures
        takes == mode.takes_system_clipboard,
        r.clipboard_watcher is Some <==> input.run_mode.takes_system_clipboard
            && input.system_clipboard_wiring is Real,
        r.clipboard_watcher matches Some(watcher) ==> {
            let handler = *watcher.handler;
            &&& watcher.local_clipboard == input.deps.clipboard.system_clipboard
            &&& handler.event_tx == input.event_tx
            &&& handler.clipboard_change_origin == input.deps.clipboard.clipboard_change_origin
            &&& handler.capture_gate == input.clipboard_capture_gate
            &&& captures_on(*handler.capture.capture, *input.deps)
            &&& handler.capture.capture.list_entries == Some(input.deps.clipboard.entry_ports.list)
            &&& handler.capture.capture.inbound_receive_commit == Some(
                input.deps.storage.directory_receive.commit_inbound,
            )
            &&& handler.capture.clipboard == input.deps.clipboard.clipboard
            &&& handler.capture.entry_file_set_repository is None
            &&& indexes_on(
                *handler.live_index,
                *input.deps,
                input.clipboard_event_reader_repo,
            )
            &&& sends_on(
                *handler.outbound,
                *input.deps,
                input.clipboard_sync_facade,
                input.blob_transfer_facade,
                input.clipboard_event_reader_repo,
                input.entry_delivery_repo,
                input.trusted_peer_repo,
            )
            &&& handler.active_register.active_register == input.deps.clipboard.active_register
            &&& handler.active_register.device_identity == input.deps.device.device_identity
            &&& handler.active_register.clock == input.deps.system.clock
            &&& handler.active_register.mobile_consumability
                == input.deps.clipboard.mobile_consumability
        },
{
}

/// The application of a command: on its ports and paths, with everything that
/// the engine brings, and without a way to restore to a clipboard.
pub open spec fn is_a_command(
    runtime: CliAppRuntime,
    wired: WiredContext,
    paths: AppPaths,
    app_version: String,
    assembly: SyncEngineAssembly,
) -> bool {
    let app = *runtime.app_facade;
    let deps = wired.deps;
    &&& runtime.sync_engine_assembly == Some(assembly)
    &&& is_put_together_on(app, deps, paths)
    &&& keeps_on(*app.clipboard_history, deps, paths, Some(assembly.blob_transfer))
    &&& app.mobile_sync matches Some(mobile) && delivers_to_storage_only(
        *mobile.apply_inbound,
        deps,
    ) && serves_mobile_locally(
        app,
        deps,
        paths,
        Some(mobile.apply_inbound),
        Some(wired.shared.file_transfer_facade),
    )
    &&& app.space_setup == Some(assembly.facade)
    &&& app.member_roster == Some(assembly.roster)
    &&& app.lifecycle.status is InMemory
    &&& app.clipboard_sync == Some(assembly.clipboard_sync)
    &&& app.blob_transfer == Some(assembly.blob)
    &&& app.clipboard_outbound matches Some(outbound) && sends_on(
        *outbound,
        deps,
        assembly.clipboard_sync,
        assembly.blob,
        wired.shared.clipboard_event_reader_repo,
        wired.shared.entry_delivery_repo,
        wired.shared.trusted_peer_repo,
    )
    &&& app.file_transfer == Some(wired.shared.file_transfer_facade)
    &&& app.clipboard_restore is None
    &&& app.search.coordinator matches Some(search) && {
        &&& search.search_index == deps.search.search_index
        &&& search.search_maintenance == deps.search.search_maintenance
        &&& search.search_key_derivation == deps.search.search_key_derivation
        &&& search.search_pipeline == deps.search.search_pipeline
        &&& search.entry_list == deps.clipboard.entry_ports.list
        &&& search.entry_repo == deps.clipboard.entry_ports.get
        &&& search.representations_for_event == deps.clipboard.representation_ports.list_for_event
        &&& search.selection_repo == deps.clipboard.selection_repo
        &&& search.event_repo == deps.clipboard.clipboard_event_reader_repo
        &&& search.entry_file_set_repo == deps.storage.entry_file_set_repo
    }
    &&& app.settings.relay_diagnostic == wired.relay_probe
    &&& app.diagnostics.app_version == app_version
}

proof fn lemma_command(
    runtime: CliAppRuntime,
    wired: WiredContext,
    paths: AppPaths,
    app_version: String,
    assembly: SyncEngineAssembly,
)
    requires
        runs_on(runtime, wired, paths, app_version, assembly),
    ensures
        is_a_command(runtime, wired, paths, app_version, assembly),
{
}

/// A command is the application on its wiring; it hands the engine back to be
/// shut down.
pub proof fn commands_run_on_their_wiring(
    wired: WiredContext,
    paths: AppPaths,
    app_version: String,
    assembly: SyncEngineAssembly,
    r: CliAppRuntime,
    way_in: &Arc<AppFacade>,
    left: Option<SyncEngineAssembly>,
)
    requires
        call_ensures(assemble_cli_app_runtime, (wired, paths, app_version, assembly), r),
        call_ensures(CliAppRuntime::app_facade, (&r,), way_in),
        call_ensures(CliAppRuntime::shutdown, (r,), left),
    ensures
        is_a_command(r, wired, paths, app_version, assembly),
        *way_in == r.app_facade,
        left == Some(assembly),
{
    lemma_command(r, wired, paths, app_version, assembly);
}

/// A command starts with its wiring, then finds its paths, loads its settings
/// and binds its network with them, and then runs on all of these. The first
/// that fails is the error that it ends with. Any other answer changes
/// nothing.
pub proof fn commands_start_step_by_step(
    state: CliStartup,
    reply: CliStartupReply,
    next: CliStartup,
    app_version: String,
    begun: CliStartup,
)
    requires
        call_ensures(CliStartup::resume, (state, reply), next),
        call_ensures(build_cli_app_runtime, (app_version,), begun),
    ensures
        begun == (CliStartup::Wiring { app_version }),
        state matches CliStartup::Wiring { app_version } ==> match reply {
            CliStartupReply::Wired(Ok(wired)) => next == (CliStartup::StoragePaths {
                app_version,
                wired,
            }),
            CliStartupReply::Wired(Err(cause)) => next == (CliStartup::Finished {
                result: Err(CliStartupError::Wiring(cause)),
            }),
            _ => next == state,
        },
        state matches CliStartup::StoragePaths { app_version, wired } ==> match reply {
            CliStartupReply::StoragePaths(Ok(paths)) => next == (CliStartup::Settings {
                app_version,
                wired,
                paths,
            }),
            CliStartupReply::StoragePaths(Err(cause)) => next == (CliStartup::Finished {
                result: Err(CliStartupError::StoragePaths(cause)),
            }),
            _ => next == state,
        },
        state matches CliStartup::Settings { app_version, wired, paths } ==> match reply {
            CliStartupReply::Settings(Ok(network)) => next == (CliStartup::Bind {
                app_version,
                wired,
                paths,
                network,
            }),
            CliStartupReply::Settings(Err(cause)) => next == (CliStartup::Finished {
                result: Err(CliStartupError::Settings(cause)),
            }),
            _ => next == state,
        },
        state matches CliStartup::Bind { app_version, wired, paths, network } ==> match reply {
            CliStartupReply::Bound(Ok(assembly)) => next matches CliStartup::Finished {
                result: Ok(runtime),
            } && is_a_command(runtime, wired, paths, app_version, assembly),
            CliStartupReply::Bound(Err(cause)) => next == (CliStartup::Finished {
                result: Err(CliStartupError::Bind(cause)),
            }),
            _ => next == state,
        },
        state is Finished ==> next == state,
{
    if let CliStartup::Bind { app_version, wired, paths, network } = state {
        if let CliStartupReply::Bound(Ok(assembly)) = reply {
            if let CliStartup::Finished { result: Ok(runtime) } = next {
                lemma_command(runtime, wired, paths, app_version, assembly);
            }
        }
    }
}

/// A command asks for its wiring, its paths, its settings at the port of
/// settings, and for the network to be bound with its wiring and settings.
/// Its errors say what failed.
pub proof fn commands_ask_for_what_they_need(
    state: CliStartup,
    r: CliStartupRequest<'_>,
    error: CliStartupError,
    words: String,
)
    requires
        call_ensures(CliStartup::request, (&state,), r),
        call_ensures(CliStartupError::message, (&error,), words),
    ensures
        state is Wiring ==> r is Wire,
        state is StoragePaths ==> r is StoragePaths,
        state matches CliStartup::Settings { app_version, wired, paths } ==> (
        r matches CliStartupRequest::LoadSettings { port } && port == wired.deps.settings),
        state matches CliStartup::Bind { app_version, wired, paths, network } ==> (
        r matches CliStartupRequest::Bind { wired: by, network: with } && *by == wired && *with
            == network),
        state is Finished ==> r is Nothing,
        error matches CliStartupError::Wiring(cause) ==> words@ == cause@,
        error matches CliStartupError::StoragePaths(cause) ==> words@ == cause@,
        error matches CliStartupError::Settings(cause) ==> words@
            == "settings load failed at startup: "@ + cause@,
        error matches CliStartupError::Bind(cause) ==> words@ == "failed to bind iroh endpoint: "@
            + cause@,
{
}

} // verus!

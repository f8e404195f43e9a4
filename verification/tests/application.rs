use std::sync::Arc;
use uniclip_capture::bootstrap::{
    AppFacadeAssemblyOptions, ClipboardRestoreAssembly, build_app_facade_from_deps,
    build_clipboard_capture_facade, build_fallback_apply_inbound, build_mobile_sync_facade,
};
use uniclip_capture::cleanup::{
    CLEANUP_INTERVAL_SECS, CleanupEvent, CleanupNote, CleanupPass, CleanupReply, CleanupService,
    CleanupWorker, FileCleanupResult, ReconcileResult, RetentionResult,
};
use uniclip_capture::cli::{
    CliStartup, CliStartupError, CliStartupReply, CliStartupRequest, NetworkSettings,
    SharedWiring, SyncEngineAssembly, WiredContext, build_cli_app_runtime,
};
use uniclip_capture::daemon::{
    DaemonRunMode, DaemonRuntimeAssemblyInput, SystemClipboardWiring, build_daemon_runtime_workers,
};
use uniclip_capture::deps::{
    AppDeps, AppPaths, ClipboardDeps, DeviceDeps, DirectoryReceivePorts, EntryPorts,
    FileTransferPorts, MobileSyncDeps, PathRef, RepresentationPorts, SearchDeps, SecurityDeps,
    SpaceAccessPorts, StorageDeps, SystemDeps,
};
use uniclip_capture::facades::{InboundWrite, LifecycleStatus};
use uniclip_capture::integration::{
    ClipboardIntegrationMode, names_a_mode, parse_clipboard_integration_mode,
};
use uniclip_capture::records::{HostRef, PortRef};
use uniclip_capture::relay::{
    IrohRelayProbeError, IrohRelayProbeReport, RelayProbeError, RelayProbeReport,
    map_relay_probe, map_relay_probe_error, map_relay_probe_report,
};

/// Ports with numbers of their own.
fn deps() -> AppDeps {
    let mut last = 0;
    let mut port = || {
        last += 1;
        PortRef(last)
    };
    AppDeps {
        clipboard: ClipboardDeps {
            clipboard: port(),
            system_clipboard: port(),
            clipboard_change_origin: port(),
            entry_ports: EntryPorts {
                save: port(),
                touch: port(),
                find_by_snapshot_hash: port(),
                replace_content: port(),
                list: port(),
                get: port(),
                availability: port(),
            },
            representation_ports: RepresentationPorts {
                get: port(),
                update_processing_result: port(),
                get_by_blob_id: port(),
                list_for_event: port(),
            },
            clipboard_event_repo: port(),
            clipboard_event_reader_repo: port(),
            selection_repo: port(),
            representation_policy: port(),
            representation_normalizer: port(),
            representation_cache: port(),
            spool_queue: port(),
            payload_resolver: port(),
            entry_identity_coordinator: port(),
            active_register: port(),
            mobile_consumability: port(),
            mobile_consumable_load: port(),
            mobile_consumable_backfill: port(),
        },
        storage: StorageDeps {
            blob_content_ingest: port(),
            blob_store: port(),
            entry_file_set_repo: port(),
            thumbnail_repo: port(),
            directory_receive: DirectoryReceivePorts {
                get_attempt: port(),
                begin_receive: port(),
                claim_commit: port(),
                request_cancel: port(),
                begin_failure: port(),
                commit_inbound: port(),
                record_publish: port(),
                record_artifacts: port(),
            },
            file_transfer: FileTransferPorts {
                finalize_provisional: port(),
                entry_summary: port(),
            },
        },
        device: DeviceDeps { device_identity: port() },
        system: SystemDeps { clock: port(), cache_fs: port() },
        mobile_sync: MobileSyncDeps { devices: port(), endpoint_info: port() },
        security: SecurityDeps {
            space_access_ports: SpaceAccessPorts {
                initialize: port(),
                resume_session: port(),
                is_unlocked: port(),
                lock: port(),
                verify_keychain_access: port(),
            },
        },
        search: SearchDeps {
            search_index: port(),
            search_maintenance: port(),
            search_key_derivation: port(),
            search_pipeline: port(),
        },
        settings: port(),
        analytics: port(),
        setup_status: port(),
        config_migration: port(),
        app_version_state: port(),
    }
}

fn paths() -> AppPaths {
    AppPaths {
        db_path: PathRef(1),
        vault_dir: PathRef(2),
        cache_dir: PathRef(3),
        file_cache_dir: PathRef(4),
        logs_dir: PathRef(5),
        app_data_root_dir: PathRef(6),
    }
}

fn input(deps: &AppDeps, takes: bool, wiring: SystemClipboardWiring) -> DaemonRuntimeAssemblyInput<'_> {
    DaemonRuntimeAssemblyInput {
        deps,
        run_mode: DaemonRunMode { takes_system_clipboard: takes },
        system_clipboard_wiring: wiring,
        event_tx: PortRef(201),
        clipboard_capture_gate: PortRef(202),
        clipboard_sync_facade: PortRef(203),
        blob_transfer_facade: PortRef(204),
        file_cache_dir: PathRef(205),
        file_transfer_lifecycle: PortRef(206),
        receive_readiness: PortRef(207),
        clipboard_write_coordinator: PortRef(208),
        host_event_bus: PortRef(209),
        entry_delivery_repo: PortRef(210),
        clipboard_event_reader_repo: PortRef(211),
        trusted_peer_repo: PortRef(212),
    }
}

#[test]
fn the_clipboard_is_watched_only_where_there_is_one() {
    let deps = deps();
    let watched = |takes: bool, wiring: SystemClipboardWiring| {
        build_daemon_runtime_workers(input(&deps, takes, wiring)).clipboard_watcher.is_some()
    };
    assert!(watched(true, SystemClipboardWiring::Real));
    assert!(!watched(true, SystemClipboardWiring::Noop));
    assert!(!watched(false, SystemClipboardWiring::Real));
    assert!(!watched(false, SystemClipboardWiring::Noop));
}

#[test]
fn daemon_workers_share_what_they_should() {
    let deps = deps();
    let workers = build_daemon_runtime_workers(input(&deps, true, SystemClipboardWiring::Real));
    let watcher = workers.clipboard_watcher.expect("a clipboard to watch");
    let apply = &workers.apply_inbound;
    assert!(Arc::ptr_eq(apply, &workers.inbound_clipboard_sync.inbound));
    assert!(Arc::ptr_eq(&apply.capture, &watcher.handler.capture.capture));
    assert!(Arc::ptr_eq(apply.search_live_index.as_ref().unwrap(), &watcher.handler.live_index));
    assert!(Arc::ptr_eq(&workers.clipboard_outbound, &watcher.handler.outbound));
    assert_eq!(apply.write, InboundWrite::Coordinator(PortRef(208)));
    assert_eq!(apply.write.write(), Some(PortRef(208)));
    assert_eq!(apply.blob_materializer.as_ref().unwrap().file_cache_dir, PathRef(205));
    assert_eq!(apply.resurface.as_ref().unwrap().touch, deps.clipboard.entry_ports.touch);
    assert_eq!(
        apply.capture.inbound_receive_commit,
        Some(deps.storage.directory_receive.commit_inbound)
    );
    assert_eq!(apply.capture.list_entries, Some(deps.clipboard.entry_ports.list));
    assert_eq!(watcher.local_clipboard, deps.clipboard.system_clipboard);
    assert_eq!(watcher.handler.capture.entry_file_set_repository, None);
    assert_eq!(workers.file_sync_orchestrator.file_transfer_lifecycle, PortRef(206));
    assert_eq!(workers.clipboard_outbound.entry_delivery_repo, PortRef(210));
}

#[test]
fn every_capture_locks_by_one_coordinator() {
    let deps = deps();
    let coordinator = deps.clipboard.entry_identity_coordinator;
    let fallback = build_fallback_apply_inbound(&deps);
    let at_once = build_clipboard_capture_facade(&deps);
    let workers = build_daemon_runtime_workers(input(&deps, false, SystemClipboardWiring::Noop));
    assert_eq!(fallback.coordinator, coordinator);
    assert_eq!(fallback.capture.coordinator, Some(coordinator));
    assert_eq!(at_once.capture.coordinator, Some(coordinator));
    assert_eq!(workers.apply_inbound.capture.coordinator, Some(coordinator));
}

#[test]
fn the_fallback_stores_and_writes_nowhere() {
    let deps = deps();
    let fallback = build_fallback_apply_inbound(&deps);
    assert_eq!(fallback.write, InboundWrite::Noop);
    assert_eq!(fallback.write.write(), None);
    assert_eq!(fallback.capture.list_entries, None);
    assert_eq!(
        fallback.capture.inbound_receive_commit,
        Some(deps.storage.directory_receive.commit_inbound)
    );
    assert_eq!(fallback.capture.save_entry, deps.clipboard.entry_ports.save);
    assert_eq!(fallback.capture.analytics, deps.analytics);
    assert_eq!(fallback.receive_attempts.clock, deps.system.clock);
    assert!(fallback.blob_materializer.is_none());
    assert!(fallback.host_event_emitter.is_none());
}

#[test]
fn the_fallback_captures_like_the_daemon_but_for_the_listing() {
    let deps = deps();
    let fallback = build_fallback_apply_inbound(&deps);
    let workers = build_daemon_runtime_workers(input(&deps, false, SystemClipboardWiring::Noop));
    let daemon = *workers.apply_inbound.capture;
    assert_eq!(fallback.capture.with_list_entries(deps.clipboard.entry_ports.list), daemon);
}

#[test]
fn captures_at_once_commit_no_receipts() {
    let deps = deps();
    let facade = build_clipboard_capture_facade(&deps);
    assert_eq!(facade.capture.inbound_receive_commit, None);
    assert_eq!(facade.capture.list_entries, Some(deps.clipboard.entry_ports.list));
    assert_eq!(facade.clipboard, deps.clipboard.clipboard);
    assert_eq!(facade.entry_file_set_repository, Some(deps.storage.entry_file_set_repo));
}

#[test]
fn mobile_sync_carries_what_it_is_given() {
    let deps = deps();
    let apply = build_fallback_apply_inbound(&deps);
    let workers = build_daemon_runtime_workers(input(&deps, false, SystemClipboardWiring::Noop));
    let facade = build_mobile_sync_facade(
        &deps,
        &paths(),
        apply,
        Some(PortRef(301)),
        Some(PortRef(302)),
        Some(workers.clipboard_outbound),
        Some(PortRef(303)),
    );
    assert_eq!(facade.file_transfer, Some(PortRef(301)));
    assert_eq!(facade.lan_lifecycle, Some(PortRef(302)));
    assert_eq!(facade.active_clipboard, Some(PortRef(303)));
    assert!(facade.clipboard_outbound.is_some());
    assert_eq!(facade.file_staging.file_cache_dir, PathRef(4));
    assert_eq!(facade.snapshot_ports.blob_reader, deps.storage.blob_store);
}

#[test]
fn an_application_has_what_its_options_ask_for() {
    let deps = deps();
    let bare = build_app_facade_from_deps(
        &deps,
        &paths(),
        LifecycleStatus::Gateway(PortRef(401)),
        None,
        "1.2.3".to_string(),
        AppFacadeAssemblyOptions::default(),
    );
    assert!(bare.mobile_sync.is_none());
    assert!(bare.clipboard_restore.is_none());
    assert!(bare.clipboard_outbound.is_none());
    assert_eq!(bare.settings.relay_diagnostic, None);
    assert_eq!(bare.lifecycle.status, LifecycleStatus::Gateway(PortRef(401)));
    assert_eq!(bare.diagnostics.app_version, "1.2.3");
    assert_eq!(bare.storage.db_path, PathRef(1));
    assert_eq!(bare.clipboard_history.blob_transfer, None);
    assert_eq!(bare.clipboard_history.search_index, Some(deps.search.search_index));

    let full = build_app_facade_from_deps(
        &deps,
        &paths(),
        LifecycleStatus::InMemory,
        Some(PortRef(402)),
        String::new(),
        AppFacadeAssemblyOptions {
            file_transfer: Some(PortRef(403)),
            blob_transfer_port: Some(PortRef(404)),
            clipboard_restore: Some(ClipboardRestoreAssembly {
                write_coordinator: PortRef(405),
                integration_mode: ClipboardIntegrationMode::Passive,
                restore_broadcast: None,
            }),
            mobile_sync_apply_inbound: Some(build_fallback_apply_inbound(&deps)),
            ..Default::default()
        },
    );
    let mobile = full.mobile_sync.as_ref().unwrap();
    assert_eq!(mobile.file_transfer, Some(PortRef(403)));
    assert_eq!(mobile.lan_lifecycle, None);
    assert_eq!(mobile.active_clipboard, None);
    assert!(mobile.clipboard_outbound.is_none());
    let restore = full.clipboard_restore.as_ref().unwrap();
    assert_eq!(restore.write_coordinator, PortRef(405));
    assert_eq!(restore.integration_mode, ClipboardIntegrationMode::Passive);
    assert_eq!(full.clipboard_history.blob_transfer, Some(PortRef(404)));
    assert_eq!(full.settings.relay_diagnostic, Some(PortRef(402)));
}

fn wired() -> WiredContext {
    WiredContext {
        deps: deps(),
        shared: SharedWiring {
            clipboard_event_reader_repo: PortRef(501),
            entry_delivery_repo: PortRef(502),
            trusted_peer_repo: PortRef(503),
            file_transfer_facade: PortRef(504),
        },
        relay_probe: None,
    }
}

fn network() -> NetworkSettings {
    NetworkSettings {
        allow_relay_fallback: true,
        allow_overlay_network_addrs: false,
        custom_relay_urls: vec!["https://relay".to_string()],
        congestion_controller: HostRef(1),
    }
}

fn assembly() -> SyncEngineAssembly {
    SyncEngineAssembly {
        engine: PortRef(601),
        facade: PortRef(602),
        roster: PortRef(603),
        clipboard_sync: PortRef(604),
        blob: PortRef(605),
        blob_transfer: PortRef(606),
    }
}

fn error_of(startup: CliStartup) -> CliStartupError {
    match startup {
        CliStartup::Finished { result: Err(error) } => error,
        _ => panic!("the start should have failed"),
    }
}

#[test]
fn a_command_starts_step_by_step() {
    let startup = build_cli_app_runtime("9.9".to_string());
    assert!(matches!(startup.request(), CliStartupRequest::Wire));
    let startup = startup.resume(CliStartupReply::Wired(Ok(wired())));
    assert!(matches!(startup.request(), CliStartupRequest::StoragePaths));
    let startup = startup.resume(CliStartupReply::StoragePaths(Ok(paths())));
    match startup.request() {
        CliStartupRequest::LoadSettings { port } => assert_eq!(port, deps().settings),
        _ => panic!("the settings are needed"),
    }
    let startup = startup.resume(CliStartupReply::Settings(Ok(network())));
    match startup.request() {
        CliStartupRequest::Bind { network, .. } => {
            assert!(network.allow_relay_fallback);
            assert_eq!(network.custom_relay_urls.len(), 1);
        }
        _ => panic!("the engine is needed"),
    }
    let startup = startup.resume(CliStartupReply::Bound(Ok(assembly())));
    assert!(matches!(startup.request(), CliStartupRequest::Nothing));
    let runtime = match startup {
        CliStartup::Finished { result: Ok(runtime) } => runtime,
        _ => panic!("the start should have succeeded"),
    };
    let app = runtime.app_facade();
    assert_eq!(app.space_setup, Some(PortRef(602)));
    assert_eq!(app.member_roster, Some(PortRef(603)));
    assert_eq!(app.clipboard_history.blob_transfer, Some(PortRef(606)));
    assert_eq!(app.clipboard_outbound.as_ref().unwrap().clipboard_sync, PortRef(604));
    assert_eq!(app.mobile_sync.as_ref().unwrap().file_transfer, Some(PortRef(504)));
    assert_eq!(app.search.coordinator.as_ref().unwrap().entry_list, deps().clipboard.entry_ports.list);
    assert!(app.clipboard_restore.is_none());
    assert_eq!(runtime.shutdown(), Some(assembly()));
}

#[test]
fn each_failure_of_a_start_is_told() {
    let start = || build_cli_app_runtime(String::new());
    let at_paths = || start().resume(CliStartupReply::Wired(Ok(wired())));
    let at_settings = || at_paths().resume(CliStartupReply::StoragePaths(Ok(paths())));
    let at_bind = || at_settings().resume(CliStartupReply::Settings(Ok(network())));
    let words = || "why".to_string();
    let error = error_of(start().resume(CliStartupReply::Wired(Err(words()))));
    assert_eq!(error, CliStartupError::Wiring(words()));
    assert_eq!(error.message(), "why");
    let error = error_of(at_paths().resume(CliStartupReply::StoragePaths(Err(words()))));
    assert_eq!(error, CliStartupError::StoragePaths(words()));
    assert_eq!(error.message(), "why");
    let error = error_of(at_settings().resume(CliStartupReply::Settings(Err(words()))));
    assert_eq!(error.message(), "settings load failed at startup: why");
    let error = error_of(at_bind().resume(CliStartupReply::Bound(Err(words()))));
    assert_eq!(error.message(), "failed to bind iroh endpoint: why");
    let unchanged = at_paths().resume(CliStartupReply::Bound(Ok(assembly())));
    assert!(matches!(unchanged.request(), CliStartupRequest::StoragePaths));
}

fn worker() -> CleanupWorker {
    let facade = build_app_facade_from_deps(
        &deps(),
        &paths(),
        LifecycleStatus::InMemory,
        None,
        String::new(),
        AppFacadeAssemblyOptions::default(),
    );
    CleanupWorker::new(Arc::clone(&facade.clipboard_history))
}

fn reconciled(entries_deleted: u64, errors: u64) -> CleanupReply {
    CleanupReply::Reconciled(Ok(ReconcileResult { entries_scanned: 9, entries_deleted, errors }))
}

fn cleaned(files_removed: u64) -> CleanupReply {
    CleanupReply::FileCacheCleaned(Ok(FileCleanupResult {
        files_removed,
        entries_deleted: 1,
        orphans_removed: 1,
        bytes_reclaimed: 1,
        errors: 1,
    }))
}

#[test]
fn a_pass_does_its_jobs_in_order() {
    let worker = worker();
    assert_eq!(worker.history_facade.settings, deps().settings);
    assert_eq!(worker.name(), "cleanup");
    let pass = worker.run_jobs();
    assert_eq!(pass, CleanupPass::Reconcile);
    let (pass, note) = pass.resume(reconciled(0, 0));
    assert_eq!((pass, note), (CleanupPass::CleanupFileCache, CleanupNote::Quiet));
    let (pass, note) = pass.resume(cleaned(0));
    assert_eq!((pass, note), (CleanupPass::EnforceRetention, CleanupNote::Quiet));
    let (pass, note) = pass.resume(CleanupReply::RetentionEnforced(Ok(RetentionResult {
        entries_deleted: 2,
        errors: 0,
    })));
    assert_eq!((pass, note), (CleanupPass::Finished, CleanupNote::Report));
}

#[test]
fn a_pass_that_cannot_reconcile_ends() {
    let pass = CleanupPass::Reconcile;
    let (pass, note) = pass.resume(CleanupReply::Reconciled(Err("locked".to_string())));
    assert_eq!((pass, note), (CleanupPass::Finished, CleanupNote::Warning));
    let (pass, _) = pass.resume(cleaned(1));
    assert_eq!(pass, CleanupPass::Finished);
}

#[test]
fn later_failures_do_not_end_a_pass() {
    let (pass, note) = CleanupPass::CleanupFileCache
        .resume(CleanupReply::FileCacheCleaned(Err("locked".to_string())));
    assert_eq!((pass, note), (CleanupPass::EnforceRetention, CleanupNote::Warning));
    let (pass, note) =
        pass.resume(CleanupReply::RetentionEnforced(Err("locked".to_string())));
    assert_eq!((pass, note), (CleanupPass::Finished, CleanupNote::Warning));
}

#[test]
fn jobs_are_noted_by_what_they_did() {
    assert_eq!(CleanupPass::Reconcile.resume(reconciled(1, 0)).1, CleanupNote::Report);
    assert_eq!(CleanupPass::Reconcile.resume(reconciled(0, 1)).1, CleanupNote::Report);
    assert_eq!(CleanupPass::CleanupFileCache.resume(cleaned(1)).1, CleanupNote::Report);
    let retention = |entries_deleted: u64, errors: u64| {
        CleanupPass::EnforceRetention
            .resume(CleanupReply::RetentionEnforced(Ok(RetentionResult { entries_deleted, errors })))
            .1
    };
    assert_eq!(retention(0, 0), CleanupNote::Quiet);
    assert_eq!(retention(0, 1), CleanupNote::Report);
}

#[test]
fn the_service_ends_between_passes() {
    assert_eq!(CLEANUP_INTERVAL_SECS, 30);
    let service = worker().start();
    let (service, _) = service.resume(CleanupEvent::Cancelled);
    assert_eq!(service, CleanupService::Working { pass: CleanupPass::Reconcile });
    let (service, _) = service.resume(CleanupEvent::Due);
    assert_eq!(service, CleanupService::Working { pass: CleanupPass::Reconcile });
    let (service, note) =
        service.resume(CleanupEvent::Job(CleanupReply::Reconciled(Err(String::new()))));
    assert_eq!((service, note), (CleanupService::Waiting, CleanupNote::Warning));
    let (service, _) = service.resume(CleanupEvent::Due);
    assert_eq!(service, CleanupService::Working { pass: CleanupPass::Reconcile });
    let (service, _) = service.resume(CleanupEvent::Job(reconciled(0, 0)));
    let (service, _) = service.resume(CleanupEvent::Job(cleaned(0)));
    let (service, _) = service.resume(CleanupEvent::Job(CleanupReply::RetentionEnforced(Ok(
        RetentionResult { entries_deleted: 0, errors: 0 },
    ))));
    let (service, _) = service.resume(CleanupEvent::Cancelled);
    assert_eq!(service, CleanupService::Stopped);
    assert_eq!(service.resume(CleanupEvent::Due).0, CleanupService::Stopped);
}

#[test]
fn only_passive_asks_for_the_passive_mode() {
    let parse = parse_clipboard_integration_mode;
    assert_eq!(parse(None), ClipboardIntegrationMode::Full);
    assert_eq!(parse(Some("passive")), ClipboardIntegrationMode::Passive);
    assert_eq!(parse(Some("PASSIVE")), ClipboardIntegrationMode::Passive);
    assert_eq!(parse(Some("Passive")), ClipboardIntegrationMode::Passive);
    for text in ["", "full", " passive ", "passive\n", "pass ive", "passively", "other"] {
        assert_eq!(parse(Some(text)), ClipboardIntegrationMode::Full, "{text:?}");
    }
    for text in ["full", "Full", "passive", "PASSIVE"] {
        assert!(names_a_mode(text), "{text:?}");
    }
    for text in ["", " Full ", " passive ", "other"] {
        assert!(!names_a_mode(text), "{text:?}");
    }
}

#[test]
fn probes_are_shown_one_for_one() {
    let words = || "why".to_string();
    assert_eq!(
        map_relay_probe_report(IrohRelayProbeReport { latency_ms: 12 }),
        RelayProbeReport { latency_ms: 12 }
    );
    assert_eq!(
        map_relay_probe_error(IrohRelayProbeError::InvalidUrl(words())),
        RelayProbeError::InvalidUrl(words())
    );
    assert_eq!(
        map_relay_probe_error(IrohRelayProbeError::Dns(words())),
        RelayProbeError::Dns(words())
    );
    assert_eq!(
        map_relay_probe_error(IrohRelayProbeError::Tls(words())),
        RelayProbeError::Tls(words())
    );
    assert_eq!(
        map_relay_probe_error(IrohRelayProbeError::Handshake(words())),
        RelayProbeError::Handshake(words())
    );
    assert_eq!(map_relay_probe_error(IrohRelayProbeError::Timeout), RelayProbeError::Timeout);
    assert_eq!(
        map_relay_probe_error(IrohRelayProbeError::Other(words())),
        RelayProbeError::Other(words())
    );
    assert_eq!(
        map_relay_probe(Ok(IrohRelayProbeReport { latency_ms: 3 })),
        Ok(RelayProbeReport { latency_ms: 3 })
    );
    assert_eq!(map_relay_probe(Err(IrohRelayProbeError::Timeout)), Err(RelayProbeError::Timeout));
}

//! The background workers of the daemon, and what they share.

use crate::bootstrap::{captures_at_once, falls_back, takes_deliveries};
use crate::capture::{CaptureClipboardUseCase, CaptureReply, Draft};
use crate::capture_laws::capture_after;
use crate::capture_listing::{
    draft_listing_by, listing_by, only_local_captures_use_the_listing, state_listing_by,
};
use crate::clipboard::ClipboardChangeOrigin;
use crate::deps::{AppDeps, PathRef};
use crate::facades::{
    ActiveRegisterPorts, ApplyInboundClipboardUseCase, ClipboardCaptureFacade,
    ClipboardLiveIndexer, ClipboardOutboundFacade, FileCacheBlobMaterializer, InboundWrite,
    ResurfaceDeps, share,
};
use crate::records::PortRef;
use std::sync::Arc;
use vstd::prelude::*;

verus! {

/// How the daemon runs, as far as its workers depend on it.
#[derive(Clone, Copy, Debug, PartialEq, Eq, Structural)]
pub struct DaemonRunMode {
    /// The daemon takes over the system clipboard. One that runs as a server
    /// does not.
    pub takes_system_clipboard: bool,
}

impl DaemonRunMode {
    /// Whether the daemon takes over the system clipboard.
    pub fn runs_system_clipboard(&self) -> (r: bool)
        ensures
            r == self.takes_system_clipboard,
    {
        self.takes_system_clipboard
    }
}

/// What the system clipboard is connected to.
#[derive(Clone, Copy, Debug, PartialEq, Eq, Structural)]
pub enum SystemClipboardWiring {
    /// The clipboard of the operating system.
    Real,
    /// Nothing: it is switched off, or there is no session that has one.
    Noop,
}

/// What the workers of the daemon are put together from.
pub struct DaemonRuntimeAssemblyInput<'a> {
    pub deps: &'a AppDeps,
    pub run_mode: DaemonRunMode,
    pub system_clipboard_wiring: SystemClipboardWiring,
    pub event_tx: PortRef,
    pub clipboard_capture_gate: PortRef,
    pub clipboard_sync_facade: PortRef,
    pub blob_transfer_facade: PortRef,
    pub file_cache_dir: PathRef,
    pub file_transfer_lifecycle: PortRef,
    pub receive_readiness: PortRef,
    pub clipboard_write_coordinator: PortRef,
    /// The events of the host, from the same source as those of blob
    /// transfers.
    pub host_event_bus: PortRef,
    pub entry_delivery_repo: PortRef,
    pub clipboard_event_reader_repo: PortRef,
    pub trusted_peer_repo: PortRef,
}

/// What moves the register of the active entry on with a local capture.
#[derive(Clone, Copy, Debug, PartialEq, Eq, Structural)]
pub struct LocalActiveRegisterAdvancer {
    pub active_register: PortRef,
    pub device_identity: PortRef,
    pub clock: PortRef,
    pub mobile_consumability: PortRef,
}

/// What handles a change of the system clipboard.
pub struct DaemonClipboardChangeHandler {
    pub event_tx: PortRef,
    pub clipboard_change_origin: PortRef,
    pub capture_gate: PortRef,
    pub capture: Arc<ClipboardCaptureFacade>,
    pub live_index: Arc<ClipboardLiveIndexer>,
    pub outbound: Arc<ClipboardOutboundFacade>,
    pub active_register: LocalActiveRegisterAdvancer,
}

/// The worker that watches the system clipboard.
pub struct ClipboardWatcherWorker {
    pub local_clipboard: PortRef,
    pub handler: Arc<DaemonClipboardChangeHandler>,
}

/// The worker that takes deliveries from other devices.
pub struct InboundClipboardSyncWorker {
    pub clipboard_sync: PortRef,
    pub inbound: Arc<ApplyInboundClipboardUseCase>,
    pub event_tx: PortRef,
}

/// The worker that carries file transfers on.
#[derive(Clone, Copy, Debug, PartialEq, Eq, Structural)]
pub struct FileSyncOrchestratorWorker {
    pub file_transfer_lifecycle: PortRef,
    pub blob_transfer: PortRef,
}

/// The workers of the daemon, before any of them is started, and what they
/// share with the synchronization with mobile devices.
pub struct DaemonRuntimeWorkers {
    /// Nothing where there is no system clipboard to watch.
    pub clipboard_watcher: Option<Arc<ClipboardWatcherWorker>>,
    pub inbound_clipboard_sync: Arc<InboundClipboardSyncWorker>,
    pub file_sync_orchestrator: Arc<FileSyncOrchestratorWorker>,
    pub apply_inbound: Arc<ApplyInboundClipboardUseCase>,
    pub clipboard_outbound: Arc<ClipboardOutboundFacade>,
}

impl<'a> DaemonRuntimeAssemblyInput<'a> {
    /// The capture use case of the daemon: it locks, commits receipts, and
    /// replaces the latest entry where no history is kept.
    pub open spec fn capture(self) -> CaptureClipboardUseCase {
        CaptureClipboardUseCase {
            inbound_receive_commit: Some(self.deps.storage.directory_receive.commit_inbound),
            list_entries: Some(self.deps.clipboard.entry_ports.list),
            ..self.deps.locking_capture()
        }
    }

    /// What makes new entries searchable.
    pub open spec fn live_indexer(self) -> ClipboardLiveIndexer {
        ClipboardLiveIndexer {
            clipboard_entry_repo: self.deps.clipboard.entry_ports.get,
            representation_policy: self.deps.clipboard.representation_policy,
            search_key_derivation: self.deps.search.search_key_derivation,
            search_pipeline: self.deps.search.search_pipeline,
            search_index: self.deps.search.search_index,
            event_repo: self.clipboard_event_reader_repo,
            entry_file_set_repo: self.deps.storage.entry_file_set_repo,
        }
    }

    /// What puts received blobs into files.
    pub open spec fn materializer(self) -> FileCacheBlobMaterializer {
        FileCacheBlobMaterializer {
            blob_transfer: self.blob_transfer_facade,
            file_cache_dir: self.file_cache_dir,
            get_attempt: self.deps.storage.directory_receive.get_attempt,
            claim_commit: self.deps.storage.directory_receive.claim_commit,
            record_publish: self.deps.storage.directory_receive.record_publish,
            clock: self.deps.system.clock,
            record_artifacts: self.deps.storage.directory_receive.record_artifacts,
            target_settings: self.deps.settings,
        }
    }

    /// What sends captures to other devices.
    pub open spec fn outbound(self) -> ClipboardOutboundFacade {
        ClipboardOutboundFacade {
            settings: self.deps.settings,
            clipboard_sync: self.clipboard_sync_facade,
            blob_transfer: self.blob_transfer_facade,
            event_repo: self.clipboard_event_reader_repo,
            snapshot: self.deps.snapshot_parts(),
            entry_delivery_repo: self.entry_delivery_repo,
            trusted_peer_repo: self.trusted_peer_repo,
            device_identity: self.deps.device.device_identity,
            entry_file_set_repo: self.deps.storage.entry_file_set_repo,
        }
    }

    /// There is a system clipboard to watch.
    pub open spec fn watches(self) -> bool {
        self.run_mode.takes_system_clipboard && self.system_clipboard_wiring
            == SystemClipboardWiring::Real
    }

    /// The worker watches the system clipboard of this daemon.
    pub open spec fn watched_by(self, worker: ClipboardWatcherWorker) -> bool {
        let handler = *worker.handler;
        &&& worker.local_clipboard == self.deps.clipboard.system_clipboard
        &&& handler.event_tx == self.event_tx
        &&& handler.clipboard_change_origin == self.deps.clipboard.clipboard_change_origin
        &&& handler.capture_gate == self.clipboard_capture_gate
        &&& *handler.capture.capture == self.capture()
        &&& handler.capture.clipboard == self.deps.clipboard.clipboard
        &&& handler.capture.entry_file_set_repository is None
        &&& *handler.live_index == self.live_indexer()
        &&& *handler.outbound == self.outbound()
        &&& handler.active_register == (LocalActiveRegisterAdvancer {
            active_register: self.deps.clipboard.active_register,
            device_identity: self.deps.device.device_identity,
            clock: self.deps.system.clock,
            mobile_consumability: self.deps.clipboard.mobile_consumability,
        })
    }

    /// The delivery side of the daemon. It is the one that owns the clipboard
    /// of the user, so content that is there already is brought back to it.
    pub open spec fn delivered_to(self, apply: ApplyInboundClipboardUseCase) -> bool {
        &&& takes_deliveries(*self.deps, apply)
        &&& *apply.capture == self.capture()
        &&& apply.write == InboundWrite::Coordinator(self.clipboard_write_coordinator)
        &&& apply.blob_materializer matches Some(materializer) && *materializer
            == self.materializer()
        &&& apply.provisional_receive == Some(self.deps.storage.file_transfer.finalize_provisional)
        &&& apply.receive_readiness == Some(self.receive_readiness)
        &&& apply.host_event_emitter == Some(self.host_event_bus)
        &&& apply.search_live_index matches Some(indexer) && *indexer == self.live_indexer()
        &&& apply.resurface == Some(
            ResurfaceDeps {
                snapshot: self.deps.snapshot_parts(),
                touch: self.deps.clipboard.entry_ports.touch,
            },
        )
    }
}

fn watcher(
    input: &DaemonRuntimeAssemblyInput<'_>,
    capture: Arc<CaptureClipboardUseCase>,
    live_index: Arc<ClipboardLiveIndexer>,
    outbound: Arc<ClipboardOutboundFacade>,
) -> (r: ClipboardWatcherWorker)
    requires
        *capture == input.capture(),
        *live_index == input.live_indexer(),
        *outbound == input.outbound(),
    ensures
        input.watched_by(r),
{
    ClipboardWatcherWorker {
        local_clipboard: input.deps.clipboard.system_clipboard,
        handler: Arc::new(
            DaemonClipboardChangeHandler {
                event_tx: input.event_tx,
                clipboard_change_origin: input.deps.clipboard.clipboard_change_origin,
                capture_gate: input.clipboard_capture_gate,
                capture: Arc::new(
                    ClipboardCaptureFacade {
                        capture,
                        clipboard: input.deps.clipboard.clipboard,
                        entry_file_set_repository: None,
                    },
                ),
                live_index,
                outbound,
                active_register: LocalActiveRegisterAdvancer {
                    active_register: input.deps.clipboard.active_register,
                    device_identity: input.deps.device.device_identity,
                    clock: input.deps.system.clock,
                    mobile_consumability: input.deps.clipboard.mobile_consumability,
                },
            },
        ),
    }
}

/// Puts the workers of the daemon together. The system clipboard is watched
/// exactly where the daemon takes it over and it is the real one; everything
/// else does not depend on that.
pub fn build_daemon_runtime_workers(input: DaemonRuntimeAssemblyInput<'_>) -> (r:
    DaemonRuntimeWorkers)
    ensures
        r.clipboard_watcher is Some <==> input.watches(),
        r.clipboard_watcher matches Some(worker) ==> input.watched_by(*worker),
        input.delivered_to(*r.apply_inbound),
        r.inbound_clipboard_sync.clipboard_sync == input.clipboard_sync_facade,
        r.inbound_clipboard_sync.inbound == r.apply_inbound,
        r.inbound_clipboard_sync.event_tx == input.event_tx,
        *r.file_sync_orchestrator == (FileSyncOrchestratorWorker {
            file_transfer_lifecycle: input.file_transfer_lifecycle,
            blob_transfer: input.blob_transfer_facade,
        }),
        *r.clipboard_outbound == input.outbound(),
{
    let deps: &AppDeps = input.deps;
    let capture: Arc<CaptureClipboardUseCase> = Arc::new(
        deps.capture_use_case().with_inbound_receive_commit(
            deps.storage.directory_receive.commit_inbound,
        ).with_list_entries(deps.clipboard.entry_ports.list),
    );
    let materializer = FileCacheBlobMaterializer {
        blob_transfer: input.blob_transfer_facade,
        file_cache_dir: input.file_cache_dir,
        get_attempt: deps.storage.directory_receive.get_attempt,
        claim_commit: deps.storage.directory_receive.claim_commit,
        record_publish: deps.storage.directory_receive.record_publish,
        clock: deps.system.clock,
        record_artifacts: deps.storage.directory_receive.record_artifacts,
        target_settings: deps.settings,
    };
    let live_index: Arc<ClipboardLiveIndexer> = Arc::new(
        ClipboardLiveIndexer {
            clipboard_entry_repo: deps.clipboard.entry_ports.get,
            representation_policy: deps.clipboard.representation_policy,
            search_key_derivation: deps.search.search_key_derivation,
            search_pipeline: deps.search.search_pipeline,
            search_index: deps.search.search_index,
            event_repo: input.clipboard_event_reader_repo,
            entry_file_set_repo: deps.storage.entry_file_set_repo,
        },
    );
    let apply_inbound: Arc<ApplyInboundClipboardUseCase> = Arc::new(
        ApplyInboundClipboardUseCase {
            find_entry_by_snapshot_hash: deps.clipboard.entry_ports.find_by_snapshot_hash,
            capture: share(&capture),
            write: InboundWrite::Coordinator(input.clipboard_write_coordinator),
            receive_attempts: deps.receive_attempt_ports(),
            cleans_receive_artifacts: true,
            active_register: ActiveRegisterPorts {
                active_register: deps.clipboard.active_register,
                mobile_consumability: deps.clipboard.mobile_consumability,
            },
            check_entry_availability: deps.clipboard.entry_ports.availability,
            coordinator: deps.clipboard.entry_identity_coordinator,
            blob_materializer: Some(Arc::new(materializer)),
            provisional_receive: Some(deps.storage.file_transfer.finalize_provisional),
            receive_readiness: Some(input.receive_readiness),
            host_event_emitter: Some(input.host_event_bus),
            search_live_index: Some(share(&live_index)),
            resurface: Some(
                ResurfaceDeps {
                    snapshot: deps.snapshot_deps(),
                    touch: deps.clipboard.entry_ports.touch,
                },
            ),
        },
    );
    let clipboard_outbound: Arc<ClipboardOutboundFacade> = Arc::new(
        ClipboardOutboundFacade {
            settings: deps.settings,
            clipboard_sync: input.clipboard_sync_facade,
            blob_transfer: input.blob_transfer_facade,
            event_repo: input.clipboard_event_reader_repo,
            snapshot: deps.snapshot_deps(),
            entry_delivery_repo: input.entry_delivery_repo,
            trusted_peer_repo: input.trusted_peer_repo,
            device_identity: deps.device.device_identity,
            entry_file_set_repo: deps.storage.entry_file_set_repo,
        },
    );
    let assemble_watcher: bool = input.run_mode.runs_system_clipboard()
        && input.system_clipboard_wiring == SystemClipboardWiring::Real;
    let clipboard_watcher: Option<Arc<ClipboardWatcherWorker>> = if assemble_watcher {
        Some(Arc::new(watcher(&input, capture, live_index, share(&clipboard_outbound))))
    } else {
        None
    };
    let inbound_clipboard_sync = InboundClipboardSyncWorker {
        clipboard_sync: input.clipboard_sync_facade,
        inbound: share(&apply_inbound),
        event_tx: input.event_tx,
    };
    DaemonRuntimeWorkers {
        clipboard_watcher,
        inbound_clipboard_sync: Arc::new(inbound_clipboard_sync),
        file_sync_orchestrator: Arc::new(
            FileSyncOrchestratorWorker {
                file_transfer_lifecycle: input.file_transfer_lifecycle,
                blob_transfer: input.blob_transfer_facade,
            },
        ),
        apply_inbound,
        clipboard_outbound,
    }
}

/// Every process on the same ports locks by the same coordinator, in its
/// captures and in its deliveries: however many use cases there are, one
/// content is written by one of them at a time.
pub proof fn writers_share_a_coordinator(
    input: DaemonRuntimeAssemblyInput<'_>,
    daemon: ApplyInboundClipboardUseCase,
    fallback: ApplyInboundClipboardUseCase,
    at_once: ClipboardCaptureFacade,
)
    requires
        input.delivered_to(daemon),
        takes_deliveries(*input.deps, fallback),
        captures_at_once(*input.deps, at_once),
    ensures
        daemon.coordinator == input.deps.clipboard.entry_identity_coordinator,
        fallback.coordinator == daemon.coordinator,
        daemon.capture.coordinator == Some(daemon.coordinator),
        at_once.capture.coordinator == Some(daemon.coordinator),
{
}

/// What a process without the workers stores of a delivery is what the daemon
/// stores: its capture is that of the daemon but for the listing of entries,
/// and whatever other devices send is captured the same with it and without.
pub proof fn the_fallback_captures_like_the_daemon(
    input: DaemonRuntimeAssemblyInput<'_>,
    daemon: ApplyInboundClipboardUseCase,
    fallback: ApplyInboundClipboardUseCase,
    draft: Draft,
    replies: Seq<CaptureReply>,
)
    requires
        input.delivered_to(daemon),
        falls_back(*input.deps, fallback),
        draft.use_case == *daemon.capture,
        draft.origin != ClipboardChangeOrigin::LocalCapture,
    ensures
        *fallback.capture == listing_by(*daemon.capture, None),
        capture_after(draft_listing_by(draft, None), replies) == state_listing_by(
            capture_after(draft, replies),
            None,
        ),
        draft_listing_by(draft, None).use_case == *fallback.capture,
        capture_after(draft, replies) is Done ==> capture_after(
            draft_listing_by(draft, None),
            replies,
        ) == capture_after(draft, replies),
{
    only_local_captures_use_the_listing(draft, replies, None);
}

/// Without a system clipboard the workers are the same but for the watcher.
pub proof fn only_the_watcher_needs_the_clipboard(
    here: DaemonRuntimeAssemblyInput<'_>,
    there: DaemonRuntimeAssemblyInput<'_>,
    apply: ApplyInboundClipboardUseCase,
)
    requires
        there == (DaemonRuntimeAssemblyInput {
            run_mode: there.run_mode,
            system_clipboard_wiring: there.system_clipboard_wiring,
            ..here
        }),
    ensures
        here.delivered_to(apply) <==> there.delivered_to(apply),
        here.outbound() == there.outbound(),
{
}

} // verus!

//! The application in the process of a single command.

use crate::bootstrap::{
    AppFacadeAssemblyOptions, build_app_facade_from_deps, build_fallback_apply_inbound,
    falls_back, has_common_parts, has_mobile_sync, keeps_history,
};
use crate::deps::{AppDeps, AppPaths};
use crate::facades::{
    AppFacade, ClipboardOutboundFacade, LifecycleStatus, SearchCoordinator,
};
use crate::records::{HostRef, PortRef};
use std::sync::Arc;
use vstd::prelude::*;

verus! {

/// What a process shares besides the ports of the application.
#[derive(Clone, Copy, Debug, PartialEq, Eq, Structural)]
pub struct SharedWiring {
    pub clipboard_event_reader_repo: PortRef,
    pub entry_delivery_repo: PortRef,
    pub trusted_peer_repo: PortRef,
    pub file_transfer_facade: PortRef,
}

/// The wiring of a process.
#[derive(Clone, Copy, Debug, PartialEq, Eq, Structural)]
pub struct WiredContext {
    pub deps: AppDeps,
    pub shared: SharedWiring,
    /// The prober of relays, where it could be set up.
    pub relay_probe: Option<PortRef>,
}

/// The settings of the network.
pub struct NetworkSettings {
    pub allow_relay_fallback: bool,
    pub allow_overlay_network_addrs: bool,
    pub custom_relay_urls: Vec<String>,
    pub congestion_controller: HostRef,
}

/// The synchronization engine, bound to the network.
#[derive(Clone, Copy, Debug, PartialEq, Eq, Structural)]
pub struct SyncEngineAssembly {
    /// What is shut down at the end.
    pub engine: PortRef,
    pub facade: PortRef,
    pub roster: PortRef,
    pub clipboard_sync: PortRef,
    pub blob: PortRef,
    pub blob_transfer: PortRef,
}

/// The application of a single command.
pub struct CliAppRuntime {
    pub app_facade: Arc<AppFacade>,
    pub sync_engine_assembly: Option<SyncEngineAssembly>,
}

impl CliAppRuntime {
    /// The way into the application.
    pub fn app_facade(&self) -> (r: &Arc<AppFacade>)
        ensures
            *r == self.app_facade,
    {
        &self.app_facade
    }

    /// Gives the runtime up. What is returned is to be shut down before the
    /// process ends.
    pub fn shutdown(self) -> (r: Option<SyncEngineAssembly>)
        ensures
            r == self.sync_engine_assembly,
    {
        self.sync_engine_assembly
    }
}

/// Why the application could not be put together.
#[derive(Debug, PartialEq, Eq)]
pub enum CliStartupError {
    /// The process could not be wired.
    Wiring(String),
    /// There is no place to store things.
    StoragePaths(String),
    /// The settings could not be loaded.
    Settings(String),
    /// The network could not be bound.
    Bind(String),
}

impl CliStartupError {
    /// The error in words.
    pub open spec fn words(self) -> Seq<char> {
        match self {
            CliStartupError::Wiring(cause) => cause@,
            CliStartupError::StoragePaths(cause) => cause@,
            CliStartupError::Settings(cause) => "settings load failed at startup: "@ + cause@,
            CliStartupError::Bind(cause) => "failed to bind iroh endpoint: "@ + cause@,
        }
    }

    /// The error in words.
    pub fn message(&self) -> (r: String)
        ensures
            r@ == self.words(),
    {
        match self {
            CliStartupError::Wiring(cause) => cause.clone(),
            CliStartupError::StoragePaths(cause) => cause.clone(),
            CliStartupError::Settings(cause) => {
                "settings load failed at startup: ".to_string().concat(cause.as_str())
            },
            CliStartupError::Bind(cause) => {
                "failed to bind iroh endpoint: ".to_string().concat(cause.as_str())
            },
        }
    }
}

/// The start of a process, named by what it waits for.
pub enum CliStartup {
    /// The wiring.
    Wiring { app_version: String },
    /// The storage paths.
    StoragePaths { app_version: String, wired: WiredContext },
    /// The settings.
    Settings { app_version: String, wired: WiredContext, paths: AppPaths },
    /// The synchronization engine, bound as the settings of the network say.
    Bind {
        app_version: String,
        wired: WiredContext,
        paths: AppPaths,
        network: NetworkSettings,
    },
    /// Nothing.
    Finished { result: Result<CliAppRuntime, CliStartupError> },
}

/// What the host answers.
pub enum CliStartupReply {
    Wired(Result<WiredContext, String>),
    StoragePaths(Result<AppPaths, String>),
    Settings(Result<NetworkSettings, String>),
    Bound(Result<SyncEngineAssembly, String>),
}

/// What the start of a process asks its host for.
pub enum CliStartupRequest<'a> {
    Wire,
    StoragePaths,
    LoadSettings { port: PortRef },
    Bind { wired: &'a WiredContext, network: &'a NetworkSettings },
    Nothing,
}

/// The outbound side of a command, which sends entries once more itself.
pub open spec fn cli_outbound(
    wired: WiredContext,
    assembly: SyncEngineAssembly,
) -> ClipboardOutboundFacade {
    ClipboardOutboundFacade {
        settings: wired.deps.settings,
        clipboard_sync: assembly.clipboard_sync,
        blob_transfer: assembly.blob,
        event_repo: wired.shared.clipboard_event_reader_repo,
        snapshot: wired.deps.snapshot_parts(),
        entry_delivery_repo: wired.shared.entry_delivery_repo,
        trusted_peer_repo: wired.shared.trusted_peer_repo,
        device_identity: wired.deps.device.device_identity,
        entry_file_set_repo: wired.deps.storage.entry_file_set_repo,
    }
}

/// What keeps the search index of a command up to date.
pub open spec fn cli_search(deps: AppDeps) -> SearchCoordinator {
    SearchCoordinator {
        search_index: deps.search.search_index,
        search_maintenance: deps.search.search_maintenance,
        search_key_derivation: deps.search.search_key_derivation,
        search_pipeline: deps.search.search_pipeline,
        entry_list: deps.clipboard.entry_ports.list,
        entry_repo: deps.clipboard.entry_ports.get,
        representations_for_event: deps.clipboard.representation_ports.list_for_event,
        selection_repo: deps.clipboard.selection_repo,
        event_repo: deps.clipboard.clipboard_event_reader_repo,
        entry_file_set_repo: deps.storage.entry_file_set_repo,
    }
}

/// The runtime is the application on this wiring, with everything that the
/// engine brings, and holds the engine until it is shut down. What mobile
/// devices send is stored and goes no further.
pub open spec fn runs_on(
    runtime: CliAppRuntime,
    wired: WiredContext,
    paths: AppPaths,
    app_version: String,
    assembly: SyncEngineAssembly,
) -> bool {
    let app = *runtime.app_facade;
    &&& runtime.sync_engine_assembly == Some(assembly)
    &&& has_common_parts(wired.deps, paths, app)
    &&& app.mobile_sync matches Some(mobile) && {
        &&& falls_back(wired.deps, *mobile.apply_inbound)
        &&& has_mobile_sync(
            wired.deps,
            paths,
            Some(mobile.apply_inbound),
            Some(wired.shared.file_transfer_facade),
            app.mobile_sync,
        )
    }
    &&& app.space_setup == Some(assembly.facade)
    &&& app.member_roster == Some(assembly.roster)
    &&& app.lifecycle.status == LifecycleStatus::InMemory
    &&& *app.clipboard_history == keeps_history(wired.deps, paths, Some(assembly.blob_transfer))
    &&& app.clipboard_sync == Some(assembly.clipboard_sync)
    &&& app.blob_transfer == Some(assembly.blob)
    &&& app.clipboard_outbound matches Some(outbound) && *outbound == cli_outbound(wired, assembly)
    &&& app.file_transfer == Some(wired.shared.file_transfer_facade)
    &&& app.clipboard_restore is None
    &&& app.search.coordinator matches Some(search) && *search == cli_search(wired.deps)
    &&& app.settings.relay_diagnostic == wired.relay_probe
    &&& app.diagnostics.app_version == app_version
}

/// Puts the application of a command together, once the engine is bound.
pub fn assemble_cli_app_runtime(
    wired: WiredContext,
    paths: AppPaths,
    app_version: String,
    assembly: SyncEngineAssembly,
) -> (r: CliAppRuntime)
    ensures
        runs_on(r, wired, paths, app_version, assembly),
{
    let deps: AppDeps = wired.deps;
    let search_coordinator = SearchCoordinator {
        search_index: deps.search.search_index,
        search_maintenance: deps.search.search_maintenance,
        search_key_derivation: deps.search.search_key_derivation,
        search_pipeline: deps.search.search_pipeline,
        entry_list: deps.clipboard.entry_ports.list,
        entry_repo: deps.clipboard.entry_ports.get,
        representations_for_event: deps.clipboard.representation_ports.list_for_event,
        selection_repo: deps.clipboard.selection_repo,
        event_repo: deps.clipboard.clipboard_event_reader_repo,
        entry_file_set_repo: deps.storage.entry_file_set_repo,
    };
    let clipboard_outbound = ClipboardOutboundFacade {
        settings: deps.settings,
        clipboard_sync: assembly.clipboard_sync,
        blob_transfer: assembly.blob,
        event_repo: wired.shared.clipboard_event_reader_repo,
        snapshot: deps.snapshot_deps(),
        entry_delivery_repo: wired.shared.entry_delivery_repo,
        trusted_peer_repo: wired.shared.trusted_peer_repo,
        device_identity: deps.device.device_identity,
        entry_file_set_repo: deps.storage.entry_file_set_repo,
    };
    let options = AppFacadeAssemblyOptions {
        space_setup: Some(assembly.facade),
        member_roster: Some(assembly.roster),
        clipboard_sync: Some(assembly.clipboard_sync),
        blob_transfer: Some(assembly.blob),
        clipboard_outbound: Some(Arc::new(clipboard_outbound)),
        file_transfer: Some(wired.shared.file_transfer_facade),
        blob_transfer_port: Some(assembly.blob_transfer),
        clipboard_restore: None,
        search_coordinator: Some(Arc::new(search_coordinator)),
        mobile_sync_apply_inbound: Some(build_fallback_apply_inbound(&deps)),
    };
    let app_facade: Arc<AppFacade> = build_app_facade_from_deps(
        &deps,
        &paths,
        LifecycleStatus::InMemory,
        wired.relay_probe,
        app_version,
        options,
    );
    CliAppRuntime { app_facade, sync_engine_assembly: Some(assembly) }
}

/// Starts to put the application of a command together.
pub fn build_cli_app_runtime(app_version: String) -> (r: CliStartup)
    ensures
        r == (CliStartup::Wiring { app_version }),
{
    CliStartup::Wiring { app_version }
}

impl CliStartup {
    /// The request is the one that the start waits to have answered.
    pub open spec fn awaits(&self, request: CliStartupRequest<'_>) -> bool {
        match *self {
            CliStartup::Wiring { app_version } => request is Wire,
            CliStartup::StoragePaths { app_version, wired } => request is StoragePaths,
            CliStartup::Settings { app_version, wired, paths } => request
                == (CliStartupRequest::LoadSettings { port: wired.deps.settings }),
            CliStartup::Bind { app_version, wired, paths, network } => request
                == (CliStartupRequest::Bind { wired: &wired, network: &network }),
            CliStartup::Finished { result } => request is Nothing,
        }
    }

    /// What the start waits for.
    pub fn request(&self) -> (r: CliStartupRequest<'_>)
        ensures
            self.awaits(r),
    {
        match self {
            CliStartup::Wiring { app_version: _ } => CliStartupRequest::Wire,
            CliStartup::StoragePaths { app_version: _, wired: _ } => {
                CliStartupRequest::StoragePaths
            },
            CliStartup::Settings { app_version: _, wired, paths: _ } => {
                CliStartupRequest::LoadSettings { port: wired.deps.settings }
            },
            CliStartup::Bind { app_version: _, wired, paths: _, network } => {
                CliStartupRequest::Bind { wired, network }
            },
            CliStartup::Finished { result: _ } => CliStartupRequest::Nothing,
        }
    }

    /// What an answer leads to: the next question, an error, or the runtime.
    /// An answer to another question than the one that was asked changes
    /// nothing.
    pub open spec fn leads_to(self, reply: CliStartupReply, next: CliStartup) -> bool {
        match self {
            CliStartup::Wiring { app_version } => match reply {
                CliStartupReply::Wired(Ok(wired)) => next == (CliStartup::StoragePaths {
                    app_version,
                    wired,
                }),
                CliStartupReply::Wired(Err(cause)) => next.failed_with(
                    CliStartupError::Wiring(cause),
                ),
                _ => next == self,
            },
            CliStartup::StoragePaths { app_version, wired } => match reply {
                CliStartupReply::StoragePaths(Ok(paths)) => next == (CliStartup::Settings {
                    app_version,
                    wired,
                    paths,
                }),
                CliStartupReply::StoragePaths(Err(cause)) => next.failed_with(
                    CliStartupError::StoragePaths(cause),
                ),
                _ => next == self,
            },
            CliStartup::Settings { app_version, wired, paths } => match reply {
                CliStartupReply::Settings(Ok(network)) => next == (CliStartup::Bind {
                    app_version,
                    wired,
                    paths,
                    network,
                }),
                CliStartupReply::Settings(Err(cause)) => next.failed_with(
                    CliStartupError::Settings(cause),
                ),
                _ => next == self,
            },
            CliStartup::Bind { app_version, wired, paths, network } => match reply {
                CliStartupReply::Bound(Ok(assembly)) => next matches CliStartup::Finished {
                    result: Ok(runtime),
                } && runs_on(runtime, wired, paths, app_version, assembly),
                CliStartupReply::Bound(Err(cause)) => next.failed_with(
                    CliStartupError::Bind(cause),
                ),
                _ => next == self,
            },
            CliStartup::Finished { result } => next == self,
        }
    }

    /// The start has failed.
    pub open spec fn failed_with(self, error: CliStartupError) -> bool {
        self == (CliStartup::Finished { result: Err(error) })
    }

    /// Goes on with an answer.
    pub fn resume(self, reply: CliStartupReply) -> (r: Self)
        ensures
            self.leads_to(reply, r),
    {
        match self {
            CliStartup::Wiring { app_version } => match reply {
                CliStartupReply::Wired(Ok(wired)) => CliStartup::StoragePaths {
                    app_version,
                    wired,
                },
                CliStartupReply::Wired(Err(cause)) => CliStartup::Finished {
                    result: Err(CliStartupError::Wiring(cause)),
                },
                _ => CliStartup::Wiring { app_version },
            },
            CliStartup::StoragePaths { app_version, wired } => match reply {
                CliStartupReply::StoragePaths(Ok(paths)) => CliStartup::Settings {
                    app_version,
                    wired,
                    paths,
                },
                CliStartupReply::StoragePaths(Err(cause)) => CliStartup::Finished {
                    result: Err(CliStartupError::StoragePaths(cause)),
                },
                _ => CliStartup::StoragePaths { app_version, wired },
            },
            CliStartup::Settings { app_version, wired, paths } => match reply {
                CliStartupReply::Settings(Ok(network)) => CliStartup::Bind {
                    app_version,
                    wired,
                    paths,
                    network,
                },
                CliStartupReply::Settings(Err(cause)) => CliStartup::Finished {
                    result: Err(CliStartupError::Settings(cause)),
                },
                _ => CliStartup::Settings { app_version, wired, paths },
            },
            CliStartup::Bind { app_version, wired, paths, network } => match reply {
                CliStartupReply::Bound(Ok(assembly)) => CliStartup::Finished {
                    result: Ok(assemble_cli_app_runtime(wired, paths, app_version, assembly)),
                },
                CliStartupReply::Bound(Err(cause)) => CliStartup::Finished {
                    result: Err(CliStartupError::Bind(cause)),
                },
                _ => CliStartup::Bind { app_version, wired, paths, network },
            },
            CliStartup::Finished { result } => CliStartup::Finished { result },
        }
    }
}

} // verus!

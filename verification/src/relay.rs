//! The probing of relays, between the network layer and the settings.

use vstd::prelude::*;

verus! {

/// What a probe of the network layer found.
#[derive(Clone, Copy, Debug, PartialEq, Eq, Structural)]
pub struct IrohRelayProbeReport {
    pub latency_ms: u64,
}

/// Why a probe of the network layer failed.
#[derive(Debug, PartialEq, Eq)]
pub enum IrohRelayProbeError {
    InvalidUrl(String),
    Dns(String),
    Tls(String),
    Handshake(String),
    Timeout,
    Other(String),
}

/// What a probe found, as the settings show it.
#[derive(Clone, Copy, Debug, PartialEq, Eq, Structural)]
pub struct RelayProbeReport {
    pub latency_ms: u64,
}

/// Why a probe failed, as the settings show it.
#[derive(Debug, PartialEq, Eq)]
pub enum RelayProbeError {
    InvalidUrl(String),
    Dns(String),
    Tls(String),
    Handshake(String),
    Timeout,
    Other(String),
}

/// What a probe found, as the settings show it.
pub fn map_relay_probe_report(report: IrohRelayProbeReport) -> (r: RelayProbeReport)
    ensures
        r.latency_ms == report.latency_ms,
{
    RelayProbeReport { latency_ms: report.latency_ms }
}

/// The same failure on the side of the settings.
pub open spec fn shown_error(error: IrohRelayProbeError) -> RelayProbeError {
    match error {
        IrohRelayProbeError::InvalidUrl(words) => RelayProbeError::InvalidUrl(words),
        IrohRelayProbeError::Dns(words) => RelayProbeError::Dns(words),
        IrohRelayProbeError::Tls(words) => RelayProbeError::Tls(words),
        IrohRelayProbeError::Handshake(words) => RelayProbeError::Handshake(words),
        IrohRelayProbeError::Timeout => RelayProbeError::Timeout,
        IrohRelayProbeError::Other(words) => RelayProbeError::Other(words),
    }
}

/// Why a probe failed, as the settings show it.
pub fn map_relay_probe_error(error: IrohRelayProbeError) -> (r: RelayProbeError)
    ensures
        r == shown_error(error),
{
    match error {
        IrohRelayProbeError::InvalidUrl(words) => RelayProbeError::InvalidUrl(words),
        IrohRelayProbeError::Dns(words) => RelayProbeError::Dns(words),
        IrohRelayProbeError::Tls(words) => RelayProbeError::Tls(words),
        IrohRelayProbeError::Handshake(words) => RelayProbeError::Handshake(words),
        IrohRelayProbeError::Timeout => RelayProbeError::Timeout,
        IrohRelayProbeError::Other(words) => RelayProbeError::Other(words),
    }
}

/// The outcome of a probe, as the settings show it.
pub fn map_relay_probe(probed: Result<IrohRelayProbeReport, IrohRelayProbeError>) -> (r: Result<
    RelayProbeReport,
    RelayProbeError,
>)
    ensures
        match probed {
            Ok(report) => r == Ok::<RelayProbeReport, RelayProbeError>(
                RelayProbeReport { latency_ms: report.latency_ms },
            ),
            Err(error) => r == Err::<RelayProbeReport, RelayProbeError>(shown_error(error)),
        },
{
    match probed {
        Ok(report) => Ok(map_relay_probe_report(report)),
        Err(error) => Err(map_relay_probe_error(error)),
    }
}

/// No two failures are shown alike.
pub proof fn shown_errors_are_told_apart(a: IrohRelayProbeError, b: IrohRelayProbeError)
    requires
        shown_error(a) == shown_error(b),
    ensures
        a == b,
{
}

} // verus!

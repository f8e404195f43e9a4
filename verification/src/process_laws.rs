//! What the processes around the history do.

use crate::cleanup::{
    CLEANUP_INTERVAL_SECS, CleanupEvent, CleanupNote, CleanupPass, CleanupReply, CleanupService,
    CleanupWorker, FileCleanupResult, ReconcileResult, RetentionResult,
};
use crate::facades::{ClipboardHistoryFacade, InboundWrite};
use crate::integration::{
    ClipboardIntegrationMode, names_a_mode, parse_clipboard_integration_mode,
};
use crate::records::PortRef;
use crate::relay::{
    IrohRelayProbeError, IrohRelayProbeReport, RelayProbeError, RelayProbeReport, map_relay_probe,
    map_relay_probe_error, map_relay_probe_report,
};
use crate::text_laws::{is_word, lemma_words};
use std::sync::Arc;
use vstd::prelude::*;

verus! {

/// A process leaves the clipboard alone exactly where it is told `passive`, in
/// any case and with nothing around it; a text names a mode where it is
/// `passive` or `full`.
pub proof fn only_passive_is_passive(
    raw: Option<&str>,
    mode: ClipboardIntegrationMode,
    text: &str,
    named: bool,
)
    requires
        call_ensures(parse_clipboard_integration_mode, (raw,), mode),
        call_ensures(names_a_mode, (text,), named),
    ensures
        mode == ClipboardIntegrationMode::Passive <==> (raw matches Some(told) && is_word(
            told@,
            "passive"@,
        )),
        mode == ClipboardIntegrationMode::Full <==> !(raw matches Some(told) && is_word(
            told@,
            "passive"@,
        )),
        named <==> is_word(text@, "passive"@) || is_word(text@, "full"@),
{
    lemma_words();
}

/// A probe is shown as it ended: with its latency, or with the failure of the
/// same name and in the same words.
pub proof fn probes_are_shown_as_they_ended(
    probed: Result<IrohRelayProbeReport, IrohRelayProbeError>,
    r: Result<RelayProbeReport, RelayProbeError>,
    report: IrohRelayProbeReport,
    shown: RelayProbeReport,
    error: IrohRelayProbeError,
    told: RelayProbeError,
)
    requires
        call_ensures(map_relay_probe, (probed,), r),
        call_ensures(map_relay_probe_report, (report,), shown),
        call_ensures(map_relay_probe_error, (error,), told),
    ensures
        shown.latency_ms == report.latency_ms,
        error matches IrohRelayProbeError::InvalidUrl(words) ==> told
            == RelayProbeError::InvalidUrl(words),
        error matches IrohRelayProbeError::Dns(words) ==> told == RelayProbeError::Dns(words),
        error matches IrohRelayProbeError::Tls(words) ==> told == RelayProbeError::Tls(words),
        error matches IrohRelayProbeError::Handshake(words) ==> told == RelayProbeError::Handshake(
            words,
        ),
        error is Timeout ==> told is Timeout,
        error matches IrohRelayProbeError::Other(words) ==> told == RelayProbeError::Other(words),
        probed matches Ok(found) ==> (r matches Ok(seen) && seen.latency_ms == found.latency_ms),
        probed matches Err(failure) ==> (r matches Err(seen) && (failure == error ==> seen
            == told)),
{
}

/// A write of a delivery goes to the coordinator, where there is one.
pub proof fn deliveries_are_written_where_they_can_be(
    target: InboundWrite,
    r: Option<PortRef>,
)
    requires
        call_ensures(InboundWrite::write, (&target,), r),
    ensures
        target matches InboundWrite::Coordinator(port) ==> r == Some(port),
        target is Noop ==> r is None,
{
}

/// A pass reconciles, then cleans the file cache, then applies retention, and
/// is finished; only a failure to reconcile ends it before. Any other answer
/// changes nothing.
pub proof fn passes_do_their_jobs_in_order(
    reconciled: Result<ReconcileResult, String>,
    cleaned: Result<FileCleanupResult, String>,
    enforced: Result<RetentionResult, String>,
    pass: CleanupPass,
    reply: CleanupReply,
)
    ensures
        reconciled is Ok ==> CleanupPass::Reconcile.after(CleanupReply::Reconciled(reconciled))
            == CleanupPass::CleanupFileCache,
        reconciled is Err ==> CleanupPass::Reconcile.after(CleanupReply::Reconciled(reconciled))
            == CleanupPass::Finished,
        CleanupPass::CleanupFileCache.after(CleanupReply::FileCacheCleaned(cleaned))
            == CleanupPass::EnforceRetention,
        CleanupPass::EnforceRetention.after(CleanupReply::RetentionEnforced(enforced))
            == CleanupPass::Finished,
        pass == CleanupPass::Reconcile && reply !is Reconciled ==> pass.after(reply) == pass,
        pass == CleanupPass::CleanupFileCache && reply !is FileCacheCleaned ==> pass.after(reply)
            == pass,
        pass == CleanupPass::EnforceRetention && reply !is RetentionEnforced ==> pass.after(reply)
            == pass,
        pass == CleanupPass::Finished ==> pass.after(reply) == pass,
{
}

/// A job that failed is noted as a warning; one that did something, or met
/// errors where it counts them, by a report; and one with nothing to do not
/// at all.
pub proof fn jobs_are_noted_by_what_they_did(
    reconciled: Result<ReconcileResult, String>,
    first: (bool, CleanupNote),
    cleaned: Result<FileCleanupResult, String>,
    second: CleanupNote,
    enforced: Result<RetentionResult, String>,
    third: CleanupNote,
)
    requires
        call_ensures(CleanupWorker::reconcile, (reconciled,), first),
        call_ensures(CleanupWorker::cleanup_file_cache, (cleaned,), second),
        call_ensures(CleanupWorker::enforce_retention, (enforced,), third),
    ensures
        first.0 <==> reconciled is Ok,
        first.1 == CleanupNote::Warning <==> reconciled is Err,
        first.1 == CleanupNote::Report <==> (reconciled matches Ok(done) && (done.entries_deleted
            != 0 || done.errors != 0)),
        second == CleanupNote::Warning <==> cleaned is Err,
        second == CleanupNote::Report <==> (cleaned matches Ok(done) && done.files_removed != 0),
        third == CleanupNote::Warning <==> enforced is Err,
        third == CleanupNote::Report <==> (enforced matches Ok(done) && (done.entries_deleted != 0
            || done.errors != 0)),
{
}

/// A pass that goes on after a job goes where the job takes it, and the job is
/// noted as such.
pub proof fn passes_note_their_jobs(pass: CleanupPass, reply: CleanupReply, r: (
    CleanupPass,
    CleanupNote,
))
    requires
        call_ensures(CleanupPass::resume, (pass, reply), r),
    ensures
        r.0 == pass.after(reply),
        pass == CleanupPass::Reconcile ==> (reply matches CleanupReply::Reconciled(result) ==> (
        r.1 == CleanupNote::Warning <==> result is Err) && (r.1 == CleanupNote::Report <==> (
        result matches Ok(done) && (done.entries_deleted != 0 || done.errors != 0)))),
        pass == CleanupPass::CleanupFileCache ==> (reply matches CleanupReply::FileCacheCleaned(
            result,
        ) ==> (r.1 == CleanupNote::Warning <==> result is Err) && (r.1 == CleanupNote::Report
            <==> (result matches Ok(done) && done.files_removed != 0))),
        pass == CleanupPass::EnforceRetention ==> (reply matches CleanupReply::RetentionEnforced(
            result,
        ) ==> (r.1 == CleanupNote::Warning <==> result is Err) && (r.1 == CleanupNote::Report
            <==> (result matches Ok(done) && (done.entries_deleted != 0 || done.errors != 0)))),
        r.0 == pass && !(pass == CleanupPass::Reconcile && reply is Reconciled || pass
            == CleanupPass::CleanupFileCache && reply is FileCacheCleaned || pass
            == CleanupPass::EnforceRetention && reply is RetentionEnforced) ==> r.1
            == CleanupNote::Quiet,
{
}

/// The service starts with a pass, waits behind each one, makes the next when
/// it is due and ends when it is told to while it waits. Passes are due every
/// half minute.
pub proof fn passes_follow_each_other(
    worker: CleanupWorker,
    started: CleanupService,
    first: CleanupPass,
    name: &'static str,
    pass: CleanupPass,
    reply: CleanupReply,
    event: CleanupEvent,
    made: CleanupWorker,
    history: Arc<ClipboardHistoryFacade>,
)
    requires
        call_ensures(CleanupWorker::start, (&worker,), started),
        call_ensures(CleanupWorker::run_jobs, (&worker,), first),
        call_ensures(CleanupWorker::name, (&worker,), name),
        call_ensures(CleanupWorker::new, (history,), made),
    ensures
        made.history_facade == history,
        first == CleanupPass::Reconcile,
        started == (CleanupService::Working { pass: CleanupPass::Reconcile }),
        name@ == "cleanup"@,
        CLEANUP_INTERVAL_SECS == 30,
        pass.after(reply) == CleanupPass::Finished ==> (CleanupService::Working { pass }).after(
            CleanupEvent::Job(reply),
        ) == CleanupService::Waiting,
        pass.after(reply) != CleanupPass::Finished ==> (CleanupService::Working { pass }).after(
            CleanupEvent::Job(reply),
        ) == (CleanupService::Working { pass: pass.after(reply) }),
        CleanupService::Waiting.after(CleanupEvent::Due) == (CleanupService::Working {
            pass: CleanupPass::Reconcile,
        }),
        CleanupService::Waiting.after(CleanupEvent::Cancelled) == CleanupService::Stopped,
        CleanupService::Waiting.after(CleanupEvent::Job(reply)) == CleanupService::Waiting,
        (CleanupService::Working { pass }).after(CleanupEvent::Due) == (CleanupService::Working {
            pass,
        }),
        (CleanupService::Working { pass }).after(CleanupEvent::Cancelled) == (
        CleanupService::Working { pass }),
        CleanupService::Stopped.after(event) == CleanupService::Stopped,
{
}

/// The service goes where an event takes it, and notes the job that was done.
pub proof fn services_note_their_jobs(
    service: CleanupService,
    event: CleanupEvent,
    r: (CleanupService, CleanupNote),
)
    requires
        call_ensures(CleanupService::resume, (service, event), r),
    ensures
        r.0 == service.after(event),
        r.1 == CleanupNote::Warning <==> (service matches CleanupService::Working { pass } && (
        event matches CleanupEvent::Job(reply) && {
            ||| pass == CleanupPass::Reconcile && (reply matches CleanupReply::Reconciled(result)
                && result is Err)
            ||| pass == CleanupPass::CleanupFileCache && (
            reply matches CleanupReply::FileCacheCleaned(result) && result is Err)
            ||| pass == CleanupPass::EnforceRetention && (
            reply matches CleanupReply::RetentionEnforced(result) && result is Err)
        })),
        event !is Job ==> r.1 == CleanupNote::Quiet,
{
}

/// A job is noted by the service as by its pass.
pub proof fn services_note_jobs_as_passes_do(
    pass: CleanupPass,
    reply: CleanupReply,
    by_pass: (CleanupPass, CleanupNote),
    by_service: (CleanupService, CleanupNote),
)
    requires
        call_ensures(CleanupPass::resume, (pass, reply), by_pass),
        call_ensures(
            CleanupService::resume,
            (CleanupService::Working { pass }, CleanupEvent::Job(reply)),
            by_service,
        ),
    ensures
        by_service.1 == by_pass.1,
        by_pass.0 == CleanupPass::Finished <==> by_service.0 == CleanupService::Waiting,
        by_pass.0 != CleanupPass::Finished ==> by_service.0 == (CleanupService::Working {
            pass: by_pass.0,
        }),
{
}

} // verus!

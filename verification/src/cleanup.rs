//! The maintenance of the history in the background.
//!
//! One pass is made at the start and one every half minute until the daemon
//! ends. A pass does three jobs in a fixed order. The first drops entries
//! whose files are gone; where it fails the pass ends there, since the other
//! two must not come across such an entry. The second removes files that have
//! expired, the third applies the user's rules of retention; their failures
//! are not fatal.

use crate::facades::ClipboardHistoryFacade;
use std::sync::Arc;
use vstd::prelude::*;

verus! {

/// How long after a pass was due the next one is due.
pub const CLEANUP_INTERVAL_SECS: u64 = 30;

/// What reconciling the history with the files found.
#[derive(Clone, Copy, Debug, PartialEq, Eq, Structural)]
pub struct ReconcileResult {
    pub entries_scanned: u64,
    pub entries_deleted: u64,
    pub errors: u64,
}

/// What the cleanup of the file cache did.
#[derive(Clone, Copy, Debug, PartialEq, Eq, Structural)]
pub struct FileCleanupResult {
    pub files_removed: u64,
    pub entries_deleted: u64,
    pub orphans_removed: u64,
    pub bytes_reclaimed: u64,
    pub errors: u64,
}

/// What the rules of retention did.
#[derive(Clone, Copy, Debug, PartialEq, Eq, Structural)]
pub struct RetentionResult {
    pub entries_deleted: u64,
    pub errors: u64,
}

/// How a job is to be noted.
#[derive(Clone, Copy, Debug, PartialEq, Eq, Structural)]
pub enum CleanupNote {
    /// Not at all: there was nothing to do.
    Quiet,
    /// By what it did.
    Report,
    /// As failed.
    Warning,
}

/// The worker that maintains the history.
pub struct CleanupWorker {
    pub history_facade: Arc<ClipboardHistoryFacade>,
}

/// A pass, by the job that is under way.
#[derive(Clone, Copy, Debug, PartialEq, Eq, Structural)]
pub enum CleanupPass {
    Reconcile,
    CleanupFileCache,
    EnforceRetention,
    Finished,
}

/// What became of a job. A failure is told in words.
pub enum CleanupReply {
    Reconciled(Result<ReconcileResult, String>),
    FileCacheCleaned(Result<FileCleanupResult, String>),
    RetentionEnforced(Result<RetentionResult, String>),
}

impl CleanupPass {
    /// The pass after a job. An answer that belongs to another job changes
    /// nothing.
    pub open spec fn after(self, reply: CleanupReply) -> CleanupPass {
        match (self, reply) {
            (CleanupPass::Reconcile, CleanupReply::Reconciled(result)) => if result is Ok {
                CleanupPass::CleanupFileCache
            } else {
                CleanupPass::Finished
            },
            (CleanupPass::CleanupFileCache, CleanupReply::FileCacheCleaned(_)) =>
                CleanupPass::EnforceRetention,
            (CleanupPass::EnforceRetention, CleanupReply::RetentionEnforced(_)) =>
                CleanupPass::Finished,
            _ => self,
        }
    }

    /// How a job is noted.
    pub open spec fn noted(self, reply: CleanupReply) -> CleanupNote {
        match (self, reply) {
            (CleanupPass::Reconcile, CleanupReply::Reconciled(result)) => note_of_reconcile(result),
            (CleanupPass::CleanupFileCache, CleanupReply::FileCacheCleaned(result)) =>
                note_of_file_cleanup(result),
            (CleanupPass::EnforceRetention, CleanupReply::RetentionEnforced(result)) =>
                note_of_retention(result),
            _ => CleanupNote::Quiet,
        }
    }

    /// Goes on after a job, and says how the job is to be noted.
    pub fn resume(self, reply: CleanupReply) -> (r: (Self, CleanupNote))
        ensures
            r.0 == self.after(reply),
            r.1 == self.noted(reply),
    {
        match (self, reply) {
            (CleanupPass::Reconcile, CleanupReply::Reconciled(result)) => {
                let (proceed, note) = CleanupWorker::reconcile(result);
                if proceed {
                    (CleanupPass::CleanupFileCache, note)
                } else {
                    (CleanupPass::Finished, note)
                }
            },
            (CleanupPass::CleanupFileCache, CleanupReply::FileCacheCleaned(result)) => {
                (CleanupPass::EnforceRetention, CleanupWorker::cleanup_file_cache(result))
            },
            (CleanupPass::EnforceRetention, CleanupReply::RetentionEnforced(result)) => {
                (CleanupPass::Finished, CleanupWorker::enforce_retention(result))
            },
            (unchanged, _) => (unchanged, CleanupNote::Quiet),
        }
    }
}

/// Reconciling is reported where it dropped something or met errors.
pub open spec fn note_of_reconcile(result: Result<ReconcileResult, String>) -> CleanupNote {
    match result {
        Ok(done) => if done.entries_deleted > 0 || done.errors > 0 {
            CleanupNote::Report
        } else {
            CleanupNote::Quiet
        },
        Err(cause) => CleanupNote::Warning,
    }
}

/// The cleanup of the file cache is reported where it removed files.
pub open spec fn note_of_file_cleanup(result: Result<FileCleanupResult, String>) -> CleanupNote {
    match result {
        Ok(done) => if done.files_removed > 0 {
            CleanupNote::Report
        } else {
            CleanupNote::Quiet
        },
        Err(cause) => CleanupNote::Warning,
    }
}

/// Retention is reported where it dropped something or met errors.
pub open spec fn note_of_retention(result: Result<RetentionResult, String>) -> CleanupNote {
    match result {
        Ok(done) => if done.entries_deleted > 0 || done.errors > 0 {
            CleanupNote::Report
        } else {
            CleanupNote::Quiet
        },
        Err(cause) => CleanupNote::Warning,
    }
}

impl CleanupWorker {
    /// A worker on the given history.
    pub fn new(history_facade: Arc<ClipboardHistoryFacade>) -> (r: Self)
        ensures
            r.history_facade == history_facade,
    {
        CleanupWorker { history_facade }
    }

    /// The name of the service.
    pub fn name(&self) -> (r: &'static str)
        ensures
            r@ == "cleanup"@,
    {
        "cleanup"
    }

    /// Starts a pass.
    pub fn run_jobs(&self) -> (r: CleanupPass)
        ensures
            r == CleanupPass::Reconcile,
    {
        CleanupPass::Reconcile
    }

    /// Whether the pass goes on after reconciling, and how it is noted.
    pub fn reconcile(result: Result<ReconcileResult, String>) -> (r: (bool, CleanupNote))
        ensures
            r.0 == result is Ok,
            r.1 == note_of_reconcile(result),
    {
        match result {
            Ok(done) => if done.entries_deleted > 0 || done.errors > 0 {
                (true, CleanupNote::Report)
            } else {
                (true, CleanupNote::Quiet)
            },
            Err(_) => (false, CleanupNote::Warning),
        }
    }

    /// How the cleanup of the file cache is noted.
    pub fn cleanup_file_cache(result: Result<FileCleanupResult, String>) -> (r: CleanupNote)
        ensures
            r == note_of_file_cleanup(result),
    {
        match result {
            Ok(done) => if done.files_removed > 0 {
                CleanupNote::Report
            } else {
                CleanupNote::Quiet
            },
            Err(_) => CleanupNote::Warning,
        }
    }

    /// How the rules of retention are noted.
    pub fn enforce_retention(result: Result<RetentionResult, String>) -> (r: CleanupNote)
        ensures
            r == note_of_retention(result),
    {
        match result {
            Ok(done) => if done.entries_deleted > 0 || done.errors > 0 {
                CleanupNote::Report
            } else {
                CleanupNote::Quiet
            },
            Err(_) => CleanupNote::Warning,
        }
    }

    /// Starts the service with its first pass.
    pub fn start(&self) -> (r: CleanupService)
        ensures
            r == (CleanupService::Working { pass: CleanupPass::Reconcile }),
    {
        CleanupService::Working { pass: self.run_jobs() }
    }
}

/// The service, by what it waits for.
#[derive(Clone, Copy, Debug, PartialEq, Eq, Structural)]
pub enum CleanupService {
    /// A pass is under way.
    Working { pass: CleanupPass },
    /// The next pass is not due yet.
    Waiting,
    /// The service has ended.
    Stopped,
}

/// What happens to the service.
pub enum CleanupEvent {
    /// A job was done.
    Job(CleanupReply),
    /// The next pass is due.
    Due,
    /// The daemon ends.
    Cancelled,
}

impl CleanupService {
    /// The service after a pass has gone on to `pass`.
    pub open spec fn at(pass: CleanupPass) -> CleanupService {
        if pass == CleanupPass::Finished {
            CleanupService::Waiting
        } else {
            CleanupService::Working { pass }
        }
    }

    /// The service after an event. A pass under way is finished before the
    /// service ends, and before the next one starts.
    pub open spec fn after(self, event: CleanupEvent) -> CleanupService {
        match (self, event) {
            (CleanupService::Working { pass }, CleanupEvent::Job(reply)) => CleanupService::at(
                pass.after(reply),
            ),
            (CleanupService::Waiting, CleanupEvent::Due) => CleanupService::Working {
                pass: CleanupPass::Reconcile,
            },
            (CleanupService::Waiting, CleanupEvent::Cancelled) => CleanupService::Stopped,
            _ => self,
        }
    }

    /// Goes on after an event, and says how it is to be noted.
    pub fn resume(self, event: CleanupEvent) -> (r: (Self, CleanupNote))
        ensures
            r.0 == self.after(event),
            r.1 == (match (self, event) {
                (CleanupService::Working { pass }, CleanupEvent::Job(reply)) => pass.noted(reply),
                _ => CleanupNote::Quiet,
            }),
    {
        match (self, event) {
            (CleanupService::Working { pass }, CleanupEvent::Job(reply)) => {
                let (next, note) = pass.resume(reply);
                if next == CleanupPass::Finished {
                    (CleanupService::Waiting, note)
                } else {
                    (CleanupService::Working { pass: next }, note)
                }
            },
            (CleanupService::Waiting, CleanupEvent::Due) => {
                (CleanupService::Working { pass: CleanupPass::Reconcile }, CleanupNote::Quiet)
            },
            (CleanupService::Waiting, CleanupEvent::Cancelled) => {
                (CleanupService::Stopped, CleanupNote::Quiet)
            },
            (unchanged, _) => (unchanged, CleanupNote::Quiet),
        }
    }
}

/// A pass after a series of answers.
pub open spec fn pass_after(replies: Seq<CleanupReply>) -> CleanupPass
    decreases replies.len(),
{
    if replies.len() == 0 {
        CleanupPass::Reconcile
    } else {
        pass_after(replies.drop_last()).after(replies.last())
    }
}

/// The history and the files were reconciled in this pass.
pub open spec fn was_reconciled(replies: Seq<CleanupReply>) -> bool {
    exists|k: int|
        0 <= k < replies.len() && (#[trigger] replies[k] matches CleanupReply::Reconciled(result)
            && result is Ok)
}

/// Files and entries are removed only in a pass that has reconciled them.
pub proof fn removal_follows_reconciling(replies: Seq<CleanupReply>)
    requires
        pass_after(replies) == CleanupPass::CleanupFileCache || pass_after(replies)
            == CleanupPass::EnforceRetention,
    ensures
        was_reconciled(replies),
    decreases replies.len(),
{
    if replies.len() > 0 {
        let before = replies.drop_last();
        if pass_after(before) == CleanupPass::Reconcile {
            assert(replies[replies.len() - 1] == replies.last());
        } else {
            removal_follows_reconciling(before);
            let k = choose|k: int|
                0 <= k < before.len() && (#[trigger] before[k] matches CleanupReply::Reconciled(
                    result,
                ) && result is Ok);
            assert(replies[k] == before[k]);
        }
    }
}

/// A pass that could not reconcile does nothing else.
pub proof fn failed_reconciling_ends_the_pass(cause: String, more: Seq<CleanupReply>)
    ensures
        pass_after(seq![CleanupReply::Reconciled(Err(cause))] + more) == CleanupPass::Finished,
    decreases more.len(),
{
    let failed = seq![CleanupReply::Reconciled(Err(cause))];
    if more.len() == 0 {
        assert(failed + more == failed);
        assert(failed.drop_last() == Seq::<CleanupReply>::empty());
        assert(pass_after(failed.drop_last()) == CleanupPass::Reconcile);
    } else {
        failed_reconciling_ends_the_pass(cause, more.drop_last());
        assert((failed + more).drop_last() == failed + more.drop_last());
    }
}

/// A failed cleanup of the file cache does not keep the rules of retention
/// from being applied.
pub proof fn file_cleanup_failures_are_not_fatal(result: Result<FileCleanupResult, String>)
    ensures
        CleanupPass::CleanupFileCache.after(CleanupReply::FileCacheCleaned(result))
            == CleanupPass::EnforceRetention,
{
}

/// A pass under way is not broken off, neither by the end of the daemon nor
/// because the next one is due.
pub proof fn passes_are_not_broken_off(service: CleanupService)
    requires
        service is Working,
    ensures
        service.after(CleanupEvent::Cancelled) == service,
        service.after(CleanupEvent::Due) == service,
{
}

/// A service that has ended stays so.
pub proof fn stopped_services_stay_stopped(event: CleanupEvent)
    ensures
        CleanupService::Stopped.after(event) == CleanupService::Stopped,
{
}

} // verus!

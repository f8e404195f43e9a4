//! The expansion of copied files and directories into the lines of a
//! manifest.
//!
//! The expansion never touches the file system. It asks for one thing at a
//! time, what stands at a path, what a directory holds or what a file hashes
//! to, and goes on with the answer. First everything is expanded by its
//! metadata alone, against the caps; only a set that was expanded to its end
//! is hashed. Directories are taken breadth first, the entries of each by
//! name. Symbolic links are not followed.

use crate::file_set::{
    ContentHash, EntryFileSetLine, EntryFileSetLineKind, ExpansionFailure, FileSetCaps, LineView,
    PendingFileSetLine, PendingView, RootView, TopLevelFileMember, TraversalBudget,
    classify_file_path, directory_marker, excluded_root_line, kind_of_hash, line_index_after,
    line_order, pending_flat_file, pending_member, pending_missing_file, pending_root_marker,
    take_line_index,
};
use crate::files::{
    DirectoryEntry, EntryView, FileMetadata, FilePath, FileSetMemberKind, PathView, entry_order,
    joined, joined_path, kind_of_mode, member_kind, shown_path, shown_relative_path,
};
use crate::sorting::{rank_order, sort, sort_of_images, stable_sort};
use crate::unicode::{nfc, nfc_form};
use crate::views::{group_views, list_of, queue_of, views};
use std::collections::VecDeque;
use vstd::prelude::*;

verus! {

broadcast use group_views;

/// A path together with where it stands below its root.
pub struct PlacedPath {
    pub path: FilePath,
    pub relative_path: String,
}

/// A placed path, as contracts speak of it.
#[verifier::ext_equal]
pub struct PlacedView {
    pub path: PathView,
    pub relative_path: Seq<char>,
}

impl View for PlacedPath {
    type V = PlacedView;

    open spec fn view(&self) -> PlacedView {
        PlacedView { path: self.path@, relative_path: self.relative_path@ }
    }
}

/// What an expansion has gathered and has still before it.
pub struct Progress {
    pub caps: FileSetCaps,
    /// The finished lines.
    pub lines: Vec<EntryFileSetLine>,
    /// The roots not yet looked at.
    pub roots: VecDeque<TopLevelFileMember>,
    pub budget: TraversalBudget,
    /// The members found, to be hashed in this order.
    pub pending: VecDeque<PendingFileSetLine>,
    /// The index of the next line that no root brought with it.
    pub next_line: i64,
}

/// Progress, as contracts speak of it.
#[verifier::ext_equal]
pub struct ProgressView {
    pub caps: FileSetCaps,
    pub lines: Seq<LineView>,
    pub roots: Seq<RootView>,
    pub budget: TraversalBudget,
    pub pending: Seq<PendingView>,
    pub next_line: i64,
}

impl View for Progress {
    type V = ProgressView;

    open spec fn view(&self) -> ProgressView {
        ProgressView {
            caps: self.caps,
            lines: views(self.lines@),
            roots: views(self.roots@),
            budget: self.budget,
            pending: views(self.pending@),
            next_line: self.next_line,
        }
    }
}

/// The expansion of one root that is a directory.
pub struct Walk {
    pub root: TopLevelFileMember,
    /// The directories still to be listed.
    pub queue: VecDeque<PlacedPath>,
    /// The members found so far. They count only when the whole root was
    /// expanded.
    pub members: VecDeque<PendingFileSetLine>,
}

/// A walk, as contracts speak of it.
#[verifier::ext_equal]
pub struct WalkView {
    pub root: RootView,
    pub queue: Seq<PlacedView>,
    pub members: Seq<PendingView>,
}

impl View for Walk {
    type V = WalkView;

    open spec fn view(&self) -> WalkView {
        WalkView {
            root: self.root@,
            queue: views(self.queue@),
            members: views(self.members@),
        }
    }
}

/// The state of an expansion, named by what it waits for.
pub enum FileSetTraversal {
    /// What stands at the path of this root.
    Root { progress: Progress, root: TopLevelFileMember },
    /// What this directory holds.
    Listing { progress: Progress, walk: Walk, directory: PlacedPath },
    /// What stands at the path of this entry; `rest` are the entries behind
    /// it.
    Member {
        progress: Progress,
        walk: Walk,
        relative_directory: String,
        rest: VecDeque<DirectoryEntry>,
        member: PlacedPath,
    },
    /// What the file at this path hashes to.
    Hashing { progress: Progress, line: PendingFileSetLine, path: FilePath },
    /// Nothing. `failure` says why the expansion was given up, where it was.
    Finished { lines: Vec<EntryFileSetLine>, failure: Option<ExpansionFailure> },
}

/// The state of an expansion, as contracts speak of it.
#[verifier::ext_equal]
pub enum TraversalView {
    Root { progress: ProgressView, root: RootView },
    Listing { progress: ProgressView, walk: WalkView, directory: PlacedView },
    Member {
        progress: ProgressView,
        walk: WalkView,
        relative_directory: Seq<char>,
        rest: Seq<EntryView>,
        member: PlacedView,
    },
    Hashing { progress: ProgressView, line: PendingView, path: PathView },
    Finished { lines: Seq<LineView>, failure: Option<ExpansionFailure> },
}

impl View for FileSetTraversal {
    type V = TraversalView;

    open spec fn view(&self) -> TraversalView {
        match *self {
            FileSetTraversal::Root { progress, root } => TraversalView::Root {
                progress: progress@,
                root: root@,
            },
            FileSetTraversal::Listing { progress, walk, directory } => TraversalView::Listing {
                progress: progress@,
                walk: walk@,
                directory: directory@,
            },
            FileSetTraversal::Member { progress, walk, relative_directory, rest, member } =>
                TraversalView::Member {
                progress: progress@,
                walk: walk@,
                relative_directory: relative_directory@,
                rest: views(rest@),
                member: member@,
            },
            FileSetTraversal::Hashing { progress, line, path } => TraversalView::Hashing {
                progress: progress@,
                line: line@,
                path: path@,
            },
            FileSetTraversal::Finished { lines, failure } => TraversalView::Finished {
                lines: views(lines@),
                failure,
            },
        }
    }
}

/// What an expansion asks its host for.
pub enum TraversalRequest<'a> {
    /// The metadata of what stands at the path, links not followed.
    Inspect(&'a FilePath),
    /// The entries of the directory, in any order.
    List(&'a FilePath),
    /// The digest of the file's content.
    Hash(&'a FilePath),
    /// Nothing: the expansion is finished.
    Nothing,
}

/// What the host answers; nothing where what was asked for cannot be had.
pub enum TraversalReply {
    Inspected(Option<FileMetadata>),
    Listed(Option<Vec<DirectoryEntry>>),
    Hashed(Option<ContentHash>),
}

/// An answer, as contracts speak of it.
pub enum ReplyView {
    Inspected(Option<FileMetadata>),
    Listed(Option<Seq<EntryView>>),
    Hashed(Option<ContentHash>),
}

impl View for TraversalReply {
    type V = ReplyView;

    open spec fn view(&self) -> ReplyView {
        match *self {
            TraversalReply::Inspected(found) => ReplyView::Inspected(found),
            TraversalReply::Listed(Some(entries)) => ReplyView::Listed(Some(views(entries@))),
            TraversalReply::Listed(None) => ReplyView::Listed(None),
            TraversalReply::Hashed(hashed) => ReplyView::Hashed(hashed),
        }
    }
}

/// Pending lines as finished lines of one kind.
pub open spec fn all_of_kind(
    pending: Seq<PendingView>,
    kind: EntryFileSetLineKind,
) -> Seq<LineView> {
    pending.map_values(|line: PendingView| line.of_kind(kind))
}

/// Roots as pending lines that the expansion did not get to.
pub open spec fn all_unvisited(roots: Seq<RootView>) -> Seq<PendingView> {
    roots.map_values(|root: RootView| root.unvisited())
}

/// The lines of a set that is not carried over, for the given reason.
pub open spec fn excluded(failure: ExpansionFailure) -> EntryFileSetLineKind {
    EntryFileSetLineKind::Excluded { reason: failure.reason() }
}

impl ProgressView {
    /// Progress with one more member found, whether or not it fits the caps.
    pub open spec fn found(self, line: PendingView) -> Self {
        ProgressView { pending: self.pending.push(line), ..self }
    }

    /// Progress with one more member counted against the caps.
    pub open spec fn counted(self, size_bytes: u64) -> Self {
        ProgressView { budget: self.budget.after(size_bytes), ..self }
    }

    /// Progress with the next line index handed out.
    pub open spec fn line_taken(self) -> Self {
        ProgressView { next_line: line_index_after(self.next_line), ..self }
    }

    /// The expansion is given up: every line found, and every root not yet
    /// looked at, is excluded for one reason.
    pub open spec fn stopped(self, failure: ExpansionFailure) -> TraversalView {
        TraversalView::Finished {
            lines: stable_sort(
                self.lines + all_of_kind(
                    self.pending + all_unvisited(self.roots),
                    excluded(failure),
                ),
                line_order(),
            ),
            failure: Some(failure),
        }
    }

    /// Goes on with the next root, or with hashing where none is left.
    pub open spec fn next_root(self) -> TraversalView {
        if self.roots.len() == 0 {
            self.next_hash()
        } else {
            TraversalView::Root {
                progress: ProgressView { roots: self.roots.drop_first(), ..self },
                root: self.roots[0],
            }
        }
    }

    /// Goes on with the next file to be hashed. Lines without content are
    /// finished as they are.
    pub open spec fn next_hash(self) -> TraversalView
        decreases self.pending.len(),
    {
        if self.pending.len() == 0 {
            TraversalView::Finished {
                lines: stable_sort(self.lines, line_order()),
                failure: None,
            }
        } else {
            let line = self.pending[0];
            let rest = ProgressView { pending: self.pending.drop_first(), ..self };
            match line.file_path {
                Some(path) => TraversalView::Hashing {
                    progress: rest,
                    line: PendingView { file_path: None, ..line },
                    path,
                },
                None => ProgressView {
                    lines: self.lines.push(line.of_kind(EntryFileSetLineKind::NonFile)),
                    ..rest
                }.next_hash(),
            }
        }
    }

    /// Goes on after a root that is a single file.
    pub open spec fn flat(self, line: PendingView, size_bytes: u64) -> TraversalView {
        let next = self.counted(size_bytes).found(line);
        if next.budget.exceeds(self.caps) {
            next.stopped(ExpansionFailure::SizeCapExceeded)
        } else {
            next.next_root()
        }
    }

    /// Goes on after looking at a root.
    pub open spec fn root_inspected(
        self,
        root: RootView,
        found: Option<FileMetadata>,
    ) -> TraversalView {
        match found {
            None => self.flat(
                root.missing_file(),
                match root.known_size {
                    Some(size) => size,
                    None => 0,
                },
            ),
            Some(metadata) => if metadata.symlink {
                self.found(root.marker(self.next_line)).stopped(ExpansionFailure::UnsupportedMember)
            } else if metadata.directory {
                self.next_directory(WalkView::at(root))
            } else if metadata.regular {
                self.flat(
                    root.flat_file(metadata),
                    match root.known_size {
                        Some(size) => size,
                        None => metadata.len,
                    },
                )
            } else {
                self.found(root.marker(self.next_line)).stopped(ExpansionFailure::UnsupportedMember)
            },
        }
    }

    /// Goes on with the next directory of a root, or with the next root where
    /// none is left. Only then do the members of the root count.
    pub open spec fn next_directory(self, walk: WalkView) -> TraversalView {
        if walk.queue.len() == 0 {
            ProgressView { pending: self.pending + walk.members, ..self }.next_root()
        } else {
            TraversalView::Listing {
                progress: self,
                walk: WalkView { queue: walk.queue.drop_first(), ..walk },
                directory: walk.queue[0],
            }
        }
    }

    /// The expansion of a root is given up at a path below it.
    pub open spec fn walk_failed(
        self,
        walk: WalkView,
        relative_path: Seq<char>,
        failure: ExpansionFailure,
    ) -> TraversalView {
        self.line_taken().found(walk.root.directory_marker(self.next_line, relative_path)).stopped(
            failure,
        )
    }

    /// Goes on after listing a directory.
    pub open spec fn listed(
        self,
        walk: WalkView,
        directory: PlacedView,
        entries: Option<Seq<EntryView>>,
    ) -> TraversalView {
        match entries {
            None => self.walk_failed(walk, directory.relative_path, ExpansionFailure::IngestFailed),
            Some(unsorted) => if unsorted.len() == 0 {
                let marker = walk.root.member(
                    self.next_line,
                    shown_path(directory.relative_path),
                    FileSetMemberKind::EmptyDirectory,
                    None,
                );
                let next = self.line_taken().counted(0);
                if next.budget.exceeds(self.caps) {
                    next.found(marker).stopped(ExpansionFailure::SizeCapExceeded)
                } else {
                    next.next_directory(walk.found(marker))
                }
            } else {
                self.next_entry(
                    walk,
                    directory.relative_path,
                    stable_sort(unsorted, entry_order()),
                )
            },
        }
    }

    /// Goes on with the next entry of a directory, or with the next directory
    /// where none is left.
    pub open spec fn next_entry(
        self,
        walk: WalkView,
        relative_directory: Seq<char>,
        entries: Seq<EntryView>,
    ) -> TraversalView {
        if entries.len() == 0 {
            self.next_directory(walk)
        } else {
            match entries[0].name {
                None => self.walk_failed(
                    walk,
                    relative_directory,
                    ExpansionFailure::UnsupportedMember,
                ),
                Some(name) => TraversalView::Member {
                    progress: self,
                    walk,
                    relative_directory,
                    rest: entries.drop_first(),
                    member: PlacedView {
                        path: entries[0].path,
                        relative_path: joined(relative_directory, nfc_form(name)),
                    },
                },
            }
        }
    }

    /// Goes on after looking at an entry of a directory.
    pub open spec fn member_inspected(
        self,
        walk: WalkView,
        relative_directory: Seq<char>,
        rest: Seq<EntryView>,
        member: PlacedView,
        found: Option<FileMetadata>,
    ) -> TraversalView {
        match found {
            None => self.walk_failed(walk, member.relative_path, ExpansionFailure::IngestFailed),
            Some(metadata) => if metadata.symlink {
                self.walk_failed(walk, member.relative_path, ExpansionFailure::UnsupportedMember)
            } else if metadata.directory {
                self.next_entry(
                    WalkView { queue: walk.queue.push(member), ..walk },
                    relative_directory,
                    rest,
                )
            } else if !metadata.regular {
                self.walk_failed(walk, member.relative_path, ExpansionFailure::UnsupportedMember)
            } else {
                let line = walk.root.member(
                    self.next_line,
                    member.relative_path,
                    kind_of_mode(metadata.mode),
                    Some(member.path),
                );
                let next = self.line_taken().counted(metadata.len);
                if next.budget.exceeds(self.caps) {
                    next.found(line).stopped(ExpansionFailure::SizeCapExceeded)
                } else {
                    next.next_entry(walk.found(line), relative_directory, rest)
                }
            },
        }
    }

    /// Goes on after hashing a file.
    pub open spec fn hashed(self, line: PendingView, hash: Option<ContentHash>) -> TraversalView {
        ProgressView {
            lines: self.lines.push(line.of_kind(kind_of_hash(hash, false))),
            ..self
        }.next_hash()
    }
}

impl WalkView {
    /// The walk before anything of the root was listed.
    pub open spec fn at(root: RootView) -> Self {
        WalkView {
            root,
            queue: seq![PlacedView { path: root.path, relative_path: Seq::empty() }],
            members: seq![],
        }
    }

    /// The walk with one more member found.
    pub open spec fn found(self, line: PendingView) -> Self {
        WalkView { members: self.members.push(line), ..self }
    }
}

impl TraversalView {
    /// The expansion at its start. A set with more roots than members are
    /// allowed is not expanded at all.
    pub open spec fn started(
        roots: Seq<RootView>,
        lines: Seq<LineView>,
        top_level_count: i64,
        caps: FileSetCaps,
    ) -> TraversalView {
        let progress = ProgressView {
            caps,
            lines,
            roots,
            budget: TraversalBudget::unused(),
            pending: seq![],
            next_line: top_level_count,
        };
        if caps.max_member_count > 0 && roots.len() > caps.max_member_count {
            progress.stopped(ExpansionFailure::SizeCapExceeded)
        } else {
            progress.next_root()
        }
    }

    /// The state after an answer. An answer to another question than the one
    /// that was asked changes nothing.
    pub open spec fn step(self, reply: ReplyView) -> TraversalView {
        match (self, reply) {
            (TraversalView::Root { progress, root }, ReplyView::Inspected(found)) =>
                progress.root_inspected(root, found),
            (TraversalView::Listing { progress, walk, directory }, ReplyView::Listed(entries)) =>
                progress.listed(walk, directory, entries),
            (
                TraversalView::Member { progress, walk, relative_directory, rest, member },
                ReplyView::Inspected(found),
            ) => progress.member_inspected(walk, relative_directory, rest, member, found),
            (TraversalView::Hashing { progress, line, path }, ReplyView::Hashed(hash)) =>
                progress.hashed(line, hash),
            _ => self,
        }
    }
}

/// Sorts finished lines by line index; lines of one index keep their order.
fn sorted_lines(lines: Vec<EntryFileSetLine>) -> (r: Vec<EntryFileSetLine>)
    ensures
        views(r@) == stable_sort(views(lines@), line_order()),
{
    let ghost before = lines@;
    proof {
        sort_of_images(
            before,
            rank_order::<EntryFileSetLine>(),
            |line: EntryFileSetLine| line@,
            line_order(),
        );
    }
    list_of(sort(lines))
}

/// Sorts the entries of a directory by name.
fn sorted_entries(entries: Vec<DirectoryEntry>) -> (r: VecDeque<DirectoryEntry>)
    ensures
        views(r@) == stable_sort(views(entries@), entry_order()),
{
    let ghost before = entries@;
    proof {
        sort_of_images(
            before,
            rank_order::<DirectoryEntry>(),
            |entry: DirectoryEntry| entry@,
            entry_order(),
        );
    }
    sort(entries)
}

impl Progress {
    fn stopped(self, failure: ExpansionFailure) -> (r: FileSetTraversal)
        ensures
            r@ == self@.stopped(failure),
    {
        let mut lines: Vec<EntryFileSetLine> = self.lines;
        let mut pending: VecDeque<PendingFileSetLine> = self.pending;
        let mut roots: VecDeque<TopLevelFileMember> = self.roots;
        let kind_reason = failure.exclude_reason();
        let ghost kind = excluded(failure);
        let ghost whole = self@.lines + all_of_kind(
            self@.pending + all_unvisited(self@.roots),
            kind,
        );
        let ghost tail = all_of_kind(all_unvisited(self@.roots), kind);
        proof {
            assert(whole == views(lines@) + all_of_kind(views(pending@), kind) + tail);
        }
        while pending.len() > 0
            invariant
                kind == (EntryFileSetLineKind::Excluded { reason: kind_reason }),
                whole == views(lines@) + all_of_kind(views(pending@), kind) + tail,
            decreases pending@.len(),
        {
            let ghost before = pending@;
            let ghost done = lines@;
            if let Some(line) = pending.pop_front() {
                lines.push(line.finished(EntryFileSetLineKind::Excluded { reason: kind_reason }));
                proof {
                    assert(pending@ == before.subrange(1, before.len() as int));
                    assert(all_of_kind(views(before), kind) == seq![line@.of_kind(kind)]
                        + all_of_kind(views(pending@), kind));
                    assert(whole == views(lines@) + all_of_kind(views(pending@), kind) + tail);
                }
            }
        }
        proof {
            assert(whole == views(lines@) + all_of_kind(all_unvisited(views(roots@)), kind));
        }
        while roots.len() > 0
            invariant
                kind == (EntryFileSetLineKind::Excluded { reason: kind_reason }),
                whole == views(lines@) + all_of_kind(all_unvisited(views(roots@)), kind),
            decreases roots@.len(),
        {
            let ghost before = roots@;
            if let Some(root) = roots.pop_front() {
                lines.push(excluded_root_line(root, kind_reason));
                proof {
                    assert(roots@ == before.subrange(1, before.len() as int));
                    assert(all_of_kind(all_unvisited(views(before)), kind)
                        == seq![root@.unvisited().of_kind(kind)] + all_of_kind(
                        all_unvisited(views(roots@)),
                        kind,
                    ));
                    assert(whole == views(lines@) + all_of_kind(all_unvisited(views(roots@)), kind));
                }
            }
        }
        proof {
            assert(whole == views(lines@));
        }
        FileSetTraversal::Finished { lines: sorted_lines(lines), failure: Some(failure) }
    }

    fn next_hash(self) -> (r: FileSetTraversal)
        ensures
            r@ == self@.next_hash(),
    {
        let ghost goal = self@.next_hash();
        let mut progress: Progress = self;
        while progress.pending.len() > 0
            invariant
                goal == self@.next_hash(),
                progress@.next_hash() == goal,
            decreases progress.pending@.len(),
        {
            let ghost before = progress@;
            if let Some(line) = progress.pending.pop_front() {
                let ghost popped = line@;
                let PendingFileSetLine { line_index, original_text, member_location, file_path } =
                    line;
                let bare = PendingFileSetLine {
                    line_index,
                    original_text,
                    member_location,
                    file_path: None,
                };
                proof {
                    assert(before.pending[0] == popped);
                    assert(progress@.pending == before.pending.drop_first());
                }
                match file_path {
                    Some(path) => {
                        return FileSetTraversal::Hashing { progress, line: bare, path };
                    },
                    None => {
                        progress.lines.push(bare.finished(EntryFileSetLineKind::NonFile));
                        proof {
                            assert(progress@ == ProgressView {
                                lines: before.lines.push(
                                    popped.of_kind(EntryFileSetLineKind::NonFile),
                                ),
                                pending: before.pending.drop_first(),
                                ..before
                            });
                        }
                    },
                }
            }
        }
        FileSetTraversal::Finished { lines: sorted_lines(progress.lines), failure: None }
    }

    fn next_root(self) -> (r: FileSetTraversal)
        ensures
            r@ == self@.next_root(),
    {
        let mut progress: Progress = self;
        let ghost before = progress@;
        match progress.roots.pop_front() {
            Some(root) => {
                proof {
                    assert(progress@.roots == before.roots.drop_first());
                }
                FileSetTraversal::Root { progress, root }
            },
            None => progress.next_hash(),
        }
    }

    fn flat(self, line: PendingFileSetLine, size_bytes: u64) -> (r: FileSetTraversal)
        ensures
            r@ == self@.flat(line@, size_bytes),
    {
        let mut progress: Progress = self;
        let caps: FileSetCaps = progress.caps;
        let over: bool = progress.budget.admit_member(size_bytes, caps);
        progress.pending.push_back(line);
        proof {
            assert(progress@ == self@.counted(size_bytes).found(line@));
        }
        if over {
            progress.stopped(ExpansionFailure::SizeCapExceeded)
        } else {
            progress.next_root()
        }
    }

    fn unsupported_root(self, root: TopLevelFileMember) -> (r: FileSetTraversal)
        ensures
            r@ == self@.found(root@.marker(self@.next_line)).stopped(
                ExpansionFailure::UnsupportedMember,
            ),
    {
        let mut progress: Progress = self;
        let line_index: i64 = progress.next_line;
        progress.pending.push_back(pending_root_marker(root, line_index));
        proof {
            assert(progress@ == self@.found(root@.marker(self@.next_line)));
        }
        progress.stopped(ExpansionFailure::UnsupportedMember)
    }

    fn root_inspected(self, root: TopLevelFileMember, found: Option<FileMetadata>) -> (r:
        FileSetTraversal)
        ensures
            r@ == self@.root_inspected(root@, found),
    {
        match found {
            None => {
                let size: u64 = match root.known_size {
                    Some(known) => known,
                    None => 0,
                };
                self.flat(pending_missing_file(root), size)
            },
            Some(metadata) => {
                if metadata.symlink {
                    self.unsupported_root(root)
                } else if metadata.directory {
                    self.next_directory(Walk::at(root))
                } else if metadata.regular {
                    let size: u64 = match root.known_size {
                        Some(known) => known,
                        None => metadata.len,
                    };
                    self.flat(pending_flat_file(root, metadata), size)
                } else {
                    self.unsupported_root(root)
                }
            },
        }
    }

    fn next_directory(self, walk: Walk) -> (r: FileSetTraversal)
        ensures
            r@ == self@.next_directory(walk@),
    {
        let mut walk: Walk = walk;
        let ghost before = walk@;
        match walk.queue.pop_front() {
            Some(directory) => {
                proof {
                    assert(walk@ == WalkView { queue: before.queue.drop_first(), ..before });
                }
                FileSetTraversal::Listing { progress: self, walk, directory }
            },
            None => {
                let mut progress: Progress = self;
                let mut members: VecDeque<PendingFileSetLine> = walk.members;
                progress.pending.append(&mut members);
                proof {
                    assert(progress@ == ProgressView {
                        pending: self@.pending + before.members,
                        ..self@
                    });
                }
                progress.next_root()
            },
        }
    }

    fn walk_failed(
        self,
        walk: &Walk,
        relative_path: &String,
        failure: ExpansionFailure,
    ) -> (r: FileSetTraversal)
        ensures
            r@ == self@.walk_failed(walk@, relative_path@, failure),
    {
        let mut progress: Progress = self;
        let mut next_line: i64 = progress.next_line;
        let marker = directory_marker(&walk.root, &mut next_line, relative_path);
        progress.next_line = next_line;
        progress.pending.push_back(marker);
        proof {
            assert(progress@ == self@.line_taken().found(marker@));
        }
        progress.stopped(failure)
    }

    fn empty_directory(self, walk: Walk, directory: PlacedPath) -> (r: FileSetTraversal)
        ensures
            r@ == self@.listed(walk@, directory@, Some(Seq::empty())),
    {
        let mut progress: Progress = self;
        let mut walk: Walk = walk;
        let ghost before = walk@;
        let mut next_line: i64 = progress.next_line;
        let line_index: i64 = take_line_index(&mut next_line);
        progress.next_line = next_line;
        let marker = pending_member(
            &walk.root,
            line_index,
            shown_relative_path(&directory.relative_path),
            FileSetMemberKind::EmptyDirectory,
            None,
        );
        let ghost line = marker@;
        let caps: FileSetCaps = progress.caps;
        let over: bool = progress.budget.admit_member(0, caps);
        proof {
            assert(progress@ == self@.line_taken().counted(0));
        }
        if over {
            progress.pending.push_back(marker);
            proof {
                assert(progress@ == self@.line_taken().counted(0).found(line));
            }
            progress.stopped(ExpansionFailure::SizeCapExceeded)
        } else {
            walk.members.push_back(marker);
            proof {
                assert(walk@ == before.found(line));
            }
            progress.next_directory(walk)
        }
    }

    fn listed(
        self,
        walk: Walk,
        directory: PlacedPath,
        entries: Option<Vec<DirectoryEntry>>,
    ) -> (r: FileSetTraversal)
        ensures
            r@ == self@.listed(
                walk@,
                directory@,
                match entries {
                    Some(unsorted) => Some(views(unsorted@)),
                    None => None,
                },
            ),
    {
        match entries {
            None => self.walk_failed(
                &walk,
                &directory.relative_path,
                ExpansionFailure::IngestFailed,
            ),
            Some(unsorted) => {
                if unsorted.len() == 0 {
                    proof {
                        assert(views(unsorted@) == Seq::<EntryView>::empty());
                    }
                    self.empty_directory(walk, directory)
                } else {
                    self.next_entry(walk, directory.relative_path, sorted_entries(unsorted))
                }
            },
        }
    }

    fn next_entry(
        self,
        walk: Walk,
        relative_directory: String,
        entries: VecDeque<DirectoryEntry>,
    ) -> (r: FileSetTraversal)
        ensures
            r@ == self@.next_entry(walk@, relative_directory@, views(entries@)),
    {
        let mut rest: VecDeque<DirectoryEntry> = entries;
        let ghost before = views(rest@);
        match rest.pop_front() {
            None => self.next_directory(walk),
            Some(entry) => {
                proof {
                    assert(views(rest@) == before.drop_first());
                    assert(before[0] == entry@);
                }
                match entry.name {
                    None => self.walk_failed(
                        &walk,
                        &relative_directory,
                        ExpansionFailure::UnsupportedMember,
                    ),
                    Some(name) => {
                        let relative_path: String = joined_path(&relative_directory, nfc(&name));
                        FileSetTraversal::Member {
                            progress: self,
                            walk,
                            relative_directory,
                            rest,
                            member: PlacedPath { path: entry.path, relative_path },
                        }
                    },
                }
            },
        }
    }

    fn member_found(
        self,
        walk: Walk,
        relative_directory: String,
        rest: VecDeque<DirectoryEntry>,
        member: PlacedPath,
        metadata: FileMetadata,
    ) -> (r: FileSetTraversal)
        requires
            !metadata.symlink,
            !metadata.directory,
            metadata.regular,
        ensures
            r@ == self@.member_inspected(
                walk@,
                relative_directory@,
                views(rest@),
                member@,
                Some(metadata),
            ),
    {
        let mut progress: Progress = self;
        let mut walk: Walk = walk;
        let ghost before = walk@;
        let mut next_line: i64 = progress.next_line;
        let line_index: i64 = take_line_index(&mut next_line);
        progress.next_line = next_line;
        let line = pending_member(
            &walk.root,
            line_index,
            member.relative_path,
            member_kind(&metadata),
            Some(member.path),
        );
        let ghost shown = line@;
        let caps: FileSetCaps = progress.caps;
        let over: bool = progress.budget.admit_member(metadata.len, caps);
        proof {
            assert(progress@ == self@.line_taken().counted(metadata.len));
        }
        if over {
            progress.pending.push_back(line);
            proof {
                assert(progress@ == self@.line_taken().counted(metadata.len).found(shown));
            }
            progress.stopped(ExpansionFailure::SizeCapExceeded)
        } else {
            walk.members.push_back(line);
            proof {
                assert(walk@ == before.found(shown));
            }
            progress.next_entry(walk, relative_directory, rest)
        }
    }

    fn member_inspected(
        self,
        walk: Walk,
        relative_directory: String,
        rest: VecDeque<DirectoryEntry>,
        member: PlacedPath,
        found: Option<FileMetadata>,
    ) -> (r: FileSetTraversal)
        ensures
            r@ == self@.member_inspected(
                walk@,
                relative_directory@,
                views(rest@),
                member@,
                found,
            ),
    {
        match found {
            None => self.walk_failed(&walk, &member.relative_path, ExpansionFailure::IngestFailed),
            Some(metadata) => {
                if metadata.symlink {
                    self.walk_failed(
                        &walk,
                        &member.relative_path,
                        ExpansionFailure::UnsupportedMember,
                    )
                } else if metadata.directory {
                    let mut walk: Walk = walk;
                    let ghost before = walk@;
                    walk.queue.push_back(member);
                    proof {
                        assert(walk@ == WalkView { queue: before.queue.push(member@), ..before });
                    }
                    self.next_entry(walk, relative_directory, rest)
                } else if !metadata.regular {
                    self.walk_failed(
                        &walk,
                        &member.relative_path,
                        ExpansionFailure::UnsupportedMember,
                    )
                } else {
                    self.member_found(walk, relative_directory, rest, member, metadata)
                }
            },
        }
    }

    fn hashed(self, line: PendingFileSetLine, hash: Option<ContentHash>) -> (r: FileSetTraversal)
        ensures
            r@ == self@.hashed(line@, hash),
    {
        let mut progress: Progress = self;
        let finished: EntryFileSetLine = line.finished(classify_file_path(hash, false));
        progress.lines.push(finished);
        proof {
            assert(progress@ == ProgressView {
                lines: self@.lines.push(line@.of_kind(kind_of_hash(hash, false))),
                ..self@
            });
        }
        progress.next_hash()
    }
}

impl Walk {
    fn at(root: TopLevelFileMember) -> (r: Self)
        ensures
            r@ == WalkView::at(root@),
    {
        let mut queue: VecDeque<PlacedPath> = VecDeque::new();
        let first = PlacedPath { path: root.path.duplicate(), relative_path: String::new() };
        proof {
            assert(first.relative_path@ == Seq::<char>::empty());
        }
        queue.push_back(first);
        let r = Walk { root, queue, members: VecDeque::new() };
        proof {
            assert(r@ == WalkView::at(root@));
        }
        r
    }
}

/// Starts the expansion of `roots`. `lines` are the lines that hold no
/// root; `top_level_count` is the first line index for what directories
/// hold.
pub fn build_file_member_lines(
    roots: Vec<TopLevelFileMember>,
    lines: Vec<EntryFileSetLine>,
    top_level_count: i64,
    caps: FileSetCaps,
) -> (r: FileSetTraversal)
    ensures
        r@ == TraversalView::started(views(roots@), views(lines@), top_level_count, caps),
{
    let over: bool = caps.max_member_count > 0 && roots.len() as u64 > caps.max_member_count;
    let progress = Progress {
        caps,
        lines,
        roots: queue_of(roots),
        budget: TraversalBudget::default(),
        pending: VecDeque::new(),
        next_line: top_level_count,
    };
    proof {
        assert(progress@ == ProgressView {
            caps,
            lines: views(lines@),
            roots: views(roots@),
            budget: TraversalBudget::unused(),
            pending: seq![],
            next_line: top_level_count,
        });
    }
    if over {
        progress.stopped(ExpansionFailure::SizeCapExceeded)
    } else {
        progress.next_root()
    }
}

impl FileSetTraversal {
    /// The request is the one that the expansion waits to have answered.
    pub open spec fn awaits(&self, request: TraversalRequest<'_>) -> bool {
        match (request, self@) {
            (TraversalRequest::Inspect(path), TraversalView::Root { progress, root }) => path@
                == root.path,
            (
                TraversalRequest::Inspect(path),
                TraversalView::Member { progress, walk, relative_directory, rest, member },
            ) => path@ == member.path,
            (
                TraversalRequest::List(path),
                TraversalView::Listing { progress, walk, directory },
            ) => path@ == directory.path,
            (
                TraversalRequest::Hash(path),
                TraversalView::Hashing { progress, line, path: file },
            ) => path@ == file,
            (TraversalRequest::Nothing, TraversalView::Finished { lines, failure }) => true,
            _ => false,
        }
    }

    /// What the expansion waits for.
    pub fn request(&self) -> (r: TraversalRequest<'_>)
        ensures
            self.awaits(r),
    {
        match self {
            FileSetTraversal::Root { progress: _, root } => TraversalRequest::Inspect(&root.path),
            FileSetTraversal::Listing { progress: _, walk: _, directory } =>
                TraversalRequest::List(&directory.path),
            FileSetTraversal::Member {
                progress: _,
                walk: _,
                relative_directory: _,
                rest: _,
                member,
            } => TraversalRequest::Inspect(&member.path),
            FileSetTraversal::Hashing { progress: _, line: _, path } => TraversalRequest::Hash(
                path,
            ),
            FileSetTraversal::Finished { lines: _, failure: _ } => TraversalRequest::Nothing,
        }
    }

    /// Goes on with an answer. An answer to another question than the one
    /// that was asked changes nothing.
    pub fn resume(self, reply: TraversalReply) -> (r: Self)
        ensures
            r@ == self@.step(reply@),
    {
        match (self, reply) {
            (FileSetTraversal::Root { progress, root }, TraversalReply::Inspected(found)) =>
                progress.root_inspected(root, found),
            (
                FileSetTraversal::Listing { progress, walk, directory },
                TraversalReply::Listed(entries),
            ) => progress.listed(walk, directory, entries),
            (
                FileSetTraversal::Member { progress, walk, relative_directory, rest, member },
                TraversalReply::Inspected(found),
            ) => progress.member_inspected(walk, relative_directory, rest, member, found),
            (
                FileSetTraversal::Hashing { progress, line, path: _ },
                TraversalReply::Hashed(hash),
            ) => progress.hashed(line, hash),
            (unchanged, _) => unchanged,
        }
    }
}

} // verus!

//! Where each answer takes an expansion, question by question.

use crate::file_set::{
    ContentHash, EntryFileSetExcludeReason, EntryFileSetLine, EntryFileSetLineKind,
    ExpansionFailure, FileSetCaps, LineView, LocationView, PendingView, RootView,
    TopLevelFileMember, TraversalBudget, kind_of_hash, line_order,
};
use crate::files::{
    EntryView, FileMetadata, FileSetMemberKind, PathView, bytes_at_most, entry_order,
    kind_of_mode,
};
use crate::sorting::stable_sort;
use crate::traversal::{
    FileSetTraversal, PlacedView, ProgressView, ReplyView, TraversalReply, TraversalView,
    WalkView, all_of_kind, all_unvisited, build_file_member_lines, excluded,
};
use crate::unicode::nfc_form;
use crate::views::views;
use vstd::prelude::*;

verus! {

/// The name of a path, normalized, or `.` where it has none.
pub open spec fn name_of(path: PathView) -> Seq<char> {
    match path.file_name {
        Some(name) => nfc_form(name),
        None => seq!['.'],
    }
}

/// The path of a name below a directory of the same root.
pub open spec fn path_below(directory: Seq<char>, name: Seq<char>) -> Seq<char> {
    if directory.len() == 0 {
        name
    } else {
        directory + seq!['/'] + name
    }
}

/// The path of a directory as it is shown; the root itself is `.`.
pub open spec fn path_shown(directory: Seq<char>) -> Seq<char> {
    if directory.len() == 0 {
        seq!['.']
    } else {
        directory
    }
}

/// A file is executable where one of the three execute bits is set.
pub open spec fn kind_by_bits(mode: Option<u32>) -> FileSetMemberKind {
    match mode {
        Some(bits) => if bits & 0o100 != 0 || bits & 0o010 != 0 || bits & 0o001 != 0 {
            FileSetMemberKind::Executable
        } else {
            FileSetMemberKind::File
        },
        None => FileSetMemberKind::File,
    }
}

proof fn lemma_bits(mode: Option<u32>)
    ensures
        kind_of_mode(mode) == kind_by_bits(mode),
{
    if let Some(bits) = mode {
        assert((bits & 0o111 != 0) == (bits & 0o100 != 0 || bits & 0o010 != 0 || bits & 0o001 != 0))
            by (bit_vector);
    }
}

/// The lines by their index.
pub open spec fn by_index() -> spec_fn(LineView, LineView) -> bool {
    |a: LineView, b: LineView| a.line_index <= b.line_index
}

/// `a` and `b` differ first where `a` has the smaller byte, or `a` is the
/// front of `b`.
pub open spec fn comes_first(a: Seq<u8>, b: Seq<u8>) -> bool {
    ||| a.is_prefix_of(b)
    ||| exists|i: int| #[trigger] differ_at(a, b, i) && a[i] < b[i]
}

/// The first place where the two differ.
pub open spec fn differ_at(a: Seq<u8>, b: Seq<u8>, i: int) -> bool {
    &&& 0 <= i < a.len()
    &&& i < b.len()
    &&& a[i] != b[i]
    &&& forall|k: int| 0 <= k < i ==> #[trigger] a[k] == b[k]
}

/// Names are put in order byte by byte.
pub proof fn names_are_ordered_by_bytes(a: Seq<u8>, b: Seq<u8>)
    ensures
        bytes_at_most(a, b) == comes_first(a, b),
    decreases a.len(),
{
    if a.len() == 0 {
        assert(a.is_prefix_of(b));
    } else if b.len() == 0 {
        assert(!a.is_prefix_of(b));
    } else if a[0] == b[0] {
        let (x, y) = (a.drop_first(), b.drop_first());
        names_are_ordered_by_bytes(x, y);
        if x.is_prefix_of(y) {
            assert forall|k: int| 0 <= k < a.len() implies a[k] == b[k] by {
                if k > 0 {
                    assert(x[k - 1] == y.subrange(0, x.len() as int)[k - 1]);
                }
            }
            assert(b.subrange(0, a.len() as int) =~= a);
        }
        if a.is_prefix_of(b) {
            assert forall|k: int| 0 <= k < x.len() implies x[k] == y[k] by {
                assert(a[k + 1] == b.subrange(0, a.len() as int)[k + 1]);
            }
            assert(y.subrange(0, x.len() as int) =~= x);
        }
        if exists|i: int| #[trigger] differ_at(x, y, i) && x[i] < y[i] {
            let i = choose|i: int| #[trigger] differ_at(x, y, i) && x[i] < y[i];
            assert forall|k: int| 0 <= k < i + 1 implies #[trigger] a[k] == b[k] by {
                if k > 0 {
                    assert(x[k - 1] == y[k - 1]);
                }
            }
            assert(differ_at(a, b, i + 1));
        }
        if exists|i: int| #[trigger] differ_at(a, b, i) && a[i] < b[i] {
            let i = choose|i: int| #[trigger] differ_at(a, b, i) && a[i] < b[i];
            assert forall|k: int| 0 <= k < i - 1 implies #[trigger] x[k] == y[k] by {
                assert(a[k + 1] == b[k + 1]);
            }
            assert(differ_at(x, y, i - 1));
        }
    } else {
        if a.is_prefix_of(b) {
            assert(b.subrange(0, a.len() as int)[0] == a[0]);
        }
        assert(differ_at(a, b, 0));
        if exists|i: int| #[trigger] differ_at(a, b, i) && a[i] < b[i] {
            let i = choose|i: int| #[trigger] differ_at(a, b, i) && a[i] < b[i];
            assert(i == 0) by {
                if i > 0 {
                    assert(a[0] == b[0]);
                }
            }
        }
    }
}

/// Entries are taken by name, and lines stand by index.
pub proof fn entries_come_by_name_and_lines_by_index(
    a: EntryView,
    b: EntryView,
    x: LineView,
    y: LineView,
)
    ensures
        entry_order()(a, b) == comes_first(a.raw_name, b.raw_name),
        line_order()(x, y) == (x.line_index <= y.line_index),
{
    names_are_ordered_by_bytes(a.raw_name, b.raw_name);
}

/// A line that is excluded for this reason.
pub open spec fn excluded_line(line: PendingView, reason: EntryFileSetExcludeReason) -> LineView {
    LineView {
        line_index: line.line_index,
        original_text: line.original_text,
        member_location: Some(line.member_location),
        kind: EntryFileSetLineKind::Excluded { reason },
    }
}

/// A root that was not looked at, excluded for this reason under its name.
pub open spec fn excluded_root(root: RootView, reason: EntryFileSetExcludeReason) -> LineView {
    LineView {
        line_index: root.line_index,
        original_text: root.original_text,
        member_location: Some(
            LocationView {
                root_index: root.root_index,
                root_name: root.root_name,
                relative_path: name_of(root.path),
                kind: FileSetMemberKind::File,
            },
        ),
        kind: EntryFileSetLineKind::Excluded { reason },
    }
}

/// The expansion is given up: what was found and what was not looked at yet
/// is excluded, all for one reason, and the lines stand by index.
pub open spec fn gives_up(
    next: TraversalView,
    lines: Seq<LineView>,
    pending: Seq<PendingView>,
    roots: Seq<RootView>,
    failure: ExpansionFailure,
    reason: EntryFileSetExcludeReason,
) -> bool {
    next == (TraversalView::Finished {
        lines: stable_sort(
            lines + Seq::new(pending.len(), |i: int| excluded_line(pending[i], reason)) + Seq::new(
                roots.len(),
                |i: int| excluded_root(roots[i], reason),
            ),
            by_index(),
        ),
        failure: Some(failure),
    })
}

proof fn lemma_gives_up(progress: ProgressView, failure: ExpansionFailure)
    ensures
        gives_up(
            progress.stopped(failure),
            progress.lines,
            progress.pending,
            progress.roots,
            failure,
            failure.reason(),
        ),
{
    let reason = failure.reason();
    let (pending, roots) = (progress.pending, progress.roots);
    let whole = progress.lines + all_of_kind(pending + all_unvisited(roots), excluded(failure));
    let told = progress.lines + Seq::new(
        pending.len(),
        |i: int| excluded_line(pending[i], reason),
    ) + Seq::new(roots.len(), |i: int| excluded_root(roots[i], reason));
    assert(whole =~= told);
    assert(line_order() =~= by_index());
}

/// Each way to give up has the reason of its own name.
pub proof fn failures_have_their_reason()
    ensures
        ExpansionFailure::SizeCapExceeded.reason() == EntryFileSetExcludeReason::SizeCapExceeded,
        ExpansionFailure::UnsupportedMember.reason()
            == EntryFileSetExcludeReason::UnsupportedMember,
        ExpansionFailure::IngestFailed.reason() == EntryFileSetExcludeReason::IngestFailed,
{
}

/// Too large.
pub open spec fn is_too_large(
    next: TraversalView,
    progress: ProgressView,
    pending: Seq<PendingView>,
) -> bool {
    gives_up(
        next,
        progress.lines,
        pending,
        progress.roots,
        ExpansionFailure::SizeCapExceeded,
        EntryFileSetExcludeReason::SizeCapExceeded,
    )
}

/// Not to be carried over.
pub open spec fn is_unsupported(
    next: TraversalView,
    progress: ProgressView,
    pending: Seq<PendingView>,
) -> bool {
    gives_up(
        next,
        progress.lines,
        pending,
        progress.roots,
        ExpansionFailure::UnsupportedMember,
        EntryFileSetExcludeReason::UnsupportedMember,
    )
}

/// Not to be read.
pub open spec fn is_unreadable(
    next: TraversalView,
    progress: ProgressView,
    pending: Seq<PendingView>,
) -> bool {
    gives_up(
        next,
        progress.lines,
        pending,
        progress.roots,
        ExpansionFailure::IngestFailed,
        EntryFileSetExcludeReason::IngestFailed,
    )
}

/// A line without content, as it stands in the manifest.
pub open spec fn line_without_content(line: PendingView) -> LineView {
    LineView {
        line_index: line.line_index,
        original_text: line.original_text,
        member_location: Some(line.member_location),
        kind: EntryFileSetLineKind::NonFile,
    }
}

/// Hashing comes next: the first file that waits is hashed, and lines without
/// content before it are finished as they are. Where none waits, the lines
/// stand by index and the expansion is finished without a failure.
pub open spec fn hashing_comes(next: TraversalView, progress: ProgressView) -> bool {
    exists|n: int| #[trigger] hashing_comes_behind(next, progress, n)
}

/// Hashing comes next, behind `n` lines without content.
pub open spec fn hashing_comes_behind(next: TraversalView, progress: ProgressView, n: int) -> bool {
    let pending = progress.pending;
    let finished = progress.lines + Seq::new(
        n as nat,
        |i: int| line_without_content(pending[i]),
    );
    &&& 0 <= n <= pending.len()
    &&& forall|i: int| 0 <= i < n ==> (#[trigger] pending[i]).file_path is None
    &&& if n == pending.len() {
        next == (TraversalView::Finished {
            lines: stable_sort(finished, by_index()),
            failure: None,
        })
    } else {
        &&& pending[n].file_path is Some
        &&& next matches TraversalView::Hashing { progress: left, line, path }
        &&& left == (ProgressView { lines: finished, pending: pending.skip(n + 1), ..progress })
        &&& line == (PendingView { file_path: None, ..pending[n] })
        &&& pending[n].file_path == Some(path)
    }
}

proof fn lemma_hashing(progress: ProgressView)
    ensures
        hashing_comes(progress.next_hash(), progress),
    decreases progress.pending.len(),
{
    let pending = progress.pending;
    let next = progress.next_hash();
    if pending.len() == 0 {
        assert(line_order() =~= by_index());
        assert(progress.lines + Seq::new(0, |i: int| line_without_content(pending[i]))
            =~= progress.lines);
        assert(hashing_comes_behind(next, progress, 0));
    } else if pending[0].file_path is Some {
        assert(progress.lines + Seq::new(0, |i: int| line_without_content(pending[i]))
            =~= progress.lines);
        assert(pending.skip(1) =~= pending.drop_first());
        assert(hashing_comes_behind(next, progress, 0));
    } else {
        let rest = ProgressView {
            lines: progress.lines.push(pending[0].of_kind(EntryFileSetLineKind::NonFile)),
            pending: pending.drop_first(),
            ..progress
        };
        lemma_hashing(rest);
        let n = choose|n: int| #[trigger] hashing_comes_behind(next, rest, n);
        let left = rest.pending;
        assert(rest.lines + Seq::new(n as nat, |i: int| line_without_content(left[i]))
            =~= progress.lines + Seq::new(
            (n + 1) as nat,
            |i: int| line_without_content(pending[i]),
        ));
        assert forall|i: int| 0 <= i < n + 1 implies (#[trigger] pending[i]).file_path is None by {
            if i > 0 {
                assert(left[i - 1] == pending[i]);
            }
        }
        if n < left.len() {
            assert(left.skip(n + 1) =~= pending.skip(n + 2));
            assert(left[n] == pending[n + 1]);
        }
        assert(hashing_comes_behind(next, progress, n + 1));
    }
}

/// The next root is looked at; behind the last one hashing comes.
pub open spec fn root_comes(next: TraversalView, progress: ProgressView) -> bool {
    if progress.roots.len() > 0 {
        &&& next matches TraversalView::Root { progress: left, root }
        &&& seq![root] + left.roots == progress.roots
        &&& left == (ProgressView { roots: left.roots, ..progress })
    } else {
        hashing_comes(next, progress)
    }
}

proof fn lemma_root(progress: ProgressView)
    ensures
        root_comes(progress.next_root(), progress),
{
    lemma_hashing(progress);
    if progress.roots.len() > 0 {
        assert(seq![progress.roots[0]] + progress.roots.drop_first() == progress.roots);
    }
}

/// The next directory of the root is listed; behind the last one the members
/// of the root join those that were found before, and the next root comes.
pub open spec fn directory_comes(
    next: TraversalView,
    progress: ProgressView,
    walk: WalkView,
) -> bool {
    if walk.queue.len() > 0 {
        &&& next matches TraversalView::Listing { progress: left, walk: on, directory }
        &&& left == progress
        &&& seq![directory] + on.queue == walk.queue
        &&& on.root == walk.root && on.members == walk.members
    } else {
        root_comes(next, ProgressView { pending: progress.pending + walk.members, ..progress })
    }
}

proof fn lemma_directory(progress: ProgressView, walk: WalkView)
    ensures
        directory_comes(progress.next_directory(walk), progress, walk),
{
    lemma_root(ProgressView { pending: progress.pending + walk.members, ..progress });
    if walk.queue.len() > 0 {
        assert(seq![walk.queue[0]] + walk.queue.drop_first() == walk.queue);
    }
}

/// The next line index that no root brought with it; the largest stays.
pub open spec fn index_behind(index: i64) -> i64 {
    if index < i64::MAX {
        (index + 1) as i64
    } else {
        i64::MAX
    }
}

/// A member of the root.
pub open spec fn member_line(
    root: RootView,
    line_index: i64,
    relative_path: Seq<char>,
    kind: FileSetMemberKind,
    file_path: Option<PathView>,
) -> PendingView {
    PendingView {
        line_index,
        original_text: root.original_text,
        member_location: LocationView {
            root_index: root.root_index,
            root_name: root.root_name,
            relative_path,
            kind,
        },
        file_path,
    }
}

/// The root as a member of its own.
pub open spec fn root_line(
    root: RootView,
    kind: FileSetMemberKind,
    file_path: Option<PathView>,
) -> PendingView {
    member_line(root, root.line_index, name_of(root.path), kind, file_path)
}

/// One more member is counted: one in number, and its size in bytes, neither
/// beyond the largest number there is.
pub open spec fn one_more(budget: TraversalBudget, size: u64) -> TraversalBudget {
    TraversalBudget {
        member_count: if budget.member_count < u64::MAX {
            (budget.member_count + 1) as u64
        } else {
            u64::MAX
        },
        total_bytes: if budget.total_bytes + size <= u64::MAX {
            (budget.total_bytes + size) as u64
        } else {
            u64::MAX
        },
    }
}

/// There is a cap on members or on bytes, and the budget is beyond it.
pub open spec fn is_over(budget: TraversalBudget, caps: FileSetCaps) -> bool {
    ||| caps.max_member_count != 0 && budget.member_count > caps.max_member_count
    ||| caps.max_total_bytes != 0 && budget.total_bytes > caps.max_total_bytes
}

/// Members are counted one by one, with their bytes, against caps of which
/// zero is none. A set is over where it is beyond one of them, not where it
/// reaches it.
pub proof fn budgets_count_members_and_bytes(budget: TraversalBudget, size: u64, caps: FileSetCaps)
    ensures
        budget.after(size) == one_more(budget, size),
        budget.exceeds(caps) == is_over(budget, caps),
        TraversalBudget::unused().member_count == 0 && TraversalBudget::unused().total_bytes == 0,
{
}

/// The next entry of the directory is looked at, at its path below the root
/// under its normalized name; one whose name cannot be decoded gives the set
/// up, with a marker for its directory. Behind the last one the next
/// directory comes.
pub open spec fn entry_comes(
    next: TraversalView,
    progress: ProgressView,
    walk: WalkView,
    directory: Seq<char>,
    entries: Seq<EntryView>,
) -> bool {
    if entries.len() == 0 {
        directory_comes(next, progress, walk)
    } else {
        match entries[0].name {
            None => is_unsupported(
                next,
                progress,
                progress.pending.push(
                    member_line(
                        walk.root,
                        progress.next_line,
                        path_shown(directory),
                        FileSetMemberKind::File,
                        None,
                    ),
                ),
            ),
            Some(name) => {
                &&& next matches TraversalView::Member {
                    progress: left,
                    walk: on,
                    relative_directory,
                    rest,
                    member,
                }
                &&& left == progress
                &&& on == walk
                &&& relative_directory == directory
                &&& seq![entries[0]] + rest == entries
                &&& member.path == entries[0].path
                &&& member.relative_path == path_below(directory, nfc_form(name))
            },
        }
    }
}

proof fn lemma_walk_failed(
    progress: ProgressView,
    walk: WalkView,
    relative_path: Seq<char>,
    failure: ExpansionFailure,
)
    ensures
        gives_up(
            progress.walk_failed(walk, relative_path, failure),
            progress.lines,
            progress.pending.push(
                member_line(
                    walk.root,
                    progress.next_line,
                    path_shown(relative_path),
                    FileSetMemberKind::File,
                    None,
                ),
            ),
            progress.roots,
            failure,
            failure.reason(),
        ),
{
    lemma_gives_up(
        progress.line_taken().found(
            walk.root.directory_marker(progress.next_line, relative_path),
        ),
        failure,
    );
}

proof fn lemma_entry(
    progress: ProgressView,
    walk: WalkView,
    directory: Seq<char>,
    entries: Seq<EntryView>,
)
    ensures
        entry_comes(
            progress.next_entry(walk, directory, entries),
            progress,
            walk,
            directory,
            entries,
        ),
{
    lemma_directory(progress, walk);
    if entries.len() > 0 {
        assert(seq![entries[0]] + entries.drop_first() == entries);
        if entries[0].name is None {
            lemma_walk_failed(progress, walk, directory, ExpansionFailure::UnsupportedMember);
        }
    }
}

/// A root that is a file is counted, by the size that it came with or else by
/// its size, and found; one that cannot be looked at is found all the same,
/// and counted by the size that it came with, if any. A set that is then over
/// its caps is given up as too large.
pub proof fn files_are_found_as_roots(
    progress: ProgressView,
    root: RootView,
    found: Option<FileMetadata>,
)
    requires
        found matches Some(metadata) ==> !metadata.symlink && !metadata.directory
            && metadata.regular,
    ensures
        ({
            let next = (TraversalView::Root { progress, root }).step(ReplyView::Inspected(found));
            let size = match (root.known_size, found) {
                (Some(known), _) => known,
                (None, Some(metadata)) => metadata.len,
                (None, None) => 0,
            };
            let kind = match found {
                Some(metadata) => kind_by_bits(metadata.mode),
                None => FileSetMemberKind::File,
            };
            let budget = one_more(progress.budget, size);
            let pending = progress.pending.push(root_line(root, kind, Some(root.path)));
            if is_over(budget, progress.caps) {
                is_too_large(next, progress, pending)
            } else {
                root_comes(next, ProgressView { budget, pending, ..progress })
            }
        }),
{
    let size = match (root.known_size, found) {
        (Some(known), _) => known,
        (None, Some(metadata)) => metadata.len,
        (None, None) => 0,
    };
    let line = match found {
        Some(metadata) => root.flat_file(metadata),
        None => root.missing_file(),
    };
    if let Some(metadata) = found {
        lemma_bits(metadata.mode);
    }
    let counted = progress.counted(size).found(line);
    lemma_gives_up(counted, ExpansionFailure::SizeCapExceeded);
    lemma_root(counted);
}

/// A root that is a symbolic link, whatever else it is, or that is neither a
/// directory nor a file gives the set up, with a marker at the next index for
/// the root itself.
pub proof fn links_and_special_files_are_not_carried_over(
    progress: ProgressView,
    root: RootView,
    found: FileMetadata,
)
    requires
        found.symlink || !found.directory && !found.regular,
    ensures
        is_unsupported(
            (TraversalView::Root { progress, root }).step(ReplyView::Inspected(Some(found))),
            progress,
            progress.pending.push(
                member_line(
                    root,
                    progress.next_line,
                    seq!['.'],
                    FileSetMemberKind::File,
                    None,
                ),
            ),
        ),
{
    lemma_gives_up(
        progress.found(root.marker(progress.next_line)),
        ExpansionFailure::UnsupportedMember,
    );
}

/// A root that is a directory is listed, from its own path on, with no member
/// found yet.
pub proof fn directories_are_listed(progress: ProgressView, root: RootView, found: FileMetadata)
    requires
        !found.symlink,
        found.directory,
    ensures
        (TraversalView::Root { progress, root }).step(ReplyView::Inspected(Some(found))) matches
            TraversalView::Listing { progress: left, walk, directory } && left == progress
            && walk.root == root && walk.queue.len() == 0 && walk.members.len() == 0
            && directory.path == root.path && directory.relative_path.len() == 0,
{
    assert(WalkView::at(root).queue.drop_first() =~= Seq::<PlacedView>::empty());
}

/// An empty directory is a member of its own, without content and of no size,
/// and is counted; one that cannot be listed gives the set up as unreadable,
/// with a marker for it. What a directory holds is taken by name.
pub proof fn listings_are_taken_by_name(
    progress: ProgressView,
    walk: WalkView,
    directory: PlacedView,
    entries: Seq<EntryView>,
)
    ensures
        ({
            let state = TraversalView::Listing { progress, walk, directory };
            let shown = path_shown(directory.relative_path);
            let empty = member_line(
                walk.root,
                progress.next_line,
                shown,
                FileSetMemberKind::EmptyDirectory,
                None,
            );
            let budget = one_more(progress.budget, 0);
            &&& is_unreadable(
                state.step(ReplyView::Listed(None)),
                progress,
                progress.pending.push(
                    member_line(
                        walk.root,
                        progress.next_line,
                        shown,
                        FileSetMemberKind::File,
                        None,
                    ),
                ),
            )
            &&& if entries.len() > 0 {
                entry_comes(
                    state.step(ReplyView::Listed(Some(entries))),
                    progress,
                    walk,
                    directory.relative_path,
                    stable_sort(entries, entry_order()),
                )
            } else if is_over(budget, progress.caps) {
                is_too_large(
                    state.step(ReplyView::Listed(Some(entries))),
                    progress,
                    progress.pending.push(empty),
                )
            } else {
                directory_comes(
                    state.step(ReplyView::Listed(Some(entries))),
                    ProgressView {
                        budget,
                        next_line: index_behind(progress.next_line),
                        ..progress
                    },
                    WalkView { members: walk.members.push(empty), ..walk },
                )
            }
        }),
{
    let empty = member_line(
        walk.root,
        progress.next_line,
        path_shown(directory.relative_path),
        FileSetMemberKind::EmptyDirectory,
        None,
    );
    let counted = progress.line_taken().counted(0);
    lemma_walk_failed(
        progress,
        walk,
        directory.relative_path,
        ExpansionFailure::IngestFailed,
    );
    lemma_gives_up(counted.found(empty), ExpansionFailure::SizeCapExceeded);
    lemma_directory(counted, walk.found(empty));
    lemma_entry(
        progress,
        walk,
        directory.relative_path,
        stable_sort(entries, entry_order()),
    );
}

/// A file in a directory is found at the next index, and counted by its size;
/// a directory waits to be listed behind those before it. A link, a special
/// file and what cannot be looked at give the set up, with a marker for the
/// entry.
pub proof fn members_are_found_in_turn(
    progress: ProgressView,
    walk: WalkView,
    directory: Seq<char>,
    rest: Seq<EntryView>,
    member: PlacedView,
    found: Option<FileMetadata>,
)
    ensures
        ({
            let next = (TraversalView::Member {
                progress,
                walk,
                relative_directory: directory,
                rest,
                member,
            }).step(ReplyView::Inspected(found));
            let marked = progress.pending.push(
                member_line(
                    walk.root,
                    progress.next_line,
                    path_shown(member.relative_path),
                    FileSetMemberKind::File,
                    None,
                ),
            );
            match found {
                None => is_unreadable(next, progress, marked),
                Some(metadata) => {
                    let line = member_line(
                        walk.root,
                        progress.next_line,
                        member.relative_path,
                        kind_by_bits(metadata.mode),
                        Some(member.path),
                    );
                    let budget = one_more(progress.budget, metadata.len);
                    if metadata.symlink || !metadata.directory && !metadata.regular {
                        is_unsupported(next, progress, marked)
                    } else if metadata.directory {
                        entry_comes(
                            next,
                            progress,
                            WalkView { queue: walk.queue.push(member), ..walk },
                            directory,
                            rest,
                        )
                    } else if is_over(budget, progress.caps) {
                        is_too_large(next, progress, progress.pending.push(line))
                    } else {
                        entry_comes(
                            next,
                            ProgressView {
                                budget,
                                next_line: index_behind(progress.next_line),
                                ..progress
                            },
                            WalkView { members: walk.members.push(line), ..walk },
                            directory,
                            rest,
                        )
                    }
                },
            }
        }),
{
    lemma_walk_failed(progress, walk, member.relative_path, ExpansionFailure::IngestFailed);
    lemma_walk_failed(progress, walk, member.relative_path, ExpansionFailure::UnsupportedMember);
    if let Some(metadata) = found {
        lemma_bits(metadata.mode);
        let line = walk.root.member(
            progress.next_line,
            member.relative_path,
            kind_by_bits(metadata.mode),
            Some(member.path),
        );
        let counted = progress.line_taken().counted(metadata.len);
        lemma_gives_up(counted.found(line), ExpansionFailure::SizeCapExceeded);
        lemma_entry(counted, walk.found(line), directory, rest);
        lemma_entry(
            progress,
            WalkView { queue: walk.queue.push(member), ..walk },
            directory,
            rest,
        );
    }
}

/// A file that was hashed stands in the manifest by its content, with no blob
/// and no size yet; one that could not be read is excluded by itself, and the
/// others go on to be hashed.
pub proof fn files_are_listed_by_their_content(
    progress: ProgressView,
    line: PendingView,
    path: PathView,
    hash: Option<ContentHash>,
)
    ensures
        hashing_comes(
            (TraversalView::Hashing { progress, line, path }).step(ReplyView::Hashed(hash)),
            ProgressView {
                lines: progress.lines.push(
                    LineView {
                        line_index: line.line_index,
                        original_text: line.original_text,
                        member_location: Some(line.member_location),
                        kind: match hash {
                            Some(content_hash) => EntryFileSetLineKind::File {
                                content_hash,
                                blob_id: None,
                                size_bytes: None,
                            },
                            None => EntryFileSetLineKind::Excluded {
                                reason: EntryFileSetExcludeReason::IngestFailed,
                            },
                        },
                    },
                ),
                ..progress
            },
        ),
{
    lemma_hashing(
        ProgressView {
            lines: progress.lines.push(
                line.of_kind(kind_of_hash(hash, false)),
            ),
            ..progress
        },
    );
}

/// An expansion starts with the first root, with nothing counted and nothing
/// found; one with more roots than members are allowed is given up as too
/// large before anything is looked at.
pub proof fn expansions_start_with_the_first_root(
    roots: Seq<RootView>,
    lines: Seq<LineView>,
    top_level_count: i64,
    caps: FileSetCaps,
)
    ensures
        ({
            let next = TraversalView::started(roots, lines, top_level_count, caps);
            let progress = ProgressView {
                caps,
                lines,
                roots,
                budget: TraversalBudget { member_count: 0, total_bytes: 0 },
                pending: seq![],
                next_line: top_level_count,
            };
            if caps.max_member_count != 0 && roots.len() > caps.max_member_count {
                is_too_large(next, progress, seq![])
            } else {
                root_comes(next, progress)
            }
        }),
{
    let progress = ProgressView {
        caps,
        lines,
        roots,
        budget: TraversalBudget { member_count: 0, total_bytes: 0 },
        pending: seq![],
        next_line: top_level_count,
    };
    lemma_gives_up(progress, ExpansionFailure::SizeCapExceeded);
    lemma_root(progress);
}

/// An answer to another question than the one that is asked changes nothing,
/// and an expansion that is finished is changed by none.
pub proof fn other_answers_change_no_expansion(state: TraversalView, reply: ReplyView)
    requires
        state is Root || state is Member ==> reply !is Inspected,
        state is Listing ==> reply !is Listed,
        state is Hashing ==> reply !is Hashed,
    ensures
        state.step(reply) == state,
{
}

/// What is resumed is what the answer takes it to, and what is started is the
/// expansion of these roots.
pub proof fn expansions_go_where_answers_take_them(
    traversal: FileSetTraversal,
    reply: TraversalReply,
    next: FileSetTraversal,
    roots: Vec<TopLevelFileMember>,
    lines: Vec<EntryFileSetLine>,
    top_level_count: i64,
    caps: FileSetCaps,
    started: FileSetTraversal,
)
    requires
        call_ensures(FileSetTraversal::resume, (traversal, reply), next),
        call_ensures(build_file_member_lines, (roots, lines, top_level_count, caps), started),
    ensures
        next@ == traversal@.step(reply@),
        started@ == TraversalView::started(views(roots@), views(lines@), top_level_count, caps),
{
}

} // verus!

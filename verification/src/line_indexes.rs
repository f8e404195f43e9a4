//! No two lines of a manifest share a line index.

use crate::file_set::{
    EntryFileSetLineKind, ExpansionFailure, LineView, PendingView, RootView, kind_of_hash,
    line_index_after, line_order,
};
use crate::files::{EntryView, FileMetadata, entry_order};
use crate::sorting::{sort_keeps_members, sort_of_images, stable_sort};
use crate::traversal::{
    PlacedView, ProgressView, ReplyView, TraversalView, WalkView, all_of_kind, all_unvisited,
    excluded,
};
use crate::traversal_laws::Selection;
use vstd::prelude::*;

verus! {

/// The indexes of finished lines.
pub open spec fn line_indexes(lines: Seq<LineView>) -> Seq<i64> {
    lines.map_values(|line: LineView| line.line_index)
}

/// The indexes that roots bring with them.
pub open spec fn root_indexes(roots: Seq<RootView>) -> Seq<i64> {
    roots.map_values(|root: RootView| root.line_index)
}

spec fn pending_indexes(pending: Seq<PendingView>) -> Seq<i64> {
    pending.map_values(|line: PendingView| line.line_index)
}

impl Selection {
    /// The indexes that the selection brings with it are distinct, and lie
    /// below those that directories are given.
    pub open spec fn has_distinct_indexes(self) -> bool {
        let given = line_indexes(self.lines) + root_indexes(self.roots);
        &&& given.no_duplicates()
        &&& forall|i: int| 0 <= i < given.len() ==> #[trigger] given[i] < self.top_level_count
    }
}

/// The index was given to a member of a directory, or is that of one of the
/// first `settled` roots.
spec fn index_used(given: Selection, settled: int, next_line: i64, index: i64) -> bool {
    given.top_level_count <= index < next_line || root_indexes(given.roots).take(settled).contains(
        index,
    )
}

spec fn all_used(given: Selection, settled: int, next_line: i64, pending: Seq<PendingView>) -> bool {
    forall|m: int|
        0 <= m < pending.len() ==> index_used(
            given,
            settled,
            next_line,
            #[trigger] pending_indexes(pending)[m],
        )
}

spec fn numbering(
    given: Selection,
    p: ProgressView,
    members: Seq<PendingView>,
    settled: int,
    held: int,
    replies: int,
) -> bool {
    let all = p.pending + members;
    &&& given.has_distinct_indexes()
    &&& p.lines == given.lines
    &&& 0 <= settled
    &&& 0 <= held
    &&& settled + held <= given.roots.len()
    &&& p.roots == given.roots.skip(settled + held)
    &&& given.top_level_count <= p.next_line <= given.top_level_count + replies
    &&& pending_indexes(all).no_duplicates()
    &&& all_used(given, settled, p.next_line, all)
}

spec fn in_order(p: ProgressView, in_hand: Seq<PendingView>) -> Seq<i64> {
    line_indexes(p.lines) + pending_indexes(in_hand) + pending_indexes(p.pending)
}

spec fn numbered(given: Selection, state: TraversalView, replies: int) -> bool {
    match state {
        TraversalView::Root { progress, root } => {
            let settled = given.roots.len() - progress.roots.len() - 1;
            &&& numbering(given, progress, seq![], settled, 1, replies)
            &&& root == given.roots[settled]
        },
        TraversalView::Listing { progress, walk, directory } => {
            let settled = given.roots.len() - progress.roots.len() - 1;
            numbering(given, progress, walk.members, settled, 1, replies)
        },
        TraversalView::Member { progress, walk, relative_directory, rest, member } => {
            let settled = given.roots.len() - progress.roots.len() - 1;
            numbering(given, progress, walk.members, settled, 1, replies)
        },
        TraversalView::Hashing { progress, line, path } => in_order(
            progress,
            seq![line],
        ).no_duplicates(),
        TraversalView::Finished { lines, failure } => line_indexes(lines).no_duplicates(),
    }
}

proof fn lemma_sorted_indexes(lines: Seq<LineView>)
    requires
        line_indexes(lines).no_duplicates(),
    ensures
        line_indexes(stable_sort(lines, line_order())).no_duplicates(),
{
    let leq = |a: i64, b: i64| a <= b;
    sort_of_images(lines, line_order(), |line: LineView| line.line_index, leq);
    sort_keeps_members(line_indexes(lines), leq);
    line_indexes(lines).lemma_multiset_has_no_duplicates();
    stable_sort(line_indexes(lines), leq).lemma_multiset_has_no_duplicates_conv();
}

/// Where the expansion is given up, the roots not looked at keep the indexes
/// that nothing else has.
proof fn lemma_stopped(given: Selection, p: ProgressView, settled: int, failure: ExpansionFailure)
    requires
        given.has_distinct_indexes(),
        p.lines == given.lines,
        0 <= settled <= given.roots.len(),
        p.roots == given.roots.skip(settled),
        pending_indexes(p.pending).no_duplicates(),
        forall|m: int|
            0 <= m < p.pending.len() ==> given.top_level_count <= #[trigger] pending_indexes(
                p.pending,
            )[m] || root_indexes(given.roots).take(settled).contains(
                pending_indexes(p.pending)[m],
            ),
    ensures
        numbered(given, p.stopped(failure), 0),
{
    let kind = excluded(failure);
    let tail = all_of_kind(p.pending + all_unvisited(p.roots), kind);
    let l = line_indexes(given.lines);
    let r = root_indexes(given.roots);
    let a = pending_indexes(p.pending);
    let b = root_indexes(p.roots);
    let whole = line_indexes(p.lines + tail);
    assert(whole =~= l + a + b) by {
        assert(line_indexes(tail) =~= a + b);
    }
    let both = l + r;
    assert forall|i: int, j: int| 0 <= i < j < whole.len() implies whole[i] != whole[j] by {
        let nl = l.len() as int;
        let na = a.len() as int;
        // A value of `a` is at least the first free index, or the index of a
        // root that was looked at.
        if j < nl {
            assert(whole[i] == both[i] && whole[j] == both[j]);
        } else if j < nl + na {
            assert(whole[j] == a[j - nl]);
            if i < nl {
                assert(whole[i] == both[i]);
                if a[j - nl] < given.top_level_count {
                    let k = choose|k: int| 0 <= k < settled && r.take(settled)[k] == a[j - nl];
                    assert(both[nl + k] == r[k]);
                }
            } else {
                assert(whole[i] == a[i - nl]);
            }
        } else {
            let rj = settled + (j - nl - na);
            assert(whole[j] == r[rj]);
            assert(both[nl + rj] == r[rj]);
            if i < nl {
                assert(whole[i] == both[i]);
            } else if i < nl + na {
                assert(whole[i] == a[i - nl]);
                if a[i - nl] < given.top_level_count {
                    let k = choose|k: int| 0 <= k < settled && r.take(settled)[k] == a[i - nl];
                    assert(both[nl + k] == r[k]);
                }
            } else {
                let ri = settled + (i - nl - na);
                assert(whole[i] == r[ri]);
                assert(both[nl + ri] == r[ri]);
            }
        }
    }
    lemma_sorted_indexes(p.lines + tail);
}

proof fn lemma_next_hash(given: Selection, p: ProgressView)
    requires
        in_order(p, seq![]).no_duplicates(),
    ensures
        numbered(given, p.next_hash(), 0),
    decreases p.pending.len(),
{
    let none = Seq::<PendingView>::empty();
    if p.pending.len() == 0 {
        assert(in_order(p, none) =~= line_indexes(p.lines));
        lemma_sorted_indexes(p.lines);
    } else {
        let line = p.pending[0];
        let rest = ProgressView { pending: p.pending.drop_first(), ..p };
        match line.file_path {
            Some(path) => {
                let bare = PendingView { file_path: None, ..line };
                assert(in_order(rest, seq![bare]) =~= in_order(p, none));
            },
            None => {
                let next = ProgressView {
                    lines: p.lines.push(line.of_kind(EntryFileSetLineKind::NonFile)),
                    ..rest
                };
                assert(in_order(next, none) =~= in_order(p, none));
                lemma_next_hash(given, next);
            },
        }
    }
}

proof fn lemma_next_root(given: Selection, p: ProgressView, replies: int)
    requires
        numbering(given, p, seq![], given.roots.len() - p.roots.len(), 0, replies),
    ensures
        numbered(given, p.next_root(), replies),
{
    let none = Seq::<PendingView>::empty();
    let settled = given.roots.len() - p.roots.len();
    assert(p.pending + none =~= p.pending);
    if p.roots.len() == 0 {
        // The lines of the manifest in the order in which they were found.
        let l = line_indexes(given.lines);
        let r = root_indexes(given.roots);
        let both = l + r;
        let a = pending_indexes(p.pending);
        let whole = in_order(p, none);
        assert(whole =~= l + a);
        assert forall|i: int, j: int| 0 <= i < j < whole.len() implies whole[i] != whole[j] by {
            let nl = l.len() as int;
            if i < nl {
                assert(whole[i] == both[i]);
            }
            if j < nl {
                assert(whole[j] == both[j]);
            } else if i < nl {
                assert(index_used(given, settled, p.next_line, a[j - nl]));
                if a[j - nl] < given.top_level_count {
                    let k = choose|k: int| 0 <= k < settled && r.take(settled)[k] == a[j - nl];
                    assert(both[nl + k] == r[k]);
                }
            } else {
                assert(whole[i] == a[i - nl] && whole[j] == a[j - nl]);
            }
        }
        lemma_next_hash(given, p);
    } else {
        assert(p.roots.drop_first() =~= given.roots.skip(settled + 1));
        assert(p.roots[0] == given.roots[settled]);
    }
}

/// One more line with the index of the root in hand.
proof fn lemma_root_line(
    given: Selection,
    p: ProgressView,
    line: PendingView,
    replies: int,
)
    requires
        numbering(given, p, seq![], given.roots.len() - p.roots.len() - 1, 1, replies),
        line.line_index == given.roots[given.roots.len() - p.roots.len() - 1].line_index,
    ensures
        numbering(
            given,
            p.found(line),
            seq![],
            given.roots.len() - p.roots.len(),
            0,
            replies,
        ),
{
    let none = Seq::<PendingView>::empty();
    let settled = given.roots.len() - p.roots.len() - 1;
    let next = p.found(line);
    let a = pending_indexes(p.pending);
    let b = pending_indexes(next.pending);
    let r = root_indexes(given.roots);
    let l = line_indexes(given.lines);
    let both = l + r;
    assert(p.pending + none =~= p.pending);
    assert(next.pending + none =~= next.pending);
    assert(b =~= a.push(line.line_index));
    assert(both[l.len() + settled] == line.line_index);
    assert forall|m: int| 0 <= m < a.len() implies a[m] != line.line_index && index_used(
        given,
        settled + 1,
        p.next_line,
        #[trigger] a[m],
    ) by {
        assert(index_used(given, settled, p.next_line, pending_indexes(p.pending)[m]));
        if a[m] < given.top_level_count {
            let k = choose|k: int| 0 <= k < settled && r.take(settled)[k] == a[m];
            assert(both[l.len() + k] == r[k]);
            assert(r.take(settled + 1)[k] == a[m]);
        }
    }
    assert(r.take(settled + 1)[settled] == line.line_index);
    assert forall|m: int| 0 <= m < next.pending.len() implies index_used(
        given,
        settled + 1,
        p.next_line,
        #[trigger] pending_indexes(next.pending)[m],
    ) by {
        if m < a.len() {
            assert(b[m] == a[m]);
        }
    }
    assert(next.roots =~= given.roots.skip(settled + 1));
}

proof fn lemma_flat(
    given: Selection,
    p: ProgressView,
    line: PendingView,
    size_bytes: u64,
    replies: int,
)
    requires
        numbering(given, p, seq![], given.roots.len() - p.roots.len() - 1, 1, replies),
        line.line_index == given.roots[given.roots.len() - p.roots.len() - 1].line_index,
    ensures
        numbered(given, p.flat(line, size_bytes), replies),
{
    let next = p.counted(size_bytes).found(line);
    lemma_root_line(given, p.counted(size_bytes), line, replies);
    let none = Seq::<PendingView>::empty();
    assert(next.pending + none =~= next.pending);
    if next.budget.exceeds(p.caps) {
        lemma_stopped(
            given,
            next,
            given.roots.len() - p.roots.len(),
            ExpansionFailure::SizeCapExceeded,
        );
    } else {
        lemma_next_root(given, next, replies);
    }
}

/// The members in hand are given up, and a line with the next index takes
/// their place.
proof fn lemma_marked(
    given: Selection,
    p: ProgressView,
    members: Seq<PendingView>,
    next_line: i64,
    line: PendingView,
    failure: ExpansionFailure,
    replies: int,
)
    requires
        numbering(given, p, members, given.roots.len() - p.roots.len() - 1, 1, replies),
        line.line_index == p.next_line,
    ensures
        numbered(given, (ProgressView { next_line, ..p }).found(line).stopped(failure), 0),
{
    let settled = given.roots.len() - p.roots.len() - 1;
    let next = (ProgressView { next_line, ..p }).found(line);
    let all = pending_indexes(p.pending + members);
    let a = pending_indexes(p.pending);
    let b = pending_indexes(next.pending);
    let r = root_indexes(given.roots);
    assert(b =~= a.push(line.line_index));
    assert forall|m: int| 0 <= m < a.len() implies a[m] != line.line_index && (
    given.top_level_count <= a[m] || r.take(settled + 1).contains(#[trigger] a[m])) by {
        assert(all[m] == a[m]);
        assert(index_used(given, settled, p.next_line, all[m]));
        if a[m] < given.top_level_count {
            let k = choose|k: int| 0 <= k < settled && r.take(settled)[k] == a[m];
            assert(r.take(settled + 1)[k] == a[m]);
        }
        if a[m] == line.line_index {
            let k = choose|k: int| 0 <= k < settled && r.take(settled)[k] == a[m];
            let both = line_indexes(given.lines) + r;
            assert(both[given.lines.len() + k] == r[k]);
        }
    }
    assert forall|i: int, j: int| 0 <= i < j < b.len() implies b[i] != b[j] by {
        if j < a.len() {
            assert(all[i] == a[i] && all[j] == a[j]);
        } else {
            assert(b[i] == a[i]);
        }
    }
    assert forall|m: int| 0 <= m < next.pending.len() implies given.top_level_count
        <= #[trigger] pending_indexes(next.pending)[m] || r.take(settled + 1).contains(
        pending_indexes(next.pending)[m],
    ) by {
        if m < a.len() {
            assert(b[m] == a[m]);
        }
    }
    assert(next.roots =~= given.roots.skip(settled + 1));
    lemma_stopped(given, next, settled + 1, failure);
}

/// A member of the directory in hand takes the next index.
proof fn lemma_member_line(
    given: Selection,
    p: ProgressView,
    members: Seq<PendingView>,
    line: PendingView,
    size_bytes: u64,
    replies: int,
)
    requires
        numbering(given, p, members, given.roots.len() - p.roots.len() - 1, 1, replies),
        line.line_index == p.next_line,
        given.top_level_count + replies < i64::MAX,
    ensures
        numbering(
            given,
            p.line_taken().counted(size_bytes),
            members.push(line),
            given.roots.len() - p.roots.len() - 1,
            1,
            replies + 1,
        ),
{
    let settled = given.roots.len() - p.roots.len() - 1;
    let next = p.line_taken().counted(size_bytes);
    let all = pending_indexes(p.pending + members);
    let more = pending_indexes(p.pending + members.push(line));
    let r = root_indexes(given.roots);
    assert(more =~= all.push(line.line_index));
    assert forall|m: int| 0 <= m < all.len() implies all[m] != line.line_index by {
        assert(index_used(given, settled, p.next_line, pending_indexes(p.pending + members)[m]));
        if all[m] == line.line_index {
            let k = choose|k: int| 0 <= k < settled && r.take(settled)[k] == all[m];
            let both = line_indexes(given.lines) + r;
            assert(both[given.lines.len() + k] == r[k]);
        }
    }
    assert forall|m: int| 0 <= m < more.len() implies index_used(
        given,
        settled,
        next.next_line,
        #[trigger] more[m],
    ) by {
        if m < all.len() {
            assert(more[m] == all[m]);
            assert(index_used(
                given,
                settled,
                p.next_line,
                pending_indexes(p.pending + members)[m],
            ));
        }
    }
}

proof fn lemma_next_directory(given: Selection, p: ProgressView, walk: WalkView, replies: int)
    requires
        numbering(given, p, walk.members, given.roots.len() - p.roots.len() - 1, 1, replies),
    ensures
        numbered(given, p.next_directory(walk), replies),
{
    if walk.queue.len() == 0 {
        let settled = given.roots.len() - p.roots.len() - 1;
        let next = ProgressView { pending: p.pending + walk.members, ..p };
        let none = Seq::<PendingView>::empty();
        let r = root_indexes(given.roots);
        assert(next.pending + none =~= next.pending);
        assert(next.roots =~= given.roots.skip(settled + 1));
        assert forall|m: int| 0 <= m < next.pending.len() implies index_used(
            given,
            settled + 1,
            p.next_line,
            #[trigger] pending_indexes(next.pending)[m],
        ) by {
            let index = pending_indexes(next.pending)[m];
            assert(index_used(given, settled, p.next_line, index));
            if r.take(settled).contains(index) {
                let k = choose|k: int| 0 <= k < settled && r.take(settled)[k] == index;
                assert(r.take(settled + 1)[k] == index);
            }
        }
        lemma_next_root(given, next, replies);
    }
}

proof fn lemma_next_entry(
    given: Selection,
    p: ProgressView,
    walk: WalkView,
    relative_directory: Seq<char>,
    entries: Seq<EntryView>,
    replies: int,
)
    requires
        numbering(given, p, walk.members, given.roots.len() - p.roots.len() - 1, 1, replies),
    ensures
        numbered(given, p.next_entry(walk, relative_directory, entries), replies),
{
    if entries.len() == 0 {
        lemma_next_directory(given, p, walk, replies);
    } else if entries[0].name is None {
        lemma_walk_failed(
            given,
            p,
            walk,
            relative_directory,
            ExpansionFailure::UnsupportedMember,
            replies,
        );
    }
}

proof fn lemma_walk_failed(
    given: Selection,
    p: ProgressView,
    walk: WalkView,
    relative_path: Seq<char>,
    failure: ExpansionFailure,
    replies: int,
)
    requires
        numbering(given, p, walk.members, given.roots.len() - p.roots.len() - 1, 1, replies),
    ensures
        numbered(given, p.walk_failed(walk, relative_path, failure), replies),
{
    lemma_marked(
        given,
        p,
        walk.members,
        line_index_after(p.next_line),
        walk.root.directory_marker(p.next_line, relative_path),
        failure,
        replies,
    );
}

proof fn lemma_listed(
    given: Selection,
    p: ProgressView,
    walk: WalkView,
    directory: PlacedView,
    entries: Option<Seq<EntryView>>,
    replies: int,
)
    requires
        numbering(given, p, walk.members, given.roots.len() - p.roots.len() - 1, 1, replies),
        given.top_level_count + replies < i64::MAX,
    ensures
        numbered(given, p.listed(walk, directory, entries), replies + 1),
{
    match entries {
        None => {
            lemma_walk_failed(
                given,
                p,
                walk,
                directory.relative_path,
                ExpansionFailure::IngestFailed,
                replies,
            );
        },
        Some(unsorted) => {
            if unsorted.len() == 0 {
                let marker = walk.root.member(
                    p.next_line,
                    crate::files::shown_path(directory.relative_path),
                    crate::files::FileSetMemberKind::EmptyDirectory,
                    None,
                );
                let next = p.line_taken().counted(0);
                if next.budget.exceeds(p.caps) {
                    let same = p.counted(0);
                    lemma_marked(
                        given,
                        same,
                        walk.members,
                        line_index_after(p.next_line),
                        marker,
                        ExpansionFailure::SizeCapExceeded,
                        replies,
                    );
                    assert((ProgressView {
                        next_line: line_index_after(p.next_line),
                        ..same
                    }).found(marker) == next.found(marker));
                } else {
                    lemma_member_line(given, p, walk.members, marker, 0, replies);
                    lemma_next_directory(given, next, walk.found(marker), replies + 1);
                }
            } else {
                lemma_next_entry(
                    given,
                    p,
                    walk,
                    directory.relative_path,
                    stable_sort(unsorted, entry_order()),
                    replies + 1,
                );
            }
        },
    }
}

proof fn lemma_member_inspected(
    given: Selection,
    p: ProgressView,
    walk: WalkView,
    relative_directory: Seq<char>,
    rest: Seq<EntryView>,
    member: PlacedView,
    found: Option<FileMetadata>,
    replies: int,
)
    requires
        numbering(given, p, walk.members, given.roots.len() - p.roots.len() - 1, 1, replies),
        given.top_level_count + replies < i64::MAX,
    ensures
        numbered(
            given,
            p.member_inspected(walk, relative_directory, rest, member, found),
            replies + 1,
        ),
{
    match found {
        None => {
            lemma_walk_failed(
                given,
                p,
                walk,
                member.relative_path,
                ExpansionFailure::IngestFailed,
                replies,
            );
        },
        Some(metadata) => {
            if !metadata.symlink && metadata.directory {
                lemma_next_entry(
                    given,
                    p,
                    WalkView { queue: walk.queue.push(member), ..walk },
                    relative_directory,
                    rest,
                    replies + 1,
                );
            } else if metadata.symlink || !metadata.regular {
                lemma_walk_failed(
                    given,
                    p,
                    walk,
                    member.relative_path,
                    ExpansionFailure::UnsupportedMember,
                    replies,
                );
            } else {
                let line = walk.root.member(
                    p.next_line,
                    member.relative_path,
                    crate::files::kind_of_mode(metadata.mode),
                    Some(member.path),
                );
                let next = p.line_taken().counted(metadata.len);
                if next.budget.exceeds(p.caps) {
                    let same = p.counted(metadata.len);
                    lemma_marked(
                        given,
                        same,
                        walk.members,
                        line_index_after(p.next_line),
                        line,
                        ExpansionFailure::SizeCapExceeded,
                        replies,
                    );
                    assert((ProgressView {
                        next_line: line_index_after(p.next_line),
                        ..same
                    }).found(line) == next.found(line));
                } else {
                    lemma_member_line(given, p, walk.members, line, metadata.len, replies);
                    lemma_next_entry(
                        given,
                        next,
                        walk.found(line),
                        relative_directory,
                        rest,
                        replies + 1,
                    );
                }
            }
        },
    }
}

proof fn lemma_root_inspected(
    given: Selection,
    p: ProgressView,
    root: RootView,
    found: Option<FileMetadata>,
    replies: int,
)
    requires
        numbering(given, p, seq![], given.roots.len() - p.roots.len() - 1, 1, replies),
        root == given.roots[given.roots.len() - p.roots.len() - 1],
    ensures
        numbered(given, p.root_inspected(root, found), replies),
{
    let size = match root.known_size {
        Some(known) => known,
        None => match found {
            Some(metadata) => metadata.len,
            None => 0,
        },
    };
    match found {
        None => lemma_flat(given, p, root.missing_file(), size, replies),
        Some(metadata) => {
            if !metadata.symlink && metadata.directory {
                lemma_next_directory(given, p, WalkView::at(root), replies);
            } else if !metadata.symlink && metadata.regular {
                lemma_flat(given, p, root.flat_file(metadata), size, replies);
            } else {
                lemma_marked(
                    given,
                    p,
                    seq![],
                    p.next_line,
                    root.marker(p.next_line),
                    ExpansionFailure::UnsupportedMember,
                    replies,
                );
            }
        },
    }
}

proof fn lemma_later(given: Selection, state: TraversalView, replies: int, more: int)
    requires
        numbered(given, state, replies),
        replies <= more,
    ensures
        numbered(given, state, more),
{
}

proof fn lemma_step(given: Selection, state: TraversalView, reply: ReplyView, replies: int)
    requires
        numbered(given, state, replies),
        0 <= replies,
        given.top_level_count + replies < i64::MAX,
    ensures
        numbered(given, state.step(reply), replies + 1),
{
    match (state, reply) {
        (TraversalView::Root { progress, root }, ReplyView::Inspected(found)) => {
            lemma_root_inspected(given, progress, root, found, replies);
            lemma_later(given, state.step(reply), replies, replies + 1);
        },
        (TraversalView::Listing { progress, walk, directory }, ReplyView::Listed(entries)) => {
            lemma_listed(given, progress, walk, directory, entries, replies);
        },
        (
            TraversalView::Member { progress, walk, relative_directory, rest, member },
            ReplyView::Inspected(found),
        ) => {
            lemma_member_inspected(
                given,
                progress,
                walk,
                relative_directory,
                rest,
                member,
                found,
                replies,
            );
        },
        (TraversalView::Hashing { progress, line, path }, ReplyView::Hashed(hash)) => {
            let next = ProgressView {
                lines: progress.lines.push(line.of_kind(kind_of_hash(hash, false))),
                ..progress
            };
            assert(in_order(next, seq![]) =~= in_order(progress, seq![line]));
            lemma_next_hash(given, next);
            lemma_later(given, next.next_hash(), 0, replies + 1);
        },
        _ => lemma_later(given, state, replies, replies + 1),
    }
}

proof fn lemma_numbered(given: Selection, replies: Seq<ReplyView>)
    requires
        given.has_distinct_indexes(),
        given.top_level_count + replies.len() <= i64::MAX,
    ensures
        numbered(given, given.expanded(replies), replies.len() as int),
    decreases replies.len(),
{
    if replies.len() == 0 {
        let progress = ProgressView {
            caps: given.caps,
            lines: given.lines,
            roots: given.roots,
            budget: crate::file_set::TraversalBudget::unused(),
            pending: seq![],
            next_line: given.top_level_count,
        };
        assert(given.roots.skip(0) =~= given.roots);
        if given.caps.max_member_count > 0 && given.roots.len() > given.caps.max_member_count {
            lemma_stopped(given, progress, 0, ExpansionFailure::SizeCapExceeded);
        } else {
            lemma_next_root(given, progress, 0);
        }
    } else {
        lemma_numbered(given, replies.drop_last());
        lemma_step(
            given,
            given.expanded(replies.drop_last()),
            replies.last(),
            replies.len() - 1,
        );
    }
}

/// No two lines of a manifest have the same index, so its order is fixed. The
/// indexes given out must not have reached their limit.
pub proof fn manifest_indexes_are_distinct(given: Selection, replies: Seq<ReplyView>)
    requires
        given.has_distinct_indexes(),
        given.top_level_count + replies.len() <= i64::MAX,
        given.expanded(replies) is Finished,
    ensures
        line_indexes(given.expanded(replies)->lines).no_duplicates(),
{
    lemma_numbered(given, replies);
}

} // verus!

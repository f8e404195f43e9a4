//! What holds of every expansion, whatever the host answers.

use crate::file_set::{
    EntryFileSetExcludeReason, EntryFileSetLineKind, ExpansionFailure, FileSetCaps, LineView,
    LocationView, PendingView, RootView, TraversalBudget, kind_of_hash, line_order,
    line_order_is_ranking,
};
use crate::files::{
    EntryView, FileMetadata, entry_order, entry_order_is_ranking, entry_order_tells_apart,
    has_distinct_names,
};
use crate::sorting::{
    is_sorted, sort_contains, sort_forgets_the_order, sort_is_sorted, sort_keeps_members,
    stable_sort,
};
use crate::traversal::{
    PlacedView, ProgressView, ReplyView, TraversalView, WalkView, all_of_kind, all_unvisited,
    excluded,
};
use vstd::prelude::*;

verus! {

/// The state after a series of answers.
pub open spec fn after_replies(state: TraversalView, replies: Seq<ReplyView>) -> TraversalView
    decreases replies.len(),
{
    if replies.len() == 0 {
        state
    } else {
        after_replies(state, replies.drop_last()).step(replies.last())
    }
}

/// What an expansion is given.
pub struct Selection {
    pub roots: Seq<RootView>,
    pub lines: Seq<LineView>,
    pub top_level_count: i64,
    pub caps: FileSetCaps,
}

impl Selection {
    /// The expansion of this selection, after a series of answers.
    pub open spec fn expanded(self, replies: Seq<ReplyView>) -> TraversalView {
        after_replies(
            TraversalView::started(self.roots, self.lines, self.top_level_count, self.caps),
            replies,
        )
    }
}

/// A member of the set belongs to `root`.
pub open spec fn belongs_to(
    root: RootView,
    original_text: Seq<char>,
    location: LocationView,
) -> bool {
    &&& location.root_index == root.root_index
    &&& location.root_name == root.root_name
    &&& original_text == root.original_text
}

/// A line of a manifest belongs to `root`.
pub open spec fn line_belongs_to(root: RootView, line: LineView) -> bool {
    match line.member_location {
        Some(location) => belongs_to(root, line.original_text, location),
        None => false,
    }
}

/// Some line of a manifest belongs to `root`.
pub open spec fn has_line_of(root: RootView, lines: Seq<LineView>) -> bool {
    exists|m: int| 0 <= m < lines.len() && #[trigger] line_belongs_to(root, lines[m])
}

/// The kinds of the lines that stand for members of a set, by how its
/// expansion ended.
pub open spec fn kind_fits(kind: EntryFileSetLineKind, failure: Option<ExpansionFailure>) -> bool {
    match failure {
        Some(reason) => kind == excluded(reason),
        None => match kind {
            EntryFileSetLineKind::File { content_hash, blob_id, size_bytes } => blob_id is None
                && size_bytes is None,
            EntryFileSetLineKind::NonFile => true,
            EntryFileSetLineKind::Excluded { reason } => reason
                == EntryFileSetExcludeReason::IngestFailed,
        },
    }
}

spec fn pending_belongs_to(root: RootView, line: PendingView) -> bool {
    belongs_to(root, line.original_text, line.member_location)
}

spec fn has_pending_of(root: RootView, pending: Seq<PendingView>) -> bool {
    exists|m: int| 0 <= m < pending.len() && #[trigger] pending_belongs_to(root, pending[m])
}

spec fn all_belong_to(root: RootView, pending: Seq<PendingView>) -> bool {
    forall|m: int| 0 <= m < pending.len() ==> #[trigger] pending_belongs_to(root, pending[m])
}

/// A count that the budget accounts for.
spec fn accounted(count: int, budget: TraversalBudget) -> bool {
    count <= budget.member_count || budget.member_count == u64::MAX
}

spec fn within(count: int, caps: FileSetCaps) -> bool {
    0 < caps.max_member_count < u64::MAX ==> count <= caps.max_member_count
}

/// While the first `settled` roots are expanded, `members` are in hand and
/// `held` roots (one or none) are being looked at.
spec fn expanding(
    given: Selection,
    p: ProgressView,
    members: Seq<PendingView>,
    settled: int,
    held: int,
) -> bool {
    &&& p.caps == given.caps
    &&& p.lines == given.lines
    &&& !p.budget.exceeds(p.caps)
    &&& accounted((p.pending.len() + members.len()) as int, p.budget)
    &&& 0 <= settled
    &&& settled + held <= given.roots.len()
    &&& p.roots == given.roots.skip(settled + held)
    &&& forall|j: int| 0 <= j < settled ==> has_pending_of(#[trigger] given.roots[j], p.pending)
}

spec fn hashing(given: Selection, p: ProgressView, in_hand: Seq<PendingView>) -> bool {
    &&& p.caps == given.caps
    &&& p.roots.len() == 0
    &&& !p.budget.exceeds(p.caps)
    &&& given.lines.len() <= p.lines.len()
    &&& p.lines.take(given.lines.len() as int) == given.lines
    &&& accounted(
        p.lines.len() - given.lines.len() + p.pending.len() + in_hand.len(),
        p.budget,
    )
    &&& forall|m: int|
        given.lines.len() <= m < p.lines.len() ==> kind_fits(#[trigger] p.lines[m].kind, None)
    &&& forall|j: int|
        0 <= j < given.roots.len() ==> has_pending_of(#[trigger] given.roots[j], p.pending)
            || has_pending_of(given.roots[j], in_hand) || has_line_of(
            given.roots[j],
            p.lines.skip(given.lines.len() as int),
        )
}

/// `lines` are those of the selection and, for its members, `tail`.
spec fn finished_with(
    given: Selection,
    lines: Seq<LineView>,
    failure: Option<ExpansionFailure>,
    tail: Seq<LineView>,
) -> bool {
    &&& lines == stable_sort(given.lines + tail, line_order())
    &&& forall|m: int| 0 <= m < tail.len() ==> kind_fits(#[trigger] tail[m].kind, failure)
    &&& forall|j: int| 0 <= j < given.roots.len() ==> has_line_of(#[trigger] given.roots[j], tail)
    &&& failure is None ==> within(tail.len() as int, given.caps)
}

/// What every state of an expansion keeps.
spec fn kept(given: Selection, state: TraversalView) -> bool {
    match state {
        TraversalView::Root { progress, root } => {
            let settled = given.roots.len() - progress.roots.len() - 1;
            &&& expanding(given, progress, seq![], settled, 1)
            &&& root == given.roots[settled]
        },
        TraversalView::Listing { progress, walk, directory } => {
            let settled = given.roots.len() - progress.roots.len() - 1;
            &&& expanding(given, progress, walk.members, settled, 1)
            &&& walk.root == given.roots[settled]
            &&& all_belong_to(walk.root, walk.members)
        },
        TraversalView::Member { progress, walk, relative_directory, rest, member } => {
            let settled = given.roots.len() - progress.roots.len() - 1;
            &&& expanding(given, progress, walk.members, settled, 1)
            &&& walk.root == given.roots[settled]
            &&& all_belong_to(walk.root, walk.members)
        },
        TraversalView::Hashing { progress, line, path } => hashing(given, progress, seq![line]),
        TraversalView::Finished { lines, failure } => exists|tail: Seq<LineView>| #[trigger]
            finished_with(given, lines, failure, tail),
    }
}

proof fn lemma_stopped(given: Selection, p: ProgressView, failure: ExpansionFailure)
    requires
        p.lines == given.lines,
        forall|j: int|
            0 <= j < given.roots.len() ==> has_pending_of(#[trigger] given.roots[j], p.pending)
                || p.roots.contains(given.roots[j]),
    ensures
        kept(given, p.stopped(failure)),
{
    let all = p.pending + all_unvisited(p.roots);
    let tail = all_of_kind(all, excluded(failure));
    assert forall|j: int| 0 <= j < given.roots.len() implies has_line_of(
        #[trigger] given.roots[j],
        tail,
    ) by {
        let root = given.roots[j];
        if has_pending_of(root, p.pending) {
            let m = choose|m: int|
                0 <= m < p.pending.len() && #[trigger] pending_belongs_to(root, p.pending[m]);
            assert(line_belongs_to(root, tail[m]));
        } else {
            let m = choose|m: int| 0 <= m < p.roots.len() && p.roots[m] == root;
            assert(all[p.pending.len() + m] == root.unvisited());
            assert(line_belongs_to(root, tail[p.pending.len() + m]));
        }
    }
    assert(finished_with(given, p.stopped(failure)->lines, Some(failure), tail));
}

proof fn lemma_next_hash(given: Selection, p: ProgressView)
    requires
        hashing(given, p, seq![]),
    ensures
        kept(given, p.next_hash()),
    decreases p.pending.len(),
{
    let start = given.lines.len() as int;
    if p.pending.len() == 0 {
        let tail = p.lines.skip(start);
        assert(p.lines == given.lines + tail);
        assert forall|m: int| 0 <= m < tail.len() implies kind_fits(
            #[trigger] tail[m].kind,
            None,
        ) by {
            assert(kind_fits(p.lines[start + m].kind, None));
        }
        assert(finished_with(given, p.next_hash()->lines, None, tail));
    } else {
        let line = p.pending[0];
        let rest = ProgressView { pending: p.pending.drop_first(), ..p };
        match line.file_path {
            Some(path) => {
                let bare = PendingView { file_path: None, ..line };
                assert forall|j: int| 0 <= j < given.roots.len() implies has_pending_of(
                    #[trigger] given.roots[j],
                    rest.pending,
                ) || has_pending_of(given.roots[j], seq![bare]) || has_line_of(
                    given.roots[j],
                    rest.lines.skip(start),
                ) by {
                    lemma_drop_first(given.roots[j], p.pending);
                    if pending_belongs_to(given.roots[j], line) {
                        assert(pending_belongs_to(given.roots[j], seq![bare][0]));
                    }
                }
                assert(hashing(given, rest, seq![bare]));
            },
            None => {
                let next = ProgressView {
                    lines: p.lines.push(line.of_kind(EntryFileSetLineKind::NonFile)),
                    ..rest
                };
                lemma_finish_line(given, p, rest, line, EntryFileSetLineKind::NonFile);
                lemma_next_hash(given, next);
            },
        }
    }
}

proof fn lemma_drop_first(root: RootView, pending: Seq<PendingView>)
    requires
        pending.len() > 0,
    ensures
        has_pending_of(root, pending) ==> pending_belongs_to(root, pending[0]) || has_pending_of(
            root,
            pending.drop_first(),
        ),
{
    if has_pending_of(root, pending) {
        let m = choose|m: int|
            0 <= m < pending.len() && #[trigger] pending_belongs_to(root, pending[m]);
        if m > 0 {
            assert(pending.drop_first()[m - 1] == pending[m]);
            assert(pending_belongs_to(root, pending.drop_first()[m - 1]));
        }
    }
}

/// A line in hand, or at the front, becomes a finished one.
proof fn lemma_finish_line(
    given: Selection,
    before: ProgressView,
    rest: ProgressView,
    line: PendingView,
    kind: EntryFileSetLineKind,
)
    requires
        kind_fits(kind, None),
        rest == before && hashing(given, before, seq![line]) || before.pending.len() > 0 && line
            == before.pending[0] && rest == (ProgressView {
            pending: before.pending.drop_first(),
            ..before
        }) && hashing(given, before, seq![]),
    ensures
        hashing(
            given,
            ProgressView { lines: rest.lines.push(line.of_kind(kind)), ..rest },
            seq![],
        ),
{
    let start = given.lines.len() as int;
    let next = ProgressView { lines: rest.lines.push(line.of_kind(kind)), ..rest };
    let old_tail = before.lines.skip(start);
    let tail = next.lines.skip(start);
    assert(tail == old_tail.push(line.of_kind(kind)));
    assert(next.lines.take(start) == before.lines.take(start));
    assert forall|j: int| 0 <= j < given.roots.len() implies has_pending_of(
        #[trigger] given.roots[j],
        next.pending,
    ) || has_line_of(given.roots[j], tail) by {
        let root = given.roots[j];
        if has_line_of(root, old_tail) {
            let m = choose|m: int|
                0 <= m < old_tail.len() && #[trigger] line_belongs_to(root, old_tail[m]);
            assert(line_belongs_to(root, tail[m]));
        } else if pending_belongs_to(root, line) {
            assert(line_belongs_to(root, tail[old_tail.len() as int]));
        } else if before.pending.len() > 0 {
            lemma_drop_first(root, before.pending);
        }
    }
    assert forall|m: int| start <= m < next.lines.len() implies kind_fits(
        #[trigger] next.lines[m].kind,
        None,
    ) by {
        if m < before.lines.len() {
            assert(kind_fits(before.lines[m].kind, None));
        }
    }
}

proof fn lemma_next_root(given: Selection, p: ProgressView)
    requires
        expanding(given, p, seq![], given.roots.len() - p.roots.len(), 0),
    ensures
        kept(given, p.next_root()),
{
    if p.roots.len() == 0 {
        assert(p.lines.take(given.lines.len() as int) == given.lines);
        assert(hashing(given, p, seq![]));
        lemma_next_hash(given, p);
    } else {
        let settled = given.roots.len() - p.roots.len();
        assert(p.roots.drop_first() == given.roots.skip(settled + 1));
        assert(p.roots[0] == given.roots[settled]);
    }
}

/// One more member found for the root in hand.
proof fn lemma_found(given: Selection, p: ProgressView, line: PendingView, settled: int, held: int)
    requires
        0 <= settled,
        0 <= held,
        settled + held <= given.roots.len(),
        p.roots == given.roots.skip(settled + held),
        forall|j: int| 0 <= j < settled ==> has_pending_of(#[trigger] given.roots[j], p.pending),
    ensures
        forall|j: int|
            0 <= j < settled ==> has_pending_of(#[trigger] given.roots[j], p.found(line).pending),
        forall|j: int|
            settled + held <= j < given.roots.len() ==> p.roots.contains(#[trigger] given.roots[j]),
        forall|root: RootView|
            pending_belongs_to(root, line) ==> #[trigger] has_pending_of(
                root,
                p.found(line).pending,
            ),
{
    let next = p.found(line);
    assert forall|j: int| 0 <= j < settled implies has_pending_of(
        #[trigger] given.roots[j],
        next.pending,
    ) by {
        let m = choose|m: int|
            0 <= m < p.pending.len() && #[trigger] pending_belongs_to(
                given.roots[j],
                p.pending[m],
            );
        assert(pending_belongs_to(given.roots[j], next.pending[m]));
    }
    assert forall|j: int| settled + held <= j < given.roots.len() implies p.roots.contains(
        #[trigger] given.roots[j],
    ) by {
        assert(p.roots[j - settled - held] == given.roots[j]);
    }
    assert forall|root: RootView| pending_belongs_to(root, line) implies #[trigger] has_pending_of(
        root,
        next.pending,
    ) by {
        assert(pending_belongs_to(root, next.pending[p.pending.len() as int]));
    }
}

proof fn lemma_flat(given: Selection, p: ProgressView, line: PendingView, size_bytes: u64)
    requires
        expanding(given, p, seq![], given.roots.len() - p.roots.len() - 1, 1),
        pending_belongs_to(given.roots[given.roots.len() - p.roots.len() - 1], line),
    ensures
        kept(given, p.flat(line, size_bytes)),
{
    let settled = given.roots.len() - p.roots.len() - 1;
    let next = p.counted(size_bytes).found(line);
    lemma_found(given, p.counted(size_bytes), line, settled, 1);
    if next.budget.exceeds(p.caps) {
        lemma_stopped(given, next, ExpansionFailure::SizeCapExceeded);
    } else {
        lemma_next_root(given, next);
    }
}

proof fn lemma_marked(
    given: Selection,
    p: ProgressView,
    members: Seq<PendingView>,
    line: PendingView,
    failure: ExpansionFailure,
)
    requires
        expanding(given, p, members, given.roots.len() - p.roots.len() - 1, 1),
        pending_belongs_to(given.roots[given.roots.len() - p.roots.len() - 1], line),
    ensures
        kept(given, p.found(line).stopped(failure)),
{
    let settled = given.roots.len() - p.roots.len() - 1;
    lemma_found(given, p, line, settled, 1);
    lemma_stopped(given, p.found(line), failure);
}

proof fn lemma_next_directory(given: Selection, p: ProgressView, walk: WalkView)
    requires
        expanding(given, p, walk.members, given.roots.len() - p.roots.len() - 1, 1),
        walk.root == given.roots[given.roots.len() - p.roots.len() - 1],
        all_belong_to(walk.root, walk.members),
        walk.members.len() > 0 || walk.queue.len() > 0,
    ensures
        kept(given, p.next_directory(walk)),
{
    if walk.queue.len() == 0 {
        let settled = given.roots.len() - p.roots.len() - 1;
        let next = ProgressView { pending: p.pending + walk.members, ..p };
        assert forall|j: int| 0 <= j < settled + 1 implies has_pending_of(
            #[trigger] given.roots[j],
            next.pending,
        ) by {
            if j < settled {
                let m = choose|m: int|
                    0 <= m < p.pending.len() && #[trigger] pending_belongs_to(
                        given.roots[j],
                        p.pending[m],
                    );
                assert(pending_belongs_to(given.roots[j], next.pending[m]));
            } else {
                assert(pending_belongs_to(walk.root, walk.members[0]));
                assert(next.pending[p.pending.len() as int] == walk.members[0]);
                assert(pending_belongs_to(given.roots[j], next.pending[p.pending.len() as int]));
            }
        }
        lemma_next_root(given, next);
    }
}

proof fn lemma_walk_failed(
    given: Selection,
    p: ProgressView,
    walk: WalkView,
    relative_path: Seq<char>,
    failure: ExpansionFailure,
)
    requires
        expanding(given, p, walk.members, given.roots.len() - p.roots.len() - 1, 1),
        walk.root == given.roots[given.roots.len() - p.roots.len() - 1],
    ensures
        kept(given, p.walk_failed(walk, relative_path, failure)),
{
    let line = walk.root.directory_marker(p.next_line, relative_path);
    assert(pending_belongs_to(walk.root, line));
    lemma_marked(given, p.line_taken(), walk.members, line, failure);
}

proof fn lemma_next_entry(
    given: Selection,
    p: ProgressView,
    walk: WalkView,
    relative_directory: Seq<char>,
    entries: Seq<EntryView>,
)
    requires
        expanding(given, p, walk.members, given.roots.len() - p.roots.len() - 1, 1),
        walk.root == given.roots[given.roots.len() - p.roots.len() - 1],
        all_belong_to(walk.root, walk.members),
        walk.members.len() > 0 || walk.queue.len() > 0 || entries.len() > 0,
    ensures
        kept(given, p.next_entry(walk, relative_directory, entries)),
{
    if entries.len() == 0 {
        lemma_next_directory(given, p, walk);
    } else if entries[0].name is None {
        lemma_walk_failed(
            given,
            p,
            walk,
            relative_directory,
            ExpansionFailure::UnsupportedMember,
        );
    }
}

/// A member found in a directory, counted against the caps.
proof fn lemma_member_counted(
    given: Selection,
    p: ProgressView,
    walk: WalkView,
    line: PendingView,
    size_bytes: u64,
)
    requires
        expanding(given, p, walk.members, given.roots.len() - p.roots.len() - 1, 1),
        walk.root == given.roots[given.roots.len() - p.roots.len() - 1],
        all_belong_to(walk.root, walk.members),
        pending_belongs_to(walk.root, line),
    ensures
        ({
            let next = p.line_taken().counted(size_bytes);
            if next.budget.exceeds(p.caps) {
                kept(given, next.found(line).stopped(ExpansionFailure::SizeCapExceeded))
            } else {
                &&& expanding(
                    given,
                    next,
                    walk.found(line).members,
                    given.roots.len() - p.roots.len() - 1,
                    1,
                )
                &&& all_belong_to(walk.root, walk.found(line).members)
            }
        }),
{
    let next = p.line_taken().counted(size_bytes);
    let settled = given.roots.len() - p.roots.len() - 1;
    if next.budget.exceeds(p.caps) {
        lemma_found(given, next, line, settled, 1);
        lemma_stopped(given, next.found(line), ExpansionFailure::SizeCapExceeded);
    } else {
        let members = walk.found(line).members;
        assert forall|m: int| 0 <= m < members.len() implies #[trigger] pending_belongs_to(
            walk.root,
            members[m],
        ) by {
            if m < walk.members.len() {
                assert(pending_belongs_to(walk.root, walk.members[m]));
            }
        }
    }
}

proof fn lemma_listed(
    given: Selection,
    p: ProgressView,
    walk: WalkView,
    directory: PlacedView,
    entries: Option<Seq<EntryView>>,
)
    requires
        expanding(given, p, walk.members, given.roots.len() - p.roots.len() - 1, 1),
        walk.root == given.roots[given.roots.len() - p.roots.len() - 1],
        all_belong_to(walk.root, walk.members),
    ensures
        kept(given, p.listed(walk, directory, entries)),
{
    match entries {
        None => {
            lemma_walk_failed(
                given,
                p,
                walk,
                directory.relative_path,
                ExpansionFailure::IngestFailed,
            );
        },
        Some(unsorted) => {
            if unsorted.len() == 0 {
                let marker = walk.root.member(
                    p.next_line,
                    crate::files::shown_path(directory.relative_path),
                    crate::files::FileSetMemberKind::EmptyDirectory,
                    None,
                );
                lemma_member_counted(given, p, walk, marker, 0);
                let next = p.line_taken().counted(0);
                if !next.budget.exceeds(p.caps) {
                    lemma_next_directory(given, next, walk.found(marker));
                }
            } else {
                sort_keeps_members(unsorted, entry_order());
                lemma_next_entry(
                    given,
                    p,
                    walk,
                    directory.relative_path,
                    stable_sort(unsorted, entry_order()),
                );
            }
        },
    }
}

proof fn lemma_member_inspected(
    given: Selection,
    p: ProgressView,
    walk: WalkView,
    relative_directory: Seq<char>,
    rest: Seq<EntryView>,
    member: PlacedView,
    found: Option<FileMetadata>,
)
    requires
        expanding(given, p, walk.members, given.roots.len() - p.roots.len() - 1, 1),
        walk.root == given.roots[given.roots.len() - p.roots.len() - 1],
        all_belong_to(walk.root, walk.members),
    ensures
        kept(given, p.member_inspected(walk, relative_directory, rest, member, found)),
{
    match found {
        None => {
            lemma_walk_failed(
                given,
                p,
                walk,
                member.relative_path,
                ExpansionFailure::IngestFailed,
            );
        },
        Some(metadata) => {
            if !metadata.symlink && metadata.directory {
                lemma_next_entry(
                    given,
                    p,
                    WalkView { queue: walk.queue.push(member), ..walk },
                    relative_directory,
                    rest,
                );
            } else if metadata.symlink || !metadata.regular {
                lemma_walk_failed(
                    given,
                    p,
                    walk,
                    member.relative_path,
                    ExpansionFailure::UnsupportedMember,
                );
            } else {
                let line = walk.root.member(
                    p.next_line,
                    member.relative_path,
                    crate::files::kind_of_mode(metadata.mode),
                    Some(member.path),
                );
                lemma_member_counted(given, p, walk, line, metadata.len);
                let next = p.line_taken().counted(metadata.len);
                if !next.budget.exceeds(p.caps) {
                    lemma_next_entry(given, next, walk.found(line), relative_directory, rest);
                }
            }
        },
    }
}

proof fn lemma_root_inspected(
    given: Selection,
    p: ProgressView,
    root: RootView,
    found: Option<FileMetadata>,
)
    requires
        expanding(given, p, seq![], given.roots.len() - p.roots.len() - 1, 1),
        root == given.roots[given.roots.len() - p.roots.len() - 1],
    ensures
        kept(given, p.root_inspected(root, found)),
{
    let size = match root.known_size {
        Some(known) => known,
        None => match found {
            Some(metadata) => metadata.len,
            None => 0,
        },
    };
    match found {
        None => lemma_flat(given, p, root.missing_file(), size),
        Some(metadata) => {
            if !metadata.symlink && metadata.directory {
                let walk = WalkView::at(root);
                assert(walk.queue.len() == 1);
                lemma_next_directory(given, p, walk);
            } else if !metadata.symlink && metadata.regular {
                lemma_flat(given, p, root.flat_file(metadata), size);
            } else {
                lemma_marked(
                    given,
                    p,
                    seq![],
                    root.marker(p.next_line),
                    ExpansionFailure::UnsupportedMember,
                );
            }
        },
    }
}

proof fn lemma_step_kept(given: Selection, state: TraversalView, reply: ReplyView)
    requires
        kept(given, state),
    ensures
        kept(given, state.step(reply)),
{
    match (state, reply) {
        (TraversalView::Root { progress, root }, ReplyView::Inspected(found)) => {
            lemma_root_inspected(given, progress, root, found);
        },
        (TraversalView::Listing { progress, walk, directory }, ReplyView::Listed(entries)) => {
            lemma_listed(given, progress, walk, directory, entries);
        },
        (
            TraversalView::Member { progress, walk, relative_directory, rest, member },
            ReplyView::Inspected(found),
        ) => {
            lemma_member_inspected(given, progress, walk, relative_directory, rest, member, found);
        },
        (TraversalView::Hashing { progress, line, path }, ReplyView::Hashed(hash)) => {
            lemma_finish_line(given, progress, progress, line, kind_of_hash(hash, false));
            lemma_next_hash(
                given,
                ProgressView {
                    lines: progress.lines.push(line.of_kind(kind_of_hash(hash, false))),
                    ..progress
                },
            );
        },
        _ => {},
    }
}

proof fn lemma_kept(given: Selection, replies: Seq<ReplyView>)
    ensures
        kept(given, given.expanded(replies)),
    decreases replies.len(),
{
    if replies.len() == 0 {
        let progress = ProgressView {
            caps: given.caps,
            lines: given.lines,
            roots: given.roots,
            budget: TraversalBudget::unused(),
            pending: seq![],
            next_line: given.top_level_count,
        };
        assert(given.roots.skip(0) == given.roots);
        if given.caps.max_member_count > 0 && given.roots.len() > given.caps.max_member_count {
            assert forall|j: int| 0 <= j < given.roots.len() implies has_pending_of(
                #[trigger] given.roots[j],
                progress.pending,
            ) || progress.roots.contains(given.roots[j]) by {}
            lemma_stopped(given, progress, ExpansionFailure::SizeCapExceeded);
        } else {
            lemma_next_root(given, progress);
        }
    } else {
        lemma_kept(given, replies.drop_last());
        lemma_step_kept(given, given.expanded(replies.drop_last()), replies.last());
    }
}

/// The lines of a finished manifest stand by line index.
pub proof fn manifest_is_sorted(given: Selection, replies: Seq<ReplyView>)
    requires
        given.expanded(replies) is Finished,
    ensures
        is_sorted(given.expanded(replies)->lines, line_order()),
{
    lemma_kept(given, replies);
    line_order_is_ranking();
    let lines = given.expanded(replies)->lines;
    let failure = given.expanded(replies)->failure;
    let tail = choose|tail: Seq<LineView>| #[trigger] finished_with(given, lines, failure, tail);
    sort_is_sorted(given.lines + tail, line_order());
}

/// The lines that hold no root, comments and blank lines among them, are in
/// the manifest unchanged.
pub proof fn given_lines_are_kept(given: Selection, replies: Seq<ReplyView>, line: LineView)
    requires
        given.expanded(replies) is Finished,
        given.lines.contains(line),
    ensures
        given.expanded(replies)->lines.contains(line),
{
    lemma_kept(given, replies);
    let lines = given.expanded(replies)->lines;
    let failure = given.expanded(replies)->failure;
    let tail = choose|tail: Seq<LineView>| #[trigger] finished_with(given, lines, failure, tail);
    let m = choose|m: int| 0 <= m < given.lines.len() && given.lines[m] == line;
    assert((given.lines + tail)[m] == line);
    sort_contains(given.lines + tail, line_order(), line);
}

/// Every root is in the manifest with at least one line, also where the
/// expansion was given up before it came to that root.
pub proof fn every_root_has_a_line(given: Selection, replies: Seq<ReplyView>, root: RootView)
    requires
        given.expanded(replies) is Finished,
        given.roots.contains(root),
    ensures
        has_line_of(root, given.expanded(replies)->lines),
{
    lemma_kept(given, replies);
    let lines = given.expanded(replies)->lines;
    let failure = given.expanded(replies)->failure;
    let tail = choose|tail: Seq<LineView>| #[trigger] finished_with(given, lines, failure, tail);
    let j = choose|j: int| 0 <= j < given.roots.len() && given.roots[j] == root;
    assert(has_line_of(given.roots[j], tail));
    let m = choose|m: int| 0 <= m < tail.len() && #[trigger] line_belongs_to(root, tail[m]);
    assert((given.lines + tail)[given.lines.len() + m] == tail[m]);
    sort_contains(given.lines + tail, line_order(), tail[m]);
    let k = choose|k: int| 0 <= k < lines.len() && lines[k] == tail[m];
    assert(line_belongs_to(root, lines[k]));
}

/// A set is carried over as a whole or not at all: where the expansion was
/// given up, every member is excluded, and for one and the same reason. Where
/// it was not, a member is excluded only because its own content could not be
/// read.
pub proof fn exclusion_is_all_or_nothing(given: Selection, replies: Seq<ReplyView>, line: LineView)
    requires
        given.expanded(replies) is Finished,
        given.expanded(replies)->lines.contains(line),
    ensures
        given.lines.contains(line) || kind_fits(line.kind, given.expanded(replies)->failure),
{
    lemma_kept(given, replies);
    let lines = given.expanded(replies)->lines;
    let failure = given.expanded(replies)->failure;
    let tail = choose|tail: Seq<LineView>| #[trigger] finished_with(given, lines, failure, tail);
    sort_contains(given.lines + tail, line_order(), line);
    let all = given.lines + tail;
    let m = choose|m: int| 0 <= m < all.len() && all[m] == line;
    if m < given.lines.len() {
        assert(given.lines[m] == line);
    } else {
        assert(kind_fits(tail[m - given.lines.len()].kind, failure));
    }
}

/// A set that was expanded to its end has no more members than its cap. (The
/// largest cap of all cannot be told from a count that has reached its
/// limit.)
pub proof fn member_cap_holds(given: Selection, replies: Seq<ReplyView>)
    requires
        given.expanded(replies) is Finished,
        given.expanded(replies)->failure is None,
        0 < given.caps.max_member_count < u64::MAX,
    ensures
        given.expanded(replies)->lines.len() <= given.lines.len() + given.caps.max_member_count,
{
    lemma_kept(given, replies);
    let lines = given.expanded(replies)->lines;
    let tail = choose|tail: Seq<LineView>| #[trigger] finished_with(given, lines, None, tail);
    sort_keeps_members(given.lines + tail, line_order());
}

/// Nothing is hashed before every root was expanded, and nothing of a set
/// over its caps.
pub proof fn only_whole_sets_are_hashed(given: Selection, replies: Seq<ReplyView>)
    requires
        given.expanded(replies) is Hashing,
    ensures
        ({
            let progress = given.expanded(replies)->Hashing_progress;
            &&& progress.roots.len() == 0
            &&& !progress.budget.exceeds(given.caps)
        }),
{
    lemma_kept(given, replies);
}

proof fn lemma_next_hash_succeeds(p: ProgressView)
    ensures
        p.next_hash() is Hashing || p.next_hash() is Finished && p.next_hash()->failure is None,
    decreases p.pending.len(),
{
    if p.pending.len() > 0 && p.pending[0].file_path is None {
        lemma_next_hash_succeeds(
            ProgressView {
                lines: p.lines.push(p.pending[0].of_kind(EntryFileSetLineKind::NonFile)),
                pending: p.pending.drop_first(),
                ..p
            },
        );
    }
}

/// Once the first file is hashed, the set is no longer given up. So a set
/// that was given up had no file of it hashed.
pub proof fn hashed_sets_are_not_given_up(
    given: Selection,
    replies: Seq<ReplyView>,
    more: Seq<ReplyView>,
)
    requires
        given.expanded(replies) is Hashing,
    ensures
        ({
            let later = given.expanded(replies + more);
            later is Hashing || later is Finished && later->failure is None
        }),
    decreases more.len(),
{
    if more.len() == 0 {
        assert(replies + more == replies);
    } else {
        hashed_sets_are_not_given_up(given, replies, more.drop_last());
        assert((replies + more).drop_last() == replies + more.drop_last());
        match (given.expanded(replies + more.drop_last()), more.last()) {
            (TraversalView::Hashing { progress, line, path }, ReplyView::Hashed(hash)) => {
                lemma_next_hash_succeeds(
                    ProgressView {
                        lines: progress.lines.push(line.of_kind(kind_of_hash(hash, false))),
                        ..progress
                    },
                );
            },
            _ => {},
        }
    }
}

/// A set over its caps stays over them, whatever else it holds: to stop at
/// the first member too many loses nothing.
pub proof fn exceeding_is_final(budget: TraversalBudget, size_bytes: u64, caps: FileSetCaps)
    requires
        budget.exceeds(caps),
    ensures
        budget.after(size_bytes).exceeds(caps),
{
}

spec fn not_over(state: TraversalView) -> bool {
    match state {
        TraversalView::Root { progress, root } => uncapped(progress.caps),
        TraversalView::Listing { progress, walk, directory } => uncapped(progress.caps),
        TraversalView::Member { progress, walk, relative_directory, rest, member } => uncapped(
            progress.caps,
        ),
        TraversalView::Hashing { progress, line, path } => uncapped(progress.caps),
        TraversalView::Finished { lines, failure } => failure != Some(
            ExpansionFailure::SizeCapExceeded,
        ),
    }
}

/// Caps that cap nothing.
pub open spec fn uncapped(caps: FileSetCaps) -> bool {
    caps.max_total_bytes == 0 && caps.max_member_count == 0
}

proof fn lemma_next_hash_not_over(p: ProgressView)
    requires
        uncapped(p.caps),
    ensures
        not_over(p.next_hash()),
    decreases p.pending.len(),
{
    if p.pending.len() > 0 && p.pending[0].file_path is None {
        lemma_next_hash_not_over(
            ProgressView {
                lines: p.lines.push(p.pending[0].of_kind(EntryFileSetLineKind::NonFile)),
                pending: p.pending.drop_first(),
                ..p
            },
        );
    }
}

proof fn lemma_next_root_not_over(p: ProgressView)
    requires
        uncapped(p.caps),
    ensures
        not_over(p.next_root()),
{
    lemma_next_hash_not_over(p);
}

proof fn lemma_next_entry_not_over(
    p: ProgressView,
    walk: WalkView,
    relative_directory: Seq<char>,
    entries: Seq<EntryView>,
)
    requires
        uncapped(p.caps),
    ensures
        not_over(p.next_directory(walk)),
        not_over(p.next_entry(walk, relative_directory, entries)),
{
    lemma_next_root_not_over(ProgressView { pending: p.pending + walk.members, ..p });
}

proof fn lemma_step_not_over(state: TraversalView, reply: ReplyView)
    requires
        not_over(state),
    ensures
        not_over(state.step(reply)),
{
    match (state, reply) {
        (TraversalView::Root { progress, root }, ReplyView::Inspected(found)) => {
            let size = match root.known_size {
                Some(known) => known,
                None => match found {
                    Some(metadata) => metadata.len,
                    None => 0,
                },
            };
            let flat = match found {
                Some(metadata) => root.flat_file(metadata),
                None => root.missing_file(),
            };
            lemma_next_root_not_over(progress.counted(size).found(flat));
            lemma_next_entry_not_over(progress, WalkView::at(root), seq![], seq![]);
        },
        (TraversalView::Listing { progress, walk, directory }, ReplyView::Listed(entries)) => {
            let marker = walk.root.member(
                progress.next_line,
                crate::files::shown_path(directory.relative_path),
                crate::files::FileSetMemberKind::EmptyDirectory,
                None,
            );
            lemma_next_entry_not_over(
                progress.line_taken().counted(0),
                walk.found(marker),
                seq![],
                seq![],
            );
            if let Some(unsorted) = entries {
                lemma_next_entry_not_over(
                    progress,
                    walk,
                    directory.relative_path,
                    stable_sort(unsorted, entry_order()),
                );
            }
        },
        (
            TraversalView::Member { progress, walk, relative_directory, rest, member },
            ReplyView::Inspected(found),
        ) => {
            if let Some(metadata) = found {
                let line = walk.root.member(
                    progress.next_line,
                    member.relative_path,
                    crate::files::kind_of_mode(metadata.mode),
                    Some(member.path),
                );
                lemma_next_entry_not_over(
                    progress.line_taken().counted(metadata.len),
                    walk.found(line),
                    relative_directory,
                    rest,
                );
                lemma_next_entry_not_over(
                    progress,
                    WalkView { queue: walk.queue.push(member), ..walk },
                    relative_directory,
                    rest,
                );
            }
        },
        (TraversalView::Hashing { progress, line, path }, ReplyView::Hashed(hash)) => {
            lemma_next_hash_not_over(
                ProgressView {
                    lines: progress.lines.push(line.of_kind(kind_of_hash(hash, false))),
                    ..progress
                },
            );
        },
        _ => {},
    }
}

/// A cap of zero is no cap: without caps no set is ever found too large.
pub proof fn zero_caps_exclude_nothing(given: Selection, replies: Seq<ReplyView>)
    requires
        uncapped(given.caps),
    ensures
        ({
            let state = given.expanded(replies);
            state is Finished ==> state->failure != Some(ExpansionFailure::SizeCapExceeded)
        }),
{
    lemma_not_over(given, replies);
}

proof fn lemma_not_over(given: Selection, replies: Seq<ReplyView>)
    requires
        uncapped(given.caps),
    ensures
        not_over(given.expanded(replies)),
    decreases replies.len(),
{
    if replies.len() == 0 {
        lemma_next_root_not_over(
            ProgressView {
                caps: given.caps,
                lines: given.lines,
                roots: given.roots,
                budget: TraversalBudget::unused(),
                pending: seq![],
                next_line: given.top_level_count,
            },
        );
    } else {
        lemma_not_over(given, replies.drop_last());
        lemma_step_not_over(given.expanded(replies.drop_last()), replies.last());
    }
}

/// The order in which the host lists a directory does not matter: listings
/// with the same entries lead to the same state.
pub proof fn listing_order_does_not_matter(
    state: TraversalView,
    entries: Seq<EntryView>,
    shuffled: Seq<EntryView>,
)
    requires
        entries.to_multiset() == shuffled.to_multiset(),
        has_distinct_names(entries),
    ensures
        state.step(ReplyView::Listed(Some(entries))) == state.step(
            ReplyView::Listed(Some(shuffled)),
        ),
{
    broadcast use vstd::seq_lib::group_to_multiset_ensures;

    assert(entries.to_multiset().len() == entries.len());
    assert(shuffled.to_multiset().len() == shuffled.len());
    entry_order_is_ranking();
    entry_order_tells_apart(entries);
    sort_forgets_the_order(entries, shuffled, entry_order());
}

} // verus!

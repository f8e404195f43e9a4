//! Which lines a manifest consists of.

use crate::file_set::{
    ContentHash, EntryFileSetLineKind, ExpansionFailure, LineView, LocationView, PendingView,
    RootView, TraversalBudget, kind_of_hash, line_order,
};
use crate::files::{EntryView, FileSetMemberKind, entry_order, kind_of_mode, shown_path};
use crate::sorting::{sort_contains, sort_keeps_members, stable_sort};
use crate::traversal::{
    ProgressView, ReplyView, TraversalView, WalkView, all_of_kind, all_unvisited, excluded,
};
use crate::traversal_caps::{is_plain_file, member_brought};
use crate::traversal_laws::{Selection, belongs_to, line_belongs_to};
use vstd::prelude::*;

verus! {

/// The member that an answer brings, where it brings one: a file that was
/// copied or that a directory holds, or a directory that holds nothing.
pub open spec fn member_line(state: TraversalView, reply: ReplyView) -> Option<PendingView> {
    match (state, reply) {
        (TraversalView::Root { progress, root }, ReplyView::Inspected(None)) => Some(
            root.missing_file(),
        ),
        (TraversalView::Root { progress, root }, ReplyView::Inspected(Some(found))) =>
            if is_plain_file(found) {
                Some(root.flat_file(found))
            } else {
                None
            },
        (TraversalView::Listing { progress, walk, directory }, ReplyView::Listed(Some(entries))) =>
            if entries.len() == 0 {
                Some(
                    walk.root.member(
                        progress.next_line,
                        shown_path(directory.relative_path),
                        FileSetMemberKind::EmptyDirectory,
                        None,
                    ),
                )
            } else {
                None
            },
        (
            TraversalView::Member { progress, walk, relative_directory, rest, member },
            ReplyView::Inspected(Some(found)),
        ) => if is_plain_file(found) {
            Some(
                walk.root.member(
                    progress.next_line,
                    member.relative_path,
                    kind_of_mode(found.mode),
                    Some(member.path),
                ),
            )
        } else {
            None
        },
        _ => None,
    }
}

impl Selection {
    /// The members that a series of answers has brought, in their order.
    pub open spec fn member_lines(self, replies: Seq<ReplyView>) -> Seq<PendingView>
        decreases replies.len(),
    {
        if replies.len() == 0 {
            seq![]
        } else {
            let before = replies.drop_last();
            match member_line(self.expanded(before), replies.last()) {
                Some(line) => self.member_lines(before).push(line),
                None => self.member_lines(before),
            }
        }
    }

    /// The digests that a series of answers has brought, in their order.
    pub open spec fn digests(self, replies: Seq<ReplyView>) -> Seq<Option<ContentHash>>
        decreases replies.len(),
    {
        if replies.len() == 0 {
            seq![]
        } else {
            let before = replies.drop_last();
            match (self.expanded(before), replies.last()) {
                (TraversalView::Hashing { progress, line, path }, ReplyView::Hashed(hash)) =>
                    self.digests(before).push(hash),
                _ => self.digests(before),
            }
        }
    }
}

/// How many of the first `count` members have content.
pub open spec fn files_before(members: Seq<PendingView>, count: int) -> nat
    decreases count,
{
    if count <= 0 {
        0
    } else {
        files_before(members, count - 1) + if members[count - 1].file_path is Some {
            1nat
        } else {
            0nat
        }
    }
}

/// The kind of a member: one without content is no file, the others take the
/// digests one after the other.
pub open spec fn kind_of_member(
    members: Seq<PendingView>,
    digests: Seq<Option<ContentHash>>,
    i: int,
) -> EntryFileSetLineKind {
    match members[i].file_path {
        Some(path) => kind_of_hash(digests[files_before(members, i) as int], false),
        None => EntryFileSetLineKind::NonFile,
    }
}

/// Members as finished lines.
pub open spec fn listed_members(
    members: Seq<PendingView>,
    digests: Seq<Option<ContentHash>>,
) -> Seq<LineView> {
    Seq::new(
        members.len(),
        |i: int| members[i].of_kind(kind_of_member(members, digests, i)),
    )
}

proof fn lemma_files_before(members: Seq<PendingView>, i: int, count: int)
    requires
        0 <= i < count <= members.len(),
    ensures
        files_before(members, i) <= files_before(members, count),
        members[i].file_path is Some ==> files_before(members, i) < files_before(members, count),
    decreases count,
{
    if i < count - 1 {
        lemma_files_before(members, i, count - 1);
    }
}

proof fn lemma_one_more_digest(
    members: Seq<PendingView>,
    digests: Seq<Option<ContentHash>>,
    count: int,
    digest: Option<ContentHash>,
)
    requires
        0 <= count <= members.len(),
        digests.len() == files_before(members, count),
    ensures
        listed_members(members, digests.push(digest)).take(count) == listed_members(
            members,
            digests,
        ).take(count),
{
    assert forall|i: int| 0 <= i < count implies kind_of_member(members, digests, i)
        == kind_of_member(members, digests.push(digest), i) by {
        lemma_files_before(members, i, count);
    }
    assert(listed_members(members, digests.push(digest)).take(count) =~= listed_members(
        members,
        digests,
    ).take(count));
}

/// What a state has gathered of the members brought so far.
spec fn gathered(
    given: Selection,
    state: TraversalView,
    members: Seq<PendingView>,
    digests: Seq<Option<ContentHash>>,
) -> bool {
    match state {
        TraversalView::Root { progress, root } => {
            &&& progress.lines == given.lines
            &&& progress.pending == members
            &&& digests.len() == 0
        },
        TraversalView::Listing { progress, walk, directory } => {
            &&& progress.lines == given.lines
            &&& progress.pending + walk.members == members
            &&& digests.len() == 0
        },
        TraversalView::Member { progress, walk, relative_directory, rest, member } => {
            &&& progress.lines == given.lines
            &&& progress.pending + walk.members == members
            &&& digests.len() == 0
        },
        TraversalView::Hashing { progress, line, path } => {
            let at = members.len() - progress.pending.len() - 1;
            &&& 0 <= at
            &&& progress.pending == members.skip(at + 1)
            &&& members[at].file_path == Some(path)
            &&& line == (PendingView { file_path: None, ..members[at] })
            &&& digests.len() == files_before(members, at)
            &&& progress.lines == given.lines + listed_members(members, digests).take(at)
        },
        TraversalView::Finished { lines, failure } => failure is None ==> {
            &&& lines == stable_sort(given.lines + listed_members(members, digests), line_order())
            &&& digests.len() == files_before(members, members.len() as int)
        },
    }
}

proof fn lemma_next_hash(
    given: Selection,
    p: ProgressView,
    members: Seq<PendingView>,
    digests: Seq<Option<ContentHash>>,
)
    requires
        p.pending.len() <= members.len(),
        p.pending == members.skip(members.len() - p.pending.len()),
        digests.len() == files_before(members, members.len() - p.pending.len()),
        p.lines == given.lines + listed_members(members, digests).take(
            members.len() - p.pending.len(),
        ),
    ensures
        gathered(given, p.next_hash(), members, digests),
    decreases p.pending.len(),
{
    let at = members.len() - p.pending.len();
    let listed = listed_members(members, digests);
    if p.pending.len() == 0 {
        assert(listed.take(at) =~= listed);
    } else {
        let rest = p.pending.drop_first();
        assert(p.pending[0] == members[at]);
        assert(rest =~= members.skip(at + 1));
        if p.pending[0].file_path is None {
            let next = ProgressView {
                lines: p.lines.push(p.pending[0].of_kind(EntryFileSetLineKind::NonFile)),
                pending: rest,
                ..p
            };
            assert(listed.take(at + 1) =~= listed.take(at).push(listed[at]));
            assert(next.lines =~= given.lines + listed.take(at + 1));
            assert(files_before(members, at + 1) == files_before(members, at));
            lemma_next_hash(given, next, members, digests);
        }
    }
}

proof fn lemma_next_root(given: Selection, p: ProgressView, members: Seq<PendingView>)
    requires
        p.lines == given.lines,
        p.pending == members,
    ensures
        gathered(given, p.next_root(), members, seq![]),
{
    assert(members.skip(0) =~= members);
    assert(given.lines + listed_members(members, seq![]).take(0) =~= given.lines);
    lemma_next_hash(given, p, members, seq![]);
}

proof fn lemma_next_directory(
    given: Selection,
    p: ProgressView,
    walk: WalkView,
    relative_directory: Seq<char>,
    entries: Seq<EntryView>,
    members: Seq<PendingView>,
)
    requires
        p.lines == given.lines,
        p.pending + walk.members == members,
    ensures
        gathered(given, p.next_directory(walk), members, seq![]),
        gathered(given, p.next_entry(walk, relative_directory, entries), members, seq![]),
{
    lemma_next_root(given, ProgressView { pending: p.pending + walk.members, ..p }, members);
}

spec fn with_member(members: Seq<PendingView>, line: Option<PendingView>) -> Seq<PendingView> {
    match line {
        Some(member) => members.push(member),
        None => members,
    }
}

spec fn with_digest(
    digests: Seq<Option<ContentHash>>,
    state: TraversalView,
    reply: ReplyView,
) -> Seq<Option<ContentHash>> {
    match (state, reply) {
        (TraversalView::Hashing { progress, line, path }, ReplyView::Hashed(hash)) => digests.push(
            hash,
        ),
        _ => digests,
    }
}

proof fn lemma_step_gathered(
    given: Selection,
    state: TraversalView,
    reply: ReplyView,
    members: Seq<PendingView>,
    digests: Seq<Option<ContentHash>>,
)
    requires
        gathered(given, state, members, digests),
    ensures
        gathered(
            given,
            state.step(reply),
            with_member(members, member_line(state, reply)),
            with_digest(digests, state, reply),
        ),
{
    if state is Root || state is Listing || state is Member {
        assert(digests =~= seq![]);
    }
    match (state, reply) {
        (TraversalView::Root { progress, root }, ReplyView::Inspected(found)) => {
            let walk = WalkView::at(root);
            assert(progress.pending + walk.members =~= members);
            lemma_next_directory(given, progress, walk, Seq::empty(), Seq::empty(), members);
            if let Some(line) = member_line(state, reply) {
                let size = match member_brought(state, reply) {
                    Some(size) => size,
                    None => 0,
                };
                lemma_next_root(given, progress.counted(size).found(line), members.push(line));
            }
        },
        (TraversalView::Listing { progress, walk, directory }, ReplyView::Listed(Some(entries))) => {
            let next = progress.line_taken().counted(0);
            if let Some(line) = member_line(state, reply) {
                assert(next.pending + walk.found(line).members =~= members.push(line));
                lemma_next_directory(
                    given,
                    next,
                    walk.found(line),
                    Seq::empty(),
                    Seq::empty(),
                    members.push(line),
                );
            }
            lemma_next_directory(
                given,
                progress,
                walk,
                directory.relative_path,
                stable_sort(entries, entry_order()),
                members,
            );
        },
        (
            TraversalView::Member { progress, walk, relative_directory, rest, member },
            ReplyView::Inspected(Some(found)),
        ) => {
            let next = progress.line_taken().counted(found.len);
            if let Some(line) = member_line(state, reply) {
                assert(next.pending + walk.found(line).members =~= members.push(line));
                lemma_next_directory(
                    given,
                    next,
                    walk.found(line),
                    relative_directory,
                    rest,
                    members.push(line),
                );
            }
            lemma_next_directory(
                given,
                progress,
                WalkView { queue: walk.queue.push(member), ..walk },
                relative_directory,
                rest,
                members,
            );
        },
        (TraversalView::Hashing { progress, line, path }, ReplyView::Hashed(hash)) => {
            let at = members.len() - progress.pending.len() - 1;
            let more = digests.push(hash);
            let finished = line.of_kind(kind_of_hash(hash, false));
            let next = ProgressView { lines: progress.lines.push(finished), ..progress };
            let listed = listed_members(members, more);
            lemma_one_more_digest(members, digests, at, hash);
            assert(more[files_before(members, at) as int] == hash);
            assert(listed[at] == finished);
            assert(listed.take(at + 1) =~= listed.take(at).push(finished));
            assert(next.lines =~= given.lines + listed.take(at + 1));
            assert(files_before(members, at + 1) == files_before(members, at) + 1);
            lemma_next_hash(given, next, members, more);
        },
        _ => {},
    }
}

proof fn lemma_gathered(given: Selection, replies: Seq<ReplyView>)
    ensures
        gathered(
            given,
            given.expanded(replies),
            given.member_lines(replies),
            given.digests(replies),
        ),
        given.member_lines(replies).len() == given.members(replies),
    decreases replies.len(),
{
    if replies.len() == 0 {
        let progress = ProgressView {
            caps: given.caps,
            lines: given.lines,
            roots: given.roots,
            budget: TraversalBudget::unused(),
            pending: seq![],
            next_line: given.top_level_count,
        };
        lemma_next_root(given, progress, seq![]);
    } else {
        let before = replies.drop_last();
        lemma_gathered(given, before);
        lemma_step_gathered(
            given,
            given.expanded(before),
            replies.last(),
            given.member_lines(before),
            given.digests(before),
        );
    }
}

/// A set that was expanded to its end has one line for each member that was
/// found, with that member's index, text, place and kind, and the digest that
/// was found for it; and besides these only the lines that hold no root. The
/// lines stand by line index. Each member with content was hashed once.
pub proof fn whole_sets_list_every_member(given: Selection, replies: Seq<ReplyView>)
    requires
        given.expanded(replies) is Finished,
        given.expanded(replies)->failure is None,
    ensures
        given.expanded(replies)->lines == stable_sort(
            given.lines + listed_members(given.member_lines(replies), given.digests(replies)),
            line_order(),
        ),
        given.expanded(replies)->lines.len() == given.lines.len() + given.members(replies),
        given.member_lines(replies).len() == given.members(replies),
        given.digests(replies).len() == files_before(
            given.member_lines(replies),
            given.members(replies) as int,
        ),
{
    lemma_gathered(given, replies);
    sort_keeps_members(
        given.lines + listed_members(given.member_lines(replies), given.digests(replies)),
        line_order(),
    );
}

/// Something belongs to one of the roots.
spec fn is_rooted(given: Selection, original_text: Seq<char>, location: LocationView) -> bool {
    exists|j: int|
        0 <= j < given.roots.len() && belongs_to(
            #[trigger] given.roots[j],
            original_text,
            location,
        )
}

spec fn all_rooted(given: Selection, pending: Seq<PendingView>) -> bool {
    forall|m: int|
        0 <= m < pending.len() ==> is_rooted(
            given,
            (#[trigger] pending[m]).original_text,
            pending[m].member_location,
        )
}

/// A line belongs to one of the roots.
pub open spec fn has_a_root(given: Selection, line: LineView) -> bool {
    exists|j: int| 0 <= j < given.roots.len() && line_belongs_to(#[trigger] given.roots[j], line)
}

spec fn all_accounted_for(given: Selection, lines: Seq<LineView>) -> bool {
    forall|m: int|
        0 <= m < lines.len() ==> given.lines.contains(#[trigger] lines[m]) || has_a_root(
            given,
            lines[m],
        )
}

spec fn progress_rooted(given: Selection, p: ProgressView) -> bool {
    &&& all_accounted_for(given, p.lines)
    &&& all_rooted(given, p.pending)
    &&& forall|m: int| 0 <= m < p.roots.len() ==> given.roots.contains(#[trigger] p.roots[m])
}

spec fn walk_rooted(given: Selection, walk: WalkView) -> bool {
    given.roots.contains(walk.root) && all_rooted(given, walk.members)
}

spec fn state_rooted(given: Selection, state: TraversalView) -> bool {
    match state {
        TraversalView::Root { progress, root } => progress_rooted(given, progress)
            && given.roots.contains(root),
        TraversalView::Listing { progress, walk, directory } => progress_rooted(given, progress)
            && walk_rooted(given, walk),
        TraversalView::Member { progress, walk, relative_directory, rest, member } =>
            progress_rooted(given, progress) && walk_rooted(given, walk),
        TraversalView::Hashing { progress, line, path } => progress_rooted(given, progress)
            && is_rooted(given, line.original_text, line.member_location),
        TraversalView::Finished { lines, failure } => all_accounted_for(given, lines),
    }
}

proof fn lemma_of_root(given: Selection, root: RootView, line: PendingView)
    requires
        given.roots.contains(root),
        belongs_to(root, line.original_text, line.member_location),
    ensures
        is_rooted(given, line.original_text, line.member_location),
{
    let j = choose|j: int| 0 <= j < given.roots.len() && given.roots[j] == root;
    assert(belongs_to(given.roots[j], line.original_text, line.member_location));
}

proof fn lemma_line_rooted(given: Selection, line: PendingView, kind: EntryFileSetLineKind)
    requires
        is_rooted(given, line.original_text, line.member_location),
    ensures
        has_a_root(given, line.of_kind(kind)),
{
    let j = choose|j: int|
        0 <= j < given.roots.len() && belongs_to(
            #[trigger] given.roots[j],
            line.original_text,
            line.member_location,
        );
    assert(line_belongs_to(given.roots[j], line.of_kind(kind)));
}

proof fn lemma_sorted_accounted_for(given: Selection, lines: Seq<LineView>)
    requires
        all_accounted_for(given, lines),
    ensures
        all_accounted_for(given, stable_sort(lines, line_order())),
{
    let sorted = stable_sort(lines, line_order());
    assert forall|m: int| 0 <= m < sorted.len() implies given.lines.contains(#[trigger] sorted[m])
        || has_a_root(given, sorted[m]) by {
        assert(sorted.contains(sorted[m]));
        sort_contains(lines, line_order(), sorted[m]);
        let k = choose|k: int| 0 <= k < lines.len() && lines[k] == sorted[m];
        assert(given.lines.contains(lines[k]) || has_a_root(given, lines[k]));
    }
}

proof fn lemma_stopped_rooted(given: Selection, p: ProgressView, failure: ExpansionFailure)
    requires
        progress_rooted(given, p),
    ensures
        state_rooted(given, p.stopped(failure)),
{
    let kind = excluded(failure);
    let left = p.pending + all_unvisited(p.roots);
    let all = p.lines + all_of_kind(left, kind);
    assert forall|m: int| 0 <= m < all.len() implies given.lines.contains(#[trigger] all[m])
        || has_a_root(given, all[m]) by {
        if m < p.lines.len() {
            assert(all[m] == p.lines[m]);
        } else {
            let k = m - p.lines.len();
            if k < p.pending.len() {
                assert(left[k] == p.pending[k]);
            } else {
                let root = p.roots[k - p.pending.len()];
                assert(left[k] == root.unvisited());
                lemma_of_root(given, root, left[k]);
            }
            lemma_line_rooted(given, left[k], kind);
        }
    }
    lemma_sorted_accounted_for(given, all);
}

proof fn lemma_hash_rooted(given: Selection, p: ProgressView)
    requires
        progress_rooted(given, p),
    ensures
        state_rooted(given, p.next_hash()),
    decreases p.pending.len(),
{
    if p.pending.len() == 0 {
        lemma_sorted_accounted_for(given, p.lines);
    } else {
        let line = p.pending[0];
        let rest = p.pending.drop_first();
        assert forall|m: int| 0 <= m < rest.len() implies is_rooted(
            given,
            (#[trigger] rest[m]).original_text,
            rest[m].member_location,
        ) by {
            assert(rest[m] == p.pending[m + 1]);
        }
        if line.file_path is None {
            lemma_line_rooted(given, line, EntryFileSetLineKind::NonFile);
            let next = ProgressView {
                lines: p.lines.push(line.of_kind(EntryFileSetLineKind::NonFile)),
                pending: rest,
                ..p
            };
            lemma_hash_rooted(given, next);
        }
    }
}

proof fn lemma_root_rooted(given: Selection, p: ProgressView)
    requires
        progress_rooted(given, p),
    ensures
        state_rooted(given, p.next_root()),
{
    lemma_hash_rooted(given, p);
    if p.roots.len() > 0 {
        let rest = p.roots.drop_first();
        assert forall|m: int| 0 <= m < rest.len() implies given.roots.contains(
            #[trigger] rest[m],
        ) by {
            assert(rest[m] == p.roots[m + 1]);
        }
    }
}

proof fn lemma_directory_rooted(
    given: Selection,
    p: ProgressView,
    walk: WalkView,
    relative_directory: Seq<char>,
    entries: Seq<EntryView>,
)
    requires
        progress_rooted(given, p),
        walk_rooted(given, walk),
    ensures
        state_rooted(given, p.next_directory(walk)),
        state_rooted(given, p.next_entry(walk, relative_directory, entries)),
{
    lemma_root_rooted(given, ProgressView { pending: p.pending + walk.members, ..p });
    lemma_failed_rooted(
        given,
        p,
        walk,
        relative_directory,
        ExpansionFailure::UnsupportedMember,
    );
}

proof fn lemma_failed_rooted(
    given: Selection,
    p: ProgressView,
    walk: WalkView,
    relative_path: Seq<char>,
    failure: ExpansionFailure,
)
    requires
        progress_rooted(given, p),
        walk_rooted(given, walk),
    ensures
        state_rooted(given, p.walk_failed(walk, relative_path, failure)),
{
    let line = walk.root.directory_marker(p.next_line, relative_path);
    lemma_of_root(given, walk.root, line);
    lemma_stopped_rooted(given, p.line_taken().found(line), failure);
}

proof fn lemma_step_rooted(given: Selection, state: TraversalView, reply: ReplyView)
    requires
        state_rooted(given, state),
    ensures
        state_rooted(given, state.step(reply)),
{
    match (state, reply) {
        (TraversalView::Root { progress, root }, ReplyView::Inspected(found)) => {
            let marker = root.marker(progress.next_line);
            lemma_of_root(given, root, marker);
            lemma_stopped_rooted(
                given,
                progress.found(marker),
                ExpansionFailure::UnsupportedMember,
            );
            lemma_directory_rooted(
                given,
                progress,
                WalkView::at(root),
                Seq::empty(),
                Seq::empty(),
            );
            if let Some(line) = member_line(state, reply) {
                let size = match member_brought(state, reply) {
                    Some(size) => size,
                    None => 0,
                };
                let next = progress.counted(size).found(line);
                lemma_of_root(given, root, line);
                lemma_stopped_rooted(given, next, ExpansionFailure::SizeCapExceeded);
                lemma_root_rooted(given, next);
            }
        },
        (TraversalView::Listing { progress, walk, directory }, ReplyView::Listed(entries)) => {
            lemma_failed_rooted(
                given,
                progress,
                walk,
                directory.relative_path,
                ExpansionFailure::IngestFailed,
            );
            if let Some(line) = member_line(state, reply) {
                let next = progress.line_taken().counted(0);
                lemma_of_root(given, walk.root, line);
                lemma_stopped_rooted(given, next.found(line), ExpansionFailure::SizeCapExceeded);
                lemma_directory_rooted(given, next, walk.found(line), Seq::empty(), Seq::empty());
            }
            if let Some(unsorted) = entries {
                lemma_directory_rooted(
                    given,
                    progress,
                    walk,
                    directory.relative_path,
                    stable_sort(unsorted, entry_order()),
                );
            }
        },
        (
            TraversalView::Member { progress, walk, relative_directory, rest, member },
            ReplyView::Inspected(found),
        ) => {
            lemma_failed_rooted(
                given,
                progress,
                walk,
                member.relative_path,
                ExpansionFailure::IngestFailed,
            );
            lemma_failed_rooted(
                given,
                progress,
                walk,
                member.relative_path,
                ExpansionFailure::UnsupportedMember,
            );
            lemma_directory_rooted(
                given,
                progress,
                WalkView { queue: walk.queue.push(member), ..walk },
                relative_directory,
                rest,
            );
            if let Some(line) = member_line(state, reply) {
                let next = progress.line_taken().counted(found->0.len);
                lemma_of_root(given, walk.root, line);
                lemma_stopped_rooted(given, next.found(line), ExpansionFailure::SizeCapExceeded);
                lemma_directory_rooted(given, next, walk.found(line), relative_directory, rest);
            }
        },
        (TraversalView::Hashing { progress, line, path }, ReplyView::Hashed(hash)) => {
            let kind = kind_of_hash(hash, false);
            lemma_line_rooted(given, line, kind);
            lemma_hash_rooted(
                given,
                ProgressView { lines: progress.lines.push(line.of_kind(kind)), ..progress },
            );
        },
        _ => {},
    }
}

proof fn lemma_rooted(given: Selection, replies: Seq<ReplyView>)
    ensures
        state_rooted(given, given.expanded(replies)),
    decreases replies.len(),
{
    if replies.len() == 0 {
        let progress = ProgressView {
            caps: given.caps,
            lines: given.lines,
            roots: given.roots,
            budget: TraversalBudget::unused(),
            pending: seq![],
            next_line: given.top_level_count,
        };
        lemma_stopped_rooted(given, progress, ExpansionFailure::SizeCapExceeded);
        lemma_root_rooted(given, progress);
    } else {
        let before = replies.drop_last();
        lemma_rooted(given, before);
        lemma_step_rooted(given, given.expanded(before), replies.last());
    }
}

/// A manifest lists nothing but what was copied: every line that was not given
/// belongs to one of the roots, carries its text, and counts and names it as
/// the selection does.
pub proof fn every_line_has_a_root(given: Selection, replies: Seq<ReplyView>, line: LineView)
    requires
        given.expanded(replies) is Finished,
        given.expanded(replies)->lines.contains(line),
    ensures
        given.lines.contains(line) || has_a_root(given, line),
{
    lemma_rooted(given, replies);
    let lines = given.expanded(replies)->lines;
    let m = choose|m: int| 0 <= m < lines.len() && lines[m] == line;
    assert(given.lines.contains(lines[m]) || has_a_root(given, lines[m]));
}

} // verus!

//! On a device where what was copied can be read, the making of a manifest
//! comes to its end, and so does the capture that it is made for.

use crate::capture::{CaptureReply, CaptureView, Draft, caps_of};
use crate::capture_laws::lemma_no_answers;
use crate::capture_progress::{
    always_answers, answers, answers_move_captures_on, course, left as answers_left, lemma_course,
    stage,
};
use crate::clipboard::ObservedClipboardRepresentation;
use crate::devices::{
    Device, FileTree, copies_one_path, equal_trees_make_the_same_manifest, holds_directory,
    holds_tree,
};
use crate::file_set::{
    EntryFileSetLineKind, FileSetCaps, LineView, PendingView, RootView, TraversalBudget,
    kind_of_hash, line_index_after,
};
use crate::files::{
    EntryView, FileSetMemberKind, PathView, basename, entry_order, kind_of_mode, shown_path,
};
use crate::manifest::{
    ManifestReplyView, ManifestView, ReadingView, expanding, first_listing, local_roots,
};
use crate::manifest_laws::manifest_after;
use crate::manifest_portability::{say_the_same, says_too_large};
use crate::portability::portable_name;
use crate::sorting::{sort_keeps_members, stable_sort};
use crate::text::lines_of;
use crate::traversal::{PlacedView, ProgressView, TraversalView, WalkView};
use vstd::prelude::*;

verus! {

/// How many answers a tree takes: a file what stands there and what it hashes
/// to, a directory what stands there, what it holds, and those of its entries.
pub open spec fn tree_size(tree: FileTree) -> nat
    decreases tree,
{
    match tree {
        FileTree::File { kind, content_hash } => 2,
        FileTree::Directory { entries } => 2 + forest_size(entries),
    }
}

/// How many answers trees take together.
pub open spec fn forest_size(entries: Seq<(Seq<char>, FileTree)>) -> nat
    decreases entries,
{
    if entries.len() == 0 {
        0
    } else {
        tree_size(entries[0].1) + forest_size(entries.drop_first())
    }
}

/// The device holds some tree at the path.
pub open spec fn can_be_read(device: Device, path: PathView) -> bool {
    exists|tree: FileTree| holds_tree(device, path, tree)
}

/// How many answers what the device holds at the path takes.
pub open spec fn answers_for(device: Device, path: PathView) -> nat {
    tree_size(choose|tree: FileTree| holds_tree(device, path, tree))
}

proof fn lemma_one_tree(device: Device, path: PathView, a: FileTree, b: FileTree)
    requires
        holds_tree(device, path, a),
        holds_tree(device, path, b),
    ensures
        a == b,
    decreases a,
{
    match (a, b) {
        (FileTree::Directory { entries: x }, FileTree::Directory { entries: y }) => {
            let sorted = stable_sort((device.list)(path)->0, entry_order());
            assert(x.len() == y.len());
            assert forall|i: int| 0 <= i < x.len() implies x[i] == y[i] by {
                let (left, right) = (x[i], y[i]);
                assert(holds_tree(device, sorted[i].path, left.1));
                assert(holds_tree(device, sorted[i].path, right.1));
                lemma_one_tree(device, sorted[i].path, left.1, right.1);
            }
            assert(x =~= y);
        },
        _ => {},
    }
}

proof fn lemma_answers_for(device: Device, path: PathView, tree: FileTree)
    requires
        holds_tree(device, path, tree),
    ensures
        can_be_read(device, path),
        answers_for(device, path) == tree_size(tree),
{
    let held = choose|held: FileTree| holds_tree(device, path, held);
    lemma_one_tree(device, path, held, tree);
}

proof fn lemma_at_least_two(device: Device, path: PathView)
    ensures
        answers_for(device, path) >= 2,
{
}

spec fn all_roots_read(device: Device, roots: Seq<RootView>) -> bool {
    forall|i: int| 0 <= i < roots.len() ==> can_be_read(device, (#[trigger] roots[i]).path)
}

/// How many answers roots take together.
pub open spec fn for_roots(device: Device, roots: Seq<RootView>) -> nat
    decreases roots.len(),
{
    if roots.len() == 0 {
        0
    } else {
        answers_for(device, roots[0].path) + for_roots(device, roots.drop_first())
    }
}

spec fn all_queued_read(device: Device, queue: Seq<PlacedView>) -> bool {
    forall|i: int|
        0 <= i < queue.len() ==> can_be_read(device, (#[trigger] queue[i]).path)
            && holds_directory(device, queue[i].path)
}

/// How many answers directories take whose metadata were read.
spec fn for_queue(device: Device, queue: Seq<PlacedView>) -> nat
    decreases queue.len(),
{
    if queue.len() == 0 {
        0
    } else {
        (answers_for(device, queue[0].path) - 1) as nat + for_queue(device, queue.drop_first())
    }
}

spec fn all_entries_read(device: Device, entries: Seq<EntryView>) -> bool {
    forall|i: int|
        0 <= i < entries.len() ==> can_be_read(device, (#[trigger] entries[i]).path)
            && entries[i].name is Some
}

spec fn for_entries(device: Device, entries: Seq<EntryView>) -> nat
    decreases entries.len(),
{
    if entries.len() == 0 {
        0
    } else {
        answers_for(device, entries[0].path) + for_entries(device, entries.drop_first())
    }
}

/// How many of the lines have content, which is still to be hashed.
spec fn to_hash(pending: Seq<PendingView>) -> nat
    decreases pending.len(),
{
    if pending.len() == 0 {
        0
    } else {
        (if pending[0].file_path is Some {
            1nat
        } else {
            0nat
        }) + to_hash(pending.drop_first())
    }
}

proof fn lemma_to_hash_of_both(a: Seq<PendingView>, b: Seq<PendingView>)
    ensures
        to_hash(a + b) == to_hash(a) + to_hash(b),
    decreases a.len(),
{
    if a.len() == 0 {
        assert(a + b =~= b);
    } else {
        assert((a + b).drop_first() =~= a.drop_first() + b);
        lemma_to_hash_of_both(a.drop_first(), b);
    }
}

proof fn lemma_to_hash_of_one_more(a: Seq<PendingView>, line: PendingView)
    ensures
        to_hash(a.push(line)) == to_hash(a) + if line.file_path is Some {
            1nat
        } else {
            0nat
        },
{
    assert(a.push(line) =~= a + seq![line]);
    assert(seq![line].drop_first() =~= seq![]);
    assert(to_hash(seq![line].drop_first()) == 0);
    lemma_to_hash_of_both(a, seq![line]);
}

proof fn lemma_queue_of_one_more(device: Device, queue: Seq<PlacedView>, placed: PlacedView)
    ensures
        for_queue(device, queue.push(placed)) == for_queue(device, queue) + (answers_for(
            device,
            placed.path,
        ) - 1),
    decreases queue.len(),
{
    lemma_at_least_two(device, placed.path);
    if queue.len() == 0 {
        assert(queue.push(placed).drop_first() =~= seq![]);
        assert(for_queue(device, queue.push(placed).drop_first()) == 0);
    } else {
        assert(queue.push(placed).drop_first() =~= queue.drop_first().push(placed));
        lemma_queue_of_one_more(device, queue.drop_first(), placed);
    }
}

proof fn lemma_roots_of_one_more(device: Device, roots: Seq<RootView>, root: RootView)
    ensures
        for_roots(device, roots.push(root)) == for_roots(device, roots) + answers_for(
            device,
            root.path,
        ),
    decreases roots.len(),
{
    if roots.len() == 0 {
        assert(roots.push(root).drop_first() =~= seq![]);
        assert(for_roots(device, roots.push(root).drop_first()) == 0);
    } else {
        assert(roots.push(root).drop_first() =~= roots.drop_first().push(root));
        lemma_roots_of_one_more(device, roots.drop_first(), root);
    }
}

/// What an expansion holds before it can be read.
spec fn can_go_on(device: Device, state: TraversalView) -> bool {
    match state {
        TraversalView::Root { progress, root } => all_roots_read(device, progress.roots)
            && can_be_read(device, root.path),
        TraversalView::Listing { progress, walk, directory } => {
            &&& all_roots_read(device, progress.roots)
            &&& all_queued_read(device, walk.queue)
            &&& can_be_read(device, directory.path)
            &&& holds_directory(device, directory.path)
        },
        TraversalView::Member { progress, walk, relative_directory, rest, member } => {
            &&& all_roots_read(device, progress.roots)
            &&& all_queued_read(device, walk.queue)
            &&& all_entries_read(device, rest)
            &&& can_be_read(device, member.path)
        },
        TraversalView::Hashing { progress, line, path } => progress.roots.len() == 0,
        TraversalView::Finished { lines, failure } => true,
    }
}

/// How many answers an expansion takes at most until it is finished.
spec fn left(device: Device, state: TraversalView) -> nat {
    match state {
        TraversalView::Root { progress, root } => answers_for(device, root.path) + for_roots(
            device,
            progress.roots,
        ) + to_hash(progress.pending),
        TraversalView::Listing { progress, walk, directory } => (answers_for(
            device,
            directory.path,
        ) - 1) as nat + for_queue(device, walk.queue) + for_roots(device, progress.roots)
            + to_hash(progress.pending) + to_hash(walk.members),
        TraversalView::Member { progress, walk, relative_directory, rest, member } => answers_for(
            device,
            member.path,
        ) + for_entries(device, rest) + for_queue(device, walk.queue) + for_roots(
            device,
            progress.roots,
        ) + to_hash(progress.pending) + to_hash(walk.members),
        TraversalView::Hashing { progress, line, path } => 1 + to_hash(progress.pending),
        TraversalView::Finished { lines, failure } => 0,
    }
}

proof fn lemma_next_hash(device: Device, p: ProgressView)
    requires
        p.roots.len() == 0,
    ensures
        can_go_on(device, p.next_hash()),
        left(device, p.next_hash()) <= to_hash(p.pending),
    decreases p.pending.len(),
{
    if p.pending.len() > 0 && p.pending[0].file_path is None {
        lemma_next_hash(
            device,
            ProgressView {
                lines: p.lines.push(p.pending[0].of_kind(EntryFileSetLineKind::NonFile)),
                pending: p.pending.drop_first(),
                ..p
            },
        );
    }
}

proof fn lemma_next_root(device: Device, p: ProgressView)
    requires
        all_roots_read(device, p.roots),
    ensures
        can_go_on(device, p.next_root()),
        left(device, p.next_root()) <= for_roots(device, p.roots) + to_hash(p.pending),
{
    if p.roots.len() == 0 {
        lemma_next_hash(device, p);
    } else {
        let rest = p.roots.drop_first();
        assert forall|i: int| 0 <= i < rest.len() implies can_be_read(
            device,
            (#[trigger] rest[i]).path,
        ) by {
            assert(rest[i] == p.roots[i + 1]);
        }
    }
}

proof fn lemma_next_directory(device: Device, p: ProgressView, walk: WalkView)
    requires
        all_roots_read(device, p.roots),
        all_queued_read(device, walk.queue),
    ensures
        can_go_on(device, p.next_directory(walk)),
        left(device, p.next_directory(walk)) <= for_queue(device, walk.queue) + for_roots(
            device,
            p.roots,
        ) + to_hash(p.pending) + to_hash(walk.members),
{
    if walk.queue.len() == 0 {
        lemma_to_hash_of_both(p.pending, walk.members);
        lemma_next_root(device, ProgressView { pending: p.pending + walk.members, ..p });
    } else {
        let rest = walk.queue.drop_first();
        assert forall|i: int| 0 <= i < rest.len() implies can_be_read(
            device,
            (#[trigger] rest[i]).path,
        ) && holds_directory(device, rest[i].path) by {
            assert(rest[i] == walk.queue[i + 1]);
        }
        assert(can_be_read(device, walk.queue[0].path));
    }
}

proof fn lemma_next_entry(
    device: Device,
    p: ProgressView,
    walk: WalkView,
    relative_directory: Seq<char>,
    entries: Seq<EntryView>,
)
    requires
        all_roots_read(device, p.roots),
        all_queued_read(device, walk.queue),
        all_entries_read(device, entries),
    ensures
        can_go_on(device, p.next_entry(walk, relative_directory, entries)),
        left(device, p.next_entry(walk, relative_directory, entries)) <= for_entries(
            device,
            entries,
        ) + for_queue(device, walk.queue) + for_roots(device, p.roots) + to_hash(p.pending)
            + to_hash(walk.members),
{
    if entries.len() == 0 {
        lemma_next_directory(device, p, walk);
    } else {
        let rest = entries.drop_first();
        assert forall|i: int| 0 <= i < rest.len() implies can_be_read(
            device,
            (#[trigger] rest[i]).path,
        ) && rest[i].name is Some by {
            assert(rest[i] == entries[i + 1]);
        }
        assert(can_be_read(device, entries[0].path));
    }
}

proof fn lemma_entries_of_tree(
    device: Device,
    sorted: Seq<EntryView>,
    entries: Seq<(Seq<char>, FileTree)>,
)
    requires
        sorted.len() == entries.len(),
        forall|i: int|
            #![trigger entries[i]]
            #![trigger sorted[i]]
            0 <= i < entries.len() ==> holds_tree(device, sorted[i].path, entries[i].1)
                && sorted[i].name is Some,
    ensures
        all_entries_read(device, sorted),
        for_entries(device, sorted) == forest_size(entries),
    decreases entries.len(),
{
    assert forall|i: int| 0 <= i < sorted.len() implies can_be_read(
        device,
        (#[trigger] sorted[i]).path,
    ) && sorted[i].name is Some by {
        assert(holds_tree(device, sorted[i].path, entries[i].1));
    }
    if entries.len() > 0 {
        lemma_answers_for(device, sorted[0].path, entries[0].1);
        let (fewer, rest) = (sorted.drop_first(), entries.drop_first());
        assert forall|i: int|
            #![trigger rest[i]]
            #![trigger fewer[i]]
            0 <= i < rest.len() implies holds_tree(device, fewer[i].path, rest[i].1)
            && fewer[i].name is Some by {
            assert(rest[i] == entries[i + 1] && fewer[i] == sorted[i + 1]);
        }
        lemma_entries_of_tree(device, fewer, rest);
    }
}

proof fn lemma_root_step(device: Device, state: TraversalView)
    requires
        can_go_on(device, state),
        state is Root,
    ensures
        can_go_on(device, state.step(device.reply(state))),
        left(device, state.step(device.reply(state))) < left(device, state),
{
    if let TraversalView::Root { progress, root } = state {
        let tree = choose|tree: FileTree| holds_tree(device, root.path, tree);
        lemma_answers_for(device, root.path, tree);
        let found = (device.inspect)(root.path)->0;
        match tree {
            FileTree::File { kind, content_hash } => {
                let size = match root.known_size {
                    Some(known) => known,
                    None => found.len,
                };
                let next = progress.counted(size).found(root.flat_file(found));
                lemma_to_hash_of_one_more(progress.pending, root.flat_file(found));
                lemma_next_root(device, next);
            },
            FileTree::Directory { entries } => {
                let walk = WalkView::at(root);
                let placed = walk.queue[0];
                assert(walk.queue =~= Seq::<PlacedView>::empty().push(placed));
                lemma_queue_of_one_more(device, seq![], placed);
                assert(for_queue(device, seq![]) == 0);
                lemma_next_directory(device, progress, walk);
            },
        }
    }
}

proof fn lemma_listing_step(device: Device, state: TraversalView)
    requires
        can_go_on(device, state),
        state is Listing,
    ensures
        can_go_on(device, state.step(device.reply(state))),
        left(device, state.step(device.reply(state))) < left(device, state),
{
    if let TraversalView::Listing { progress, walk, directory } = state {
        let tree = choose|tree: FileTree| holds_tree(device, directory.path, tree);
        lemma_answers_for(device, directory.path, tree);
        if let FileTree::Directory { entries } = tree {
            let listed = (device.list)(directory.path)->0;
            let sorted = stable_sort(listed, entry_order());
            sort_keeps_members(listed, entry_order());
            assert forall|i: int|
                #![trigger entries[i]]
                #![trigger sorted[i]]
                0 <= i < entries.len() implies holds_tree(device, sorted[i].path, entries[i].1)
                && sorted[i].name is Some by {
                assert(entries[i] == entries[i]);
            }
            lemma_entries_of_tree(device, sorted, entries);
            if listed.len() == 0 {
                let marker = walk.root.member(
                    progress.next_line,
                    shown_path(directory.relative_path),
                    FileSetMemberKind::EmptyDirectory,
                    None,
                );
                lemma_to_hash_of_one_more(walk.members, marker);
                lemma_next_directory(
                    device,
                    progress.line_taken().counted(0),
                    walk.found(marker),
                );
            } else {
                lemma_next_entry(device, progress, walk, directory.relative_path, sorted);
            }
        }
    }
}

proof fn lemma_member_step(device: Device, state: TraversalView)
    requires
        can_go_on(device, state),
        state is Member,
    ensures
        can_go_on(device, state.step(device.reply(state))),
        left(device, state.step(device.reply(state))) < left(device, state),
{
    if let TraversalView::Member { progress, walk, relative_directory, rest, member } = state {
        let tree = choose|tree: FileTree| holds_tree(device, member.path, tree);
        lemma_answers_for(device, member.path, tree);
        let found = (device.inspect)(member.path)->0;
        match tree {
            FileTree::File { kind, content_hash } => {
                let line = walk.root.member(
                    progress.next_line,
                    member.relative_path,
                    kind_of_mode(found.mode),
                    Some(member.path),
                );
                lemma_to_hash_of_one_more(walk.members, line);
                lemma_next_entry(
                    device,
                    progress.line_taken().counted(found.len),
                    walk.found(line),
                    relative_directory,
                    rest,
                );
            },
            FileTree::Directory { entries } => {
                let longer = walk.queue.push(member);
                assert forall|i: int| 0 <= i < longer.len() implies can_be_read(
                    device,
                    (#[trigger] longer[i]).path,
                ) && holds_directory(device, longer[i].path) by {
                    if i < walk.queue.len() {
                        assert(longer[i] == walk.queue[i]);
                    }
                }
                lemma_queue_of_one_more(device, walk.queue, member);
                lemma_next_entry(
                    device,
                    progress,
                    WalkView { queue: longer, ..walk },
                    relative_directory,
                    rest,
                );
            },
        }
    }
}

proof fn lemma_step(device: Device, state: TraversalView)
    requires
        can_go_on(device, state),
        state !is Finished,
    ensures
        can_go_on(device, state.step(device.reply(state))),
        left(device, state.step(device.reply(state))) < left(device, state),
{
    match state {
        TraversalView::Root { progress, root } => lemma_root_step(device, state),
        TraversalView::Listing { progress, walk, directory } => lemma_listing_step(device, state),
        TraversalView::Member { progress, walk, relative_directory, rest, member } =>
            lemma_member_step(device, state),
        TraversalView::Hashing { progress, line, path } => {
            lemma_next_hash(
                device,
                ProgressView {
                    lines: progress.lines.push(
                        line.of_kind(kind_of_hash((device.hash)(path), false)),
                    ),
                    ..progress
                },
            );
        },
        TraversalView::Finished { lines, failure } => {},
    }
}

/// A line names no file, or one that can be read.
pub open spec fn line_can_be_read(device: Device, text: Seq<char>) -> bool {
    (device.classify)(text) matches Some(path) ==> can_be_read(device, path)
}

/// How many answers a line takes: what it names, and those of that.
pub open spec fn for_line(device: Device, text: Seq<char>) -> nat {
    match (device.classify)(text) {
        Some(path) => 1 + answers_for(device, path),
        None => 1,
    }
}

/// How many answers lines take together.
pub open spec fn for_lines(device: Device, texts: Seq<Seq<char>>) -> nat
    decreases texts.len(),
{
    if texts.len() == 0 {
        0
    } else {
        for_line(device, texts[0]) + for_lines(device, texts.drop_first())
    }
}

/// All that was copied can be read on this device: the files themselves or,
/// where there are none, those that the lines of a listing name.
pub open spec fn copied_can_be_read(
    device: Device,
    copied: Seq<ObservedClipboardRepresentation>,
) -> bool {
    let roots = local_roots(copied, 0);
    &&& forall|i: int| 0 <= i < roots.len() ==> can_be_read(device, (#[trigger] roots[i]).path)
    &&& roots.len() == 0 ==> (first_listing(copied) matches Some(listing) ==> all_lines_read(
        device,
        lines_of(listing),
    ))
}

/// Every line names no file, or one that can be read.
pub open spec fn all_lines_read(device: Device, texts: Seq<Seq<char>>) -> bool {
    forall|i: int| 0 <= i < texts.len() ==> line_can_be_read(device, #[trigger] texts[i])
}

/// How many answers all that was copied takes.
pub open spec fn for_copied(
    device: Device,
    copied: Seq<ObservedClipboardRepresentation>,
) -> nat {
    if local_roots(copied, 0).len() > 0 {
        for_roots(device, local_roots(copied, 0))
    } else {
        match first_listing(copied) {
            Some(listing) => for_lines(device, lines_of(listing)),
            None => 0,
        }
    }
}

spec fn manifest_can_go_on(device: Device, state: ManifestView) -> bool {
    match state {
        ManifestView::Reading { reading, line } => {
            &&& all_roots_read(device, reading.roots)
            &&& all_lines_read(device, reading.rest)
            &&& line_can_be_read(device, line)
        },
        ManifestView::Expanding { traversal } => traversal !is Finished && can_go_on(
            device,
            traversal,
        ),
        ManifestView::Finished { file_set } => true,
    }
}

spec fn manifest_left(device: Device, state: ManifestView) -> nat {
    match state {
        ManifestView::Reading { reading, line } => for_line(device, line) + for_lines(
            device,
            reading.rest,
        ) + for_roots(device, reading.roots),
        ManifestView::Expanding { traversal } => left(device, traversal),
        ManifestView::Finished { file_set } => 0,
    }
}

proof fn lemma_started(
    device: Device,
    roots: Seq<RootView>,
    lines: Seq<LineView>,
    top_level_count: i64,
    caps: FileSetCaps,
)
    requires
        all_roots_read(device, roots),
    ensures
        ({
            let state = expanding(TraversalView::started(roots, lines, top_level_count, caps));
            manifest_can_go_on(device, state) && manifest_left(device, state) <= for_roots(
                device,
                roots,
            )
        }),
{
    lemma_next_root(
        device,
        ProgressView {
            caps,
            lines,
            roots,
            budget: TraversalBudget::unused(),
            pending: seq![],
            next_line: top_level_count,
        },
    );
}

proof fn lemma_next_line(device: Device, reading: ReadingView)
    requires
        all_roots_read(device, reading.roots),
        all_lines_read(device, reading.rest),
    ensures
        manifest_can_go_on(device, reading.next_line()),
        manifest_left(device, reading.next_line()) <= for_lines(device, reading.rest) + for_roots(
            device,
            reading.roots,
        ),
{
    if reading.rest.len() == 0 {
        lemma_started(
            device,
            reading.roots,
            reading.others,
            reading.top_level_count,
            reading.caps,
        );
    } else {
        let rest = reading.rest.drop_first();
        assert forall|i: int| 0 <= i < rest.len() implies line_can_be_read(
            device,
            #[trigger] rest[i],
        ) by {
            assert(rest[i] == reading.rest[i + 1]);
        }
        assert(line_can_be_read(device, reading.rest[0]));
    }
}

proof fn lemma_manifest_step(device: Device, state: ManifestView)
    requires
        manifest_can_go_on(device, state),
        state !is Finished,
    ensures
        manifest_can_go_on(device, state.step(device.answer(state))),
        manifest_left(device, state.step(device.answer(state))) < manifest_left(device, state),
{
    match state {
        ManifestView::Reading { reading, line } => {
            match (device.classify)(line) {
                Some(path) => {
                    let root = RootView {
                        line_index: reading.line_index,
                        root_index: reading.root_index,
                        original_text: line,
                        root_name: basename(path),
                        path,
                        known_size: None,
                    };
                    let roots = reading.roots.push(root);
                    assert forall|i: int| 0 <= i < roots.len() implies can_be_read(
                        device,
                        (#[trigger] roots[i]).path,
                    ) by {
                        if i < reading.roots.len() {
                            assert(roots[i] == reading.roots[i]);
                        }
                    }
                    lemma_roots_of_one_more(device, reading.roots, root);
                    lemma_next_line(
                        device,
                        ReadingView {
                            line_index: line_index_after(reading.line_index),
                            root_index: line_index_after(reading.root_index),
                            roots,
                            ..reading
                        },
                    );
                },
                None => {
                    let other = LineView {
                        line_index: reading.line_index,
                        original_text: line,
                        member_location: None,
                        kind: EntryFileSetLineKind::NonFile,
                    };
                    lemma_next_line(
                        device,
                        ReadingView {
                            line_index: line_index_after(reading.line_index),
                            others: reading.others.push(other),
                            ..reading
                        },
                    );
                },
            }
        },
        ManifestView::Expanding { traversal } => {
            lemma_step(device, traversal);
        },
        ManifestView::Finished { file_set } => {},
    }
}

proof fn lemma_making(
    device: Device,
    copied: Seq<ObservedClipboardRepresentation>,
    caps: FileSetCaps,
    count: nat,
)
    requires
        copied_can_be_read(device, copied),
    ensures
        manifest_can_go_on(device, device.making(copied, caps, count)),
        device.making(copied, caps, count) is Finished || manifest_left(
            device,
            device.making(copied, caps, count),
        ) + count <= for_copied(device, copied),
    decreases count,
{
    if count == 0 {
        let roots = local_roots(copied, 0);
        if roots.len() > 0 {
            lemma_started(device, roots, seq![], roots.len() as i64, caps);
        } else if let Some(listing) = first_listing(copied) {
            lemma_next_line(
                device,
                ReadingView {
                    caps,
                    rest: lines_of(listing),
                    line_index: 0,
                    root_index: 0,
                    roots: seq![],
                    others: seq![],
                    top_level_count: lines_of(listing).len() as i64,
                },
            );
        }
    } else {
        let before = (count - 1) as nat;
        let state = device.making(copied, caps, before);
        let answers = device.answers(copied, caps, before);
        assert(answers.push(device.answer(state)).drop_last() =~= answers);
        lemma_making(device, copied, caps, before);
        if state !is Finished {
            lemma_manifest_step(device, state);
        }
    }
}

proof fn lemma_nothing_left(device: Device, state: ManifestView)
    requires
        manifest_can_go_on(device, state),
        state !is Finished,
    ensures
        manifest_left(device, state) > 0,
{
}

/// The making of a manifest ends where all that was copied can be read, after
/// as many answers as that takes at most.
pub proof fn readable_copies_are_listed_to_the_end(
    device: Device,
    copied: Seq<ObservedClipboardRepresentation>,
    caps: FileSetCaps,
)
    requires
        copied_can_be_read(device, copied),
    ensures
        device.making(copied, caps, for_copied(device, copied)) is Finished,
        exists|count: nat| #[trigger] device.making(copied, caps, count) is Finished,
{
    let count = for_copied(device, copied);
    lemma_making(device, copied, caps, count);
    if device.making(copied, caps, count) !is Finished {
        lemma_nothing_left(device, device.making(copied, caps, count));
    }
    assert(device.making(copied, caps, count) is Finished);
}

/// A manifest that is made of something is there when it is finished.
proof fn lemma_some_manifest(
    copied: Seq<ObservedClipboardRepresentation>,
    caps: FileSetCaps,
    replies: Seq<ManifestReplyView>,
)
    requires
        first_listing(copied) is Some,
    ensures
        manifest_after(copied, caps, replies) is Finished ==> manifest_after(
            copied,
            caps,
            replies,
        )->file_set is Some,
    decreases replies.len(),
{
    if replies.len() > 0 {
        lemma_some_manifest(copied, caps, replies.drop_last());
    }
}

/// One copied path that holds a tree is listed to its end: one answer says
/// what the line names, and the rest are those of the tree. So the making of
/// its manifest ends, and with a manifest.
pub proof fn a_copied_tree_is_listed_to_the_end(
    device: Device,
    copied: Seq<ObservedClipboardRepresentation>,
    caps: FileSetCaps,
    text: Seq<char>,
    path: PathView,
    tree: FileTree,
)
    requires
        copies_one_path(device, copied, text, path),
        holds_tree(device, path, tree),
    ensures
        device.making(copied, caps, 1 + tree_size(tree)) is Finished,
        device.making(copied, caps, 1 + tree_size(tree))->file_set is Some,
        exists|count: nat| #[trigger] device.making(copied, caps, count) is Finished,
{
    let texts = lines_of(first_listing(copied)->0);
    lemma_answers_for(device, path, tree);
    assert(texts.drop_first() =~= seq![]);
    assert(for_lines(device, texts.drop_first()) == 0);
    assert(for_copied(device, copied) == 1 + tree_size(tree));
    readable_copies_are_listed_to_the_end(device, copied, caps);
    lemma_some_manifest(copied, caps, device.answers(copied, caps, 1 + tree_size(tree)));
}

/// Two devices that each copy one path, of one name in normal form, and hold
/// one and the same tree there, both come to a manifest, and the two say the
/// same, wherever the paths lie. Sizes and caps may differ as long as neither
/// manifest says that its set is too large.
pub proof fn equal_trees_end_in_the_same_manifest(
    here: Device,
    there: Device,
    copied_here: Seq<ObservedClipboardRepresentation>,
    copied_there: Seq<ObservedClipboardRepresentation>,
    caps_here: FileSetCaps,
    caps_there: FileSetCaps,
    text_here: Seq<char>,
    text_there: Seq<char>,
    path_here: PathView,
    path_there: PathView,
    tree: FileTree,
)
    requires
        copies_one_path(here, copied_here, text_here, path_here),
        copies_one_path(there, copied_there, text_there, path_there),
        portable_name(path_here.file_name) == portable_name(path_there.file_name),
        holds_tree(here, path_here, tree),
        holds_tree(there, path_there, tree),
        !says_too_large(here.making(copied_here, caps_here, 1 + tree_size(tree))),
        !says_too_large(there.making(copied_there, caps_there, 1 + tree_size(tree))),
    ensures
        ({
            let made_here = here.making(copied_here, caps_here, 1 + tree_size(tree));
            let made_there = there.making(copied_there, caps_there, 1 + tree_size(tree));
            &&& made_here is Finished && made_here->file_set is Some
            &&& made_there is Finished && made_there->file_set is Some
            &&& say_the_same(made_here->file_set->0, made_there->file_set->0)
        }),
{
    a_copied_tree_is_listed_to_the_end(here, copied_here, caps_here, text_here, path_here, tree);
    a_copied_tree_is_listed_to_the_end(
        there,
        copied_there,
        caps_there,
        text_there,
        path_there,
        tree,
    );
    equal_trees_make_the_same_manifest(
        here,
        there,
        copied_here,
        copied_there,
        caps_here,
        caps_there,
        text_here,
        text_there,
        path_here,
        path_there,
        tree,
        1 + tree_size(tree),
    );
}

/// On its course, a capture has the answers about its manifest from the
/// device.
pub open spec fn asks_device(
    draft: Draft,
    host: spec_fn(CaptureView) -> CaptureReply,
    device: Device,
) -> bool {
    forall|count: nat|
        #![trigger course(draft, host, count)]
        course(draft, host, count) matches CaptureView::BuildFileSet { sourced, manifest } ==> (
        host(course(draft, host, count)) matches CaptureReply::Manifest(reply) && reply@
            == device.answer(manifest))
}

spec fn capture_can_go_on(device: Device, draft: Draft, state: CaptureView) -> bool {
    match state {
        CaptureView::NewEventId { draft: begun } => begun == draft,
        CaptureView::CurrentDevice { draft: begun, event_id } => begun == draft,
        CaptureView::LoadCaps { sourced } => sourced.draft == draft,
        CaptureView::BuildFileSet { sourced, manifest } => manifest_can_go_on(device, manifest),
        _ => true,
    }
}

/// How many answers a capture takes at most until it has ended.
spec fn capture_left(device: Device, draft: Draft, state: CaptureView) -> nat {
    match state {
        CaptureView::NewEventId { draft: begun } => left_in_all(device, draft, state),
        CaptureView::CurrentDevice { draft: begun, event_id } => left_in_all(device, draft, state),
        CaptureView::LoadCaps { sourced } => left_in_all(device, draft, state),
        CaptureView::BuildFileSet { sourced, manifest } => answers_left(state) + manifest_left(
            device,
            manifest,
        ),
        _ => answers_left(state),
    }
}

spec fn left_in_all(device: Device, draft: Draft, state: CaptureView) -> nat {
    answers_left(state) + for_copied(device, draft.snapshot.representations@)
}

proof fn lemma_begun_manifest(
    device: Device,
    copied: Seq<ObservedClipboardRepresentation>,
    caps: FileSetCaps,
)
    requires
        copied_can_be_read(device, copied),
    ensures
        manifest_can_go_on(device, ManifestView::started(copied, caps)),
        manifest_left(device, ManifestView::started(copied, caps)) <= for_copied(device, copied),
{
    lemma_making(device, copied, caps, 0);
    assert(device.making(copied, caps, 0) == ManifestView::started(copied, caps));
}

proof fn lemma_capture_step(device: Device, draft: Draft, state: CaptureView, reply: CaptureReply)
    requires
        copied_can_be_read(device, draft.snapshot.representations@),
        capture_can_go_on(device, draft, state),
        answers(state, reply),
        state matches CaptureView::BuildFileSet { sourced, manifest } ==> (
        reply matches CaptureReply::Manifest(answer) && answer@ == device.answer(manifest)),
    ensures
        capture_can_go_on(device, draft, state.step(reply)),
        capture_left(device, draft, state.step(reply)) < capture_left(device, draft, state),
{
    answers_move_captures_on(state, reply);
    let next = state.step(reply);
    match state {
        CaptureView::NewEventId { draft: begun } => {},
        CaptureView::CurrentDevice { draft: begun, event_id } => {},
        CaptureView::LoadCaps { sourced } => {
            if let CaptureReply::Settings(settings) = reply {
                lemma_begun_manifest(
                    device,
                    draft.snapshot.representations@,
                    caps_of(settings),
                );
            }
            assert(stage(next) < stage(state));
        },
        CaptureView::BuildFileSet { sourced, manifest } => {
            lemma_manifest_step(device, manifest);
            assert(stage(next) <= stage(state));
        },
        _ => {
            assert(stage(next) <= stage(state) < 19);
        },
    }
}

proof fn lemma_capture_left(
    draft: Draft,
    host: spec_fn(CaptureView) -> CaptureReply,
    device: Device,
    count: nat,
)
    requires
        always_answers(draft, host),
        asks_device(draft, host, device),
        copied_can_be_read(device, draft.snapshot.representations@),
    ensures
        capture_can_go_on(device, draft, course(draft, host, count)),
        course(draft, host, count) is Done || capture_left(
            device,
            draft,
            course(draft, host, count),
        ) + count <= capture_left(device, draft, draft.begun()),
    decreases count,
{
    if count == 0 {
        lemma_no_answers(draft);
    } else {
        let before = (count - 1) as nat;
        let state = course(draft, host, before);
        lemma_capture_left(draft, host, device, before);
        lemma_course(draft, host, before);
        if state !is Done {
            lemma_capture_step(device, draft, state, host(state));
        }
    }
}

/// A capture ends on a device on which all that was copied can be read: after
/// at most as many answers as that takes, three more for each representation,
/// and some.
pub proof fn captures_of_readable_copies_end(
    draft: Draft,
    host: spec_fn(CaptureView) -> CaptureReply,
    device: Device,
)
    requires
        always_answers(draft, host),
        asks_device(draft, host, device),
        copied_can_be_read(device, draft.snapshot.representations@),
    ensures
        course(
            draft,
            host,
            for_copied(device, draft.snapshot.representations@) + 3
                * draft.snapshot.representations@.len() + 19,
        ) is Done,
        exists|count: nat| #[trigger] course(draft, host, count) is Done,
{
    let observed = draft.snapshot.representations@;
    let count: nat = for_copied(device, observed) + 3 * observed.len() + 19;
    lemma_capture_left(draft, host, device, count);
    let ended = course(draft, host, count);
    assert(ended !is Done ==> capture_left(device, draft, ended) > 0);
    assert(capture_left(device, draft, draft.begun()) <= count);
    assert(ended is Done);
}

} // verus!

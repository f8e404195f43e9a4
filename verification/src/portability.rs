//! What an expansion says does not depend on where the files lie.
//!
//! Two devices hold the same files under different directories, on file
//! systems of their own. What an expansion reads of them is portable: whether
//! a path holds a file, a directory or neither, whether a file may be
//! executed, its size, its digest, and names up to their normal form. What it
//! carries along otherwise, the paths and the texts by which the clipboard
//! named them, is not; a naming says which of them stand for the same on both
//! devices.

use crate::file_set::{
    EntryFileSetLineKind, ExpansionFailure, FileSetCaps, LineView, PendingView, RootView,
    TraversalBudget, kind_of_hash, line_order,
};
use crate::files::{
    EntryView, FileMetadata, FileSetMemberKind, PathView, basename, entry_order,
    entry_order_is_ranking, entry_order_tells_apart, has_distinct_names, kind_of_mode, shown_path,
};
use crate::sorting::{
    sort_forgets_the_order, sort_keeps_members, sort_of_images, sort_of_ties, stable_sort,
};
use crate::traversal::{
    PlacedView, ProgressView, ReplyView, TraversalView, WalkView, all_of_kind, all_unvisited,
    excluded,
};
use crate::traversal_laws::Selection;
use crate::unicode::nfc_form;
use vstd::prelude::*;

verus! {

/// The names under which one device's paths and texts are known on all.
pub struct Naming {
    /// The common name of a path. Paths of two devices with one common name
    /// hold the same.
    pub places: spec_fn(PathView) -> Seq<u8>,
    /// The common name of a text by which the clipboard names something.
    pub texts: spec_fn(Seq<char>) -> Seq<char>,
    /// Sizes and caps count. Without them only sets that fit their caps can be
    /// held against each other.
    pub sizes: bool,
}

/// A text with the given normal form.
pub open spec fn some_text_of(form: Seq<char>) -> Seq<char> {
    choose|text: Seq<char>| nfc_form(text) == form
}

/// A name up to its normal form: texts with one normal form give one name.
pub open spec fn portable_name(name: Option<Seq<char>>) -> Option<Seq<char>> {
    match name {
        Some(text) => Some(some_text_of(nfc_form(text))),
        None => None,
    }
}

/// What is read of metadata: what stands there and, of a file, whether it may
/// be executed and how large it is.
pub open spec fn portable_metadata(naming: Naming, found: FileMetadata) -> FileMetadata {
    let plain = !found.symlink && !found.directory && found.regular;
    FileMetadata {
        symlink: found.symlink,
        directory: !found.symlink && found.directory,
        regular: plain,
        len: if plain && naming.sizes {
            found.len
        } else {
            0
        },
        mode: if plain && kind_of_mode(found.mode) == FileSetMemberKind::Executable {
            Some(0o111)
        } else {
            None
        },
    }
}

impl Naming {
    /// A path by its common name.
    pub open spec fn path(self, path: PathView) -> PathView {
        PathView { raw: (self.places)(path), file_name: portable_name(path.file_name) }
    }

    /// A path that may be missing, by its common name.
    pub open spec fn path_inside(self, path: Option<PathView>) -> Option<PathView> {
        match path {
            Some(inside) => Some(self.path(inside)),
            None => None,
        }
    }

    /// A root by its common names.
    pub open spec fn root(self, root: RootView) -> RootView {
        RootView {
            original_text: (self.texts)(root.original_text),
            path: self.path(root.path),
            known_size: if self.sizes {
                root.known_size
            } else {
                None
            },
            ..root
        }
    }

    /// A directory entry by its common name. Its place among the others is
    /// all that is read of how its name is encoded.
    pub open spec fn entry(self, entry: EntryView) -> EntryView {
        EntryView {
            raw_name: Seq::empty(),
            name: portable_name(entry.name),
            path: self.path(entry.path),
        }
    }

    /// A line of a manifest by the common name of its text.
    pub open spec fn line(self, line: LineView) -> LineView {
        LineView { original_text: (self.texts)(line.original_text), ..line }
    }

    /// A pending line by its common names.
    pub open spec fn pending(self, line: PendingView) -> PendingView {
        PendingView {
            original_text: (self.texts)(line.original_text),
            file_path: self.path_inside(line.file_path),
            ..line
        }
    }

    /// A placed path by its common name.
    pub open spec fn placed(self, placed: PlacedView) -> PlacedView {
        PlacedView { path: self.path(placed.path), ..placed }
    }

    /// Roots by their common names.
    pub open spec fn roots(self, roots: Seq<RootView>) -> Seq<RootView> {
        roots.map_values(|root: RootView| self.root(root))
    }

    /// Directory entries by their common names.
    pub open spec fn entries(self, entries: Seq<EntryView>) -> Seq<EntryView> {
        entries.map_values(|entry: EntryView| self.entry(entry))
    }

    /// A listing by common names, in the order of the names on this device.
    pub open spec fn listing(self, entries: Seq<EntryView>) -> Seq<EntryView> {
        self.entries(stable_sort(entries, entry_order()))
    }

    /// The lines of a manifest by the common names of their texts.
    pub open spec fn lines(self, lines: Seq<LineView>) -> Seq<LineView> {
        lines.map_values(|line: LineView| self.line(line))
    }

    /// Pending lines by their common names.
    pub open spec fn all_pending(self, pending: Seq<PendingView>) -> Seq<PendingView> {
        pending.map_values(|line: PendingView| self.pending(line))
    }

    /// Placed paths by their common names.
    pub open spec fn queue(self, queue: Seq<PlacedView>) -> Seq<PlacedView> {
        queue.map_values(|placed: PlacedView| self.placed(placed))
    }

    /// The caps, where they count.
    pub open spec fn caps(self, caps: FileSetCaps) -> FileSetCaps {
        if self.sizes {
            caps
        } else {
            FileSetCaps { max_total_bytes: 0, max_member_count: 0 }
        }
    }

    /// The budget, without bytes where sizes do not count.
    pub open spec fn budget(self, budget: TraversalBudget) -> TraversalBudget {
        if self.sizes {
            budget
        } else {
            TraversalBudget { total_bytes: 0, ..budget }
        }
    }

    /// Progress by common names.
    pub open spec fn progress(self, p: ProgressView) -> ProgressView {
        ProgressView {
            caps: self.caps(p.caps),
            lines: self.lines(p.lines),
            roots: self.roots(p.roots),
            budget: self.budget(p.budget),
            pending: self.all_pending(p.pending),
            next_line: p.next_line,
        }
    }

    /// A walk by common names.
    pub open spec fn walk(self, walk: WalkView) -> WalkView {
        WalkView {
            root: self.root(walk.root),
            queue: self.queue(walk.queue),
            members: self.all_pending(walk.members),
        }
    }

    /// The state of an expansion by common names.
    pub open spec fn state(self, state: TraversalView) -> TraversalView {
        match state {
            TraversalView::Root { progress, root } => TraversalView::Root {
                progress: self.progress(progress),
                root: self.root(root),
            },
            TraversalView::Listing { progress, walk, directory } => TraversalView::Listing {
                progress: self.progress(progress),
                walk: self.walk(walk),
                directory: self.placed(directory),
            },
            TraversalView::Member { progress, walk, relative_directory, rest, member } =>
                TraversalView::Member {
                progress: self.progress(progress),
                walk: self.walk(walk),
                relative_directory,
                rest: self.entries(rest),
                member: self.placed(member),
            },
            TraversalView::Hashing { progress, line, path } => TraversalView::Hashing {
                progress: self.progress(progress),
                line: self.pending(line),
                path: self.path(path),
            },
            TraversalView::Finished { lines, failure } => TraversalView::Finished {
                lines: self.lines(lines),
                failure,
            },
        }
    }

    /// What is read of metadata, where there is some.
    pub open spec fn found(self, found: Option<FileMetadata>) -> Option<FileMetadata> {
        match found {
            Some(metadata) => Some(portable_metadata(self, metadata)),
            None => None,
        }
    }

    /// A listing by common names, where there is one.
    pub open spec fn listed(self, entries: Option<Seq<EntryView>>) -> Option<Seq<EntryView>> {
        match entries {
            Some(unsorted) => Some(self.listing(unsorted)),
            None => None,
        }
    }

    /// An answer by common names.
    pub open spec fn reply(self, reply: ReplyView) -> ReplyView {
        match reply {
            ReplyView::Inspected(found) => ReplyView::Inspected(self.found(found)),
            ReplyView::Listed(entries) => ReplyView::Listed(self.listed(entries)),
            ReplyView::Hashed(hash) => ReplyView::Hashed(hash),
        }
    }

    /// Answers by common names.
    pub open spec fn replies(self, replies: Seq<ReplyView>) -> Seq<ReplyView> {
        replies.map_values(|reply: ReplyView| self.reply(reply))
    }

    /// A selection by common names.
    pub open spec fn selection(self, given: Selection) -> Selection {
        Selection {
            roots: self.roots(given.roots),
            lines: self.lines(given.lines),
            top_level_count: given.top_level_count,
            caps: self.caps(given.caps),
        }
    }
}

/// The set was found too large.
pub open spec fn is_too_large(state: TraversalView) -> bool {
    state matches TraversalView::Finished { lines, failure }
        && failure == Some(ExpansionFailure::SizeCapExceeded)
}

proof fn lemma_name(name: Seq<char>)
    ensures
        nfc_form(some_text_of(nfc_form(name))) == nfc_form(name),
{
    assert(nfc_form(name) == nfc_form(name));
}

/// A path has the same last component under its common name.
pub proof fn lemma_basename(naming: Naming, path: PathView)
    ensures
        basename(naming.path(path)) == basename(path),
{
    if let Some(name) = path.file_name {
        lemma_name(name);
    }
}

proof fn lemma_flat_lines(naming: Naming, root: RootView, kind: FileSetMemberKind)
    ensures
        naming.root(root).as_flat(kind, None) == naming.pending(root.as_flat(kind, None)),
        naming.root(root).as_flat(kind, Some(naming.root(root).path)) == naming.pending(
            root.as_flat(kind, Some(root.path)),
        ),
{
    lemma_basename(naming, root.path);
}

proof fn lemma_kind(naming: Naming, found: FileMetadata)
    requires
        !found.symlink && !found.directory && found.regular,
    ensures
        kind_of_mode(portable_metadata(naming, found).mode) == kind_of_mode(found.mode),
{
    assert(0o111u32 & 0o111 != 0) by (bit_vector);
}

proof fn lemma_sorted(naming: Naming, lines: Seq<LineView>)
    ensures
        naming.lines(stable_sort(lines, line_order())) == stable_sort(
            naming.lines(lines),
            line_order(),
        ),
{
    sort_of_images(lines, line_order(), |line: LineView| naming.line(line), line_order());
}

proof fn lemma_unvisited(naming: Naming, roots: Seq<RootView>)
    ensures
        naming.all_pending(all_unvisited(roots)) == all_unvisited(naming.roots(roots)),
{
    assert forall|i: int| 0 <= i < roots.len() implies naming.all_pending(
        all_unvisited(roots),
    )[i] == all_unvisited(naming.roots(roots))[i] by {
        lemma_flat_lines(naming, roots[i], FileSetMemberKind::File);
    }
    assert(naming.all_pending(all_unvisited(roots)) =~= all_unvisited(naming.roots(roots)));
}

proof fn lemma_stopped(naming: Naming, p: ProgressView, failure: ExpansionFailure)
    ensures
        naming.state(p.stopped(failure)) == naming.progress(p).stopped(failure),
{
    let kind = excluded(failure);
    let all = p.lines + all_of_kind(p.pending + all_unvisited(p.roots), kind);
    let q = naming.progress(p);
    lemma_unvisited(naming, p.roots);
    let left = naming.all_pending(p.pending + all_unvisited(p.roots));
    assert(left =~= q.pending + all_unvisited(q.roots));
    assert(naming.lines(all) =~= q.lines + all_of_kind(left, kind));
    lemma_sorted(naming, all);
}

proof fn lemma_next_hash(naming: Naming, p: ProgressView)
    ensures
        naming.state(p.next_hash()) == naming.progress(p).next_hash(),
    decreases p.pending.len(),
{
    if p.pending.len() == 0 {
        lemma_sorted(naming, p.lines);
    } else {
        let line = p.pending[0];
        let rest = ProgressView { pending: p.pending.drop_first(), ..p };
        assert(naming.all_pending(rest.pending) =~= naming.all_pending(p.pending).drop_first());
        if line.file_path is None {
            let next = ProgressView {
                lines: p.lines.push(line.of_kind(EntryFileSetLineKind::NonFile)),
                ..rest
            };
            assert(naming.lines(next.lines) =~= naming.lines(p.lines).push(
                naming.pending(line).of_kind(EntryFileSetLineKind::NonFile),
            ));
            lemma_next_hash(naming, next);
        }
    }
}

proof fn lemma_next_root(naming: Naming, p: ProgressView)
    ensures
        naming.state(p.next_root()) == naming.progress(p).next_root(),
{
    if p.roots.len() == 0 {
        lemma_next_hash(naming, p);
    } else {
        assert(naming.roots(p.roots.drop_first()) =~= naming.roots(p.roots).drop_first());
    }
}

proof fn lemma_found(naming: Naming, p: ProgressView, line: PendingView)
    ensures
        naming.progress(p.found(line)) == naming.progress(p).found(naming.pending(line)),
{
    assert(naming.all_pending(p.pending.push(line)) =~= naming.all_pending(p.pending).push(
        naming.pending(line),
    ));
}

/// A size as it counts under a naming.
spec fn counted_size(naming: Naming, size_bytes: u64) -> u64 {
    if naming.sizes {
        size_bytes
    } else {
        0
    }
}

proof fn lemma_counted(naming: Naming, p: ProgressView, size_bytes: u64)
    ensures
        naming.progress(p.counted(size_bytes)) == naming.progress(p).counted(
            counted_size(naming, size_bytes),
        ),
        naming.sizes ==> (naming.progress(p.counted(size_bytes)).budget.exceeds(
            naming.caps(p.caps),
        ) <==> p.counted(size_bytes).budget.exceeds(p.caps)),
        !naming.sizes ==> !naming.progress(p.counted(size_bytes)).budget.exceeds(
            naming.caps(p.caps),
        ),
{
}

proof fn lemma_flat(naming: Naming, p: ProgressView, line: PendingView, size_bytes: u64)
    requires
        naming.sizes || !is_too_large(p.flat(line, size_bytes)),
    ensures
        naming.state(p.flat(line, size_bytes)) == naming.progress(p).flat(
            naming.pending(line),
            counted_size(naming, size_bytes),
        ),
{
    let next = p.counted(size_bytes).found(line);
    lemma_counted(naming, p, size_bytes);
    lemma_found(naming, p.counted(size_bytes), line);
    lemma_stopped(naming, next, ExpansionFailure::SizeCapExceeded);
    lemma_next_root(naming, next);
}

proof fn lemma_next_directory(naming: Naming, p: ProgressView, walk: WalkView)
    ensures
        naming.state(p.next_directory(walk)) == naming.progress(p).next_directory(
            naming.walk(walk),
        ),
{
    if walk.queue.len() == 0 {
        let next = ProgressView { pending: p.pending + walk.members, ..p };
        assert(naming.all_pending(p.pending + walk.members) =~= naming.all_pending(p.pending)
            + naming.all_pending(walk.members));
        lemma_next_root(naming, next);
    } else {
        assert(naming.queue(walk.queue.drop_first()) =~= naming.queue(walk.queue).drop_first());
    }
}

proof fn lemma_walk_failed(
    naming: Naming,
    p: ProgressView,
    walk: WalkView,
    relative_path: Seq<char>,
    failure: ExpansionFailure,
)
    ensures
        naming.state(p.walk_failed(walk, relative_path, failure)) == naming.progress(
            p,
        ).walk_failed(naming.walk(walk), relative_path, failure),
{
    let line = walk.root.directory_marker(p.next_line, relative_path);
    lemma_found(naming, p.line_taken(), line);
    lemma_stopped(naming, p.line_taken().found(line), failure);
}

proof fn lemma_next_entry(
    naming: Naming,
    p: ProgressView,
    walk: WalkView,
    relative_directory: Seq<char>,
    entries: Seq<EntryView>,
)
    ensures
        naming.state(p.next_entry(walk, relative_directory, entries)) == naming.progress(
            p,
        ).next_entry(naming.walk(walk), relative_directory, naming.entries(entries)),
{
    if entries.len() == 0 {
        lemma_next_directory(naming, p, walk);
    } else {
        lemma_walk_failed(naming, p, walk, relative_directory, ExpansionFailure::UnsupportedMember);
        assert(naming.entries(entries.drop_first()) =~= naming.entries(entries).drop_first());
        if let Some(name) = entries[0].name {
            lemma_name(name);
        }
    }
}

proof fn lemma_walk_found(naming: Naming, walk: WalkView, line: PendingView)
    ensures
        naming.walk(walk.found(line)) == naming.walk(walk).found(naming.pending(line)),
{
    assert(naming.all_pending(walk.members.push(line)) =~= naming.all_pending(walk.members).push(
        naming.pending(line),
    ));
}

proof fn lemma_empty_directory(
    naming: Naming,
    p: ProgressView,
    walk: WalkView,
    directory: PlacedView,
)
    requires
        naming.sizes || !is_too_large(p.listed(walk, directory, Some(seq![]))),
    ensures
        naming.state(p.listed(walk, directory, Some(seq![]))) == naming.progress(p).listed(
            naming.walk(walk),
            naming.placed(directory),
            Some(seq![]),
        ),
{
    let marker = walk.root.member(
        p.next_line,
        shown_path(directory.relative_path),
        FileSetMemberKind::EmptyDirectory,
        None,
    );
    let next = p.line_taken().counted(0);
    lemma_counted(naming, p.line_taken(), 0);
    lemma_found(naming, next, marker);
    lemma_stopped(naming, next.found(marker), ExpansionFailure::SizeCapExceeded);
    lemma_walk_found(naming, walk, marker);
    lemma_next_directory(naming, next, walk.found(marker));
}

proof fn lemma_listed(
    naming: Naming,
    p: ProgressView,
    walk: WalkView,
    directory: PlacedView,
    entries: Option<Seq<EntryView>>,
)
    requires
        naming.sizes || !is_too_large(p.listed(walk, directory, entries)),
    ensures
        naming.state(p.listed(walk, directory, entries)) == naming.progress(p).listed(
            naming.walk(walk),
            naming.placed(directory),
            naming.listed(entries),
        ),
{
    match entries {
        None => {
            lemma_walk_failed(
                naming,
                p,
                walk,
                directory.relative_path,
                ExpansionFailure::IngestFailed,
            );
        },
        Some(unsorted) => {
            let sorted = stable_sort(unsorted, entry_order());
            let named = naming.listing(unsorted);
            sort_keeps_members(unsorted, entry_order());
            if unsorted.len() == 0 {
                assert(unsorted =~= seq![]);
                assert(named =~= seq![]);
                lemma_empty_directory(naming, p, walk, directory);
            } else {
                sort_of_ties(named, entry_order());
                lemma_next_entry(naming, p, walk, directory.relative_path, sorted);
            }
        },
    }
}

proof fn lemma_member_inspected(
    naming: Naming,
    p: ProgressView,
    walk: WalkView,
    relative_directory: Seq<char>,
    rest: Seq<EntryView>,
    member: PlacedView,
    found: Option<FileMetadata>,
)
    requires
        naming.sizes || !is_too_large(
            p.member_inspected(walk, relative_directory, rest, member, found),
        ),
    ensures
        naming.state(p.member_inspected(walk, relative_directory, rest, member, found))
            == naming.progress(p).member_inspected(
            naming.walk(walk),
            relative_directory,
            naming.entries(rest),
            naming.placed(member),
            naming.found(found),
        ),
{
    lemma_walk_failed(naming, p, walk, member.relative_path, ExpansionFailure::IngestFailed);
    lemma_walk_failed(naming, p, walk, member.relative_path, ExpansionFailure::UnsupportedMember);
    if let Some(metadata) = found {
        if !metadata.symlink && metadata.directory {
            let longer = WalkView { queue: walk.queue.push(member), ..walk };
            assert(naming.queue(walk.queue.push(member)) =~= naming.queue(walk.queue).push(
                naming.placed(member),
            ));
            lemma_next_entry(naming, p, longer, relative_directory, rest);
        } else if !metadata.symlink && metadata.regular {
            let line = walk.root.member(
                p.next_line,
                member.relative_path,
                kind_of_mode(metadata.mode),
                Some(member.path),
            );
            let next = p.line_taken().counted(metadata.len);
            lemma_kind(naming, metadata);
            lemma_counted(naming, p.line_taken(), metadata.len);
            lemma_found(naming, next, line);
            lemma_stopped(naming, next.found(line), ExpansionFailure::SizeCapExceeded);
            lemma_walk_found(naming, walk, line);
            lemma_next_entry(naming, next, walk.found(line), relative_directory, rest);
        }
    }
}

proof fn lemma_root_inspected(
    naming: Naming,
    p: ProgressView,
    root: RootView,
    found: Option<FileMetadata>,
)
    requires
        naming.sizes || !is_too_large(p.root_inspected(root, found)),
    ensures
        naming.state(p.root_inspected(root, found)) == naming.progress(p).root_inspected(
            naming.root(root),
            naming.found(found),
        ),
{
    lemma_found(naming, p, root.marker(p.next_line));
    lemma_stopped(naming, p.found(root.marker(p.next_line)), ExpansionFailure::UnsupportedMember);
    match found {
        None => {
            let size = match root.known_size {
                Some(known) => known,
                None => 0,
            };
            lemma_flat_lines(naming, root, FileSetMemberKind::File);
            lemma_flat(naming, p, root.missing_file(), size);
        },
        Some(metadata) => {
            if !metadata.symlink && metadata.directory {
                let walk = WalkView::at(root);
                assert(naming.walk(walk) =~= WalkView::at(naming.root(root)));
                lemma_next_directory(naming, p, walk);
            } else if !metadata.symlink && metadata.regular {
                let size = match root.known_size {
                    Some(known) => known,
                    None => metadata.len,
                };
                lemma_kind(naming, metadata);
                lemma_flat_lines(naming, root, kind_of_mode(metadata.mode));
                lemma_flat(naming, p, root.flat_file(metadata), size);
            }
        },
    }
}

/// One answer takes an expansion and its counterpart by common names to
/// states that again are counterparts. Where sizes do not count, the set must
/// fit its caps.
pub proof fn steps_are_portable(naming: Naming, state: TraversalView, reply: ReplyView)
    requires
        naming.sizes || !is_too_large(state.step(reply)),
    ensures
        naming.state(state.step(reply)) == naming.state(state).step(naming.reply(reply)),
{
    match (state, reply) {
        (TraversalView::Root { progress, root }, ReplyView::Inspected(found)) => {
            lemma_root_inspected(naming, progress, root, found);
        },
        (TraversalView::Listing { progress, walk, directory }, ReplyView::Listed(entries)) => {
            lemma_listed(naming, progress, walk, directory, entries);
        },
        (
            TraversalView::Member { progress, walk, relative_directory, rest, member },
            ReplyView::Inspected(found),
        ) => {
            lemma_member_inspected(naming, progress, walk, relative_directory, rest, member, found);
        },
        (TraversalView::Hashing { progress, line, path }, ReplyView::Hashed(hash)) => {
            let finished = line.of_kind(kind_of_hash(hash, false));
            let next = ProgressView { lines: progress.lines.push(finished), ..progress };
            assert(naming.lines(next.lines) =~= naming.lines(progress.lines).push(
                naming.line(finished),
            ));
            lemma_next_hash(naming, next);
        },
        _ => {},
    }
}

/// An expansion that has not begun and its counterpart.
pub proof fn starts_are_portable(naming: Naming, given: Selection)
    requires
        naming.sizes || !is_too_large(given.expanded(seq![])),
    ensures
        naming.state(given.expanded(seq![])) == naming.selection(given).expanded(seq![]),
{
    let progress = ProgressView {
        caps: given.caps,
        lines: given.lines,
        roots: given.roots,
        budget: TraversalBudget::unused(),
        pending: seq![],
        next_line: given.top_level_count,
    };
    assert(naming.all_pending(seq![]) =~= Seq::<PendingView>::empty());
    lemma_stopped(naming, progress, ExpansionFailure::SizeCapExceeded);
    lemma_next_root(naming, progress);
}

/// An expansion and its counterpart stay counterparts.
proof fn lemma_expanded(naming: Naming, given: Selection, replies: Seq<ReplyView>)
    requires
        naming.sizes || !is_too_large(given.expanded(replies)),
    ensures
        naming.state(given.expanded(replies)) == naming.selection(given).expanded(
            naming.replies(replies),
        ),
    decreases replies.len(),
{
    if replies.len() == 0 {
        assert(replies =~= seq![]);
        assert(naming.replies(replies) =~= Seq::<ReplyView>::empty());
        starts_are_portable(naming, given);
    } else {
        let before = replies.drop_last();
        lemma_expanded(naming, given, before);
        steps_are_portable(naming, given.expanded(before), replies.last());
        assert(naming.replies(replies).drop_last() =~= naming.replies(before));
        assert(naming.replies(replies).last() == naming.reply(replies.last()));
    }
}

/// Two devices that were given the same by common names, and whose answers are
/// the same by common names, get the same lines but for the texts by which
/// their clipboards named the files. Sizes and caps may differ where both sets
/// fit their caps.
pub proof fn expansions_are_device_independent(
    naming_here: Naming,
    naming_there: Naming,
    here: Selection,
    there: Selection,
    replies_here: Seq<ReplyView>,
    replies_there: Seq<ReplyView>,
)
    requires
        naming_here.sizes == naming_there.sizes,
        naming_here.sizes || !is_too_large(here.expanded(replies_here)) && !is_too_large(
            there.expanded(replies_there),
        ),
        naming_here.selection(here) == naming_there.selection(there),
        naming_here.replies(replies_here) == naming_there.replies(replies_there),
    ensures
        naming_here.state(here.expanded(replies_here)) == naming_there.state(
            there.expanded(replies_there),
        ),
{
    lemma_expanded(naming_here, here, replies_here);
    lemma_expanded(naming_there, there, replies_there);
}

/// A directory entry by the common name of its path, with its own name as it
/// is.
pub open spec fn named_entry(naming: Naming, entry: EntryView) -> EntryView {
    EntryView { path: naming.path(entry.path), ..entry }
}

/// Directory entries by the common names of their paths.
pub open spec fn named_entries(naming: Naming, entries: Seq<EntryView>) -> Seq<EntryView> {
    entries.map_values(|entry: EntryView| named_entry(naming, entry))
}

proof fn lemma_listing_of_named(naming: Naming, entries: Seq<EntryView>)
    ensures
        naming.listing(entries) == stable_sort(
            named_entries(naming, entries),
            entry_order(),
        ).map_values(
            |entry: EntryView| EntryView {
                raw_name: Seq::empty(),
                name: portable_name(entry.name),
                path: entry.path,
            },
        ),
{
    sort_of_images(
        entries,
        entry_order(),
        |entry: EntryView| named_entry(naming, entry),
        entry_order(),
    );
    let strip = |entry: EntryView| EntryView {
        raw_name: Seq::empty(),
        name: portable_name(entry.name),
        path: entry.path,
    };
    let sorted = stable_sort(entries, entry_order());
    assert(named_entries(naming, sorted) == stable_sort(
        named_entries(naming, entries),
        entry_order(),
    ));
    assert(naming.listing(entries) =~= named_entries(naming, sorted).map_values(strip));
}

/// The order in which a host lists a directory does not matter: listings of
/// the same entries are the same by common names.
pub proof fn listings_agree_up_to_order(
    naming_here: Naming,
    naming_there: Naming,
    here: Seq<EntryView>,
    there: Seq<EntryView>,
)
    requires
        has_distinct_names(here),
        named_entries(naming_here, here).to_multiset() == named_entries(
            naming_there,
            there,
        ).to_multiset(),
    ensures
        naming_here.listing(here) == naming_there.listing(there),
{
    let named = named_entries(naming_here, here);
    assert(has_distinct_names(named)) by {
        assert forall|i: int, j: int|
            0 <= i < named.len() && 0 <= j < named.len() && (#[trigger] named[i]).raw_name == (
            #[trigger] named[j]).raw_name implies i == j by {
            assert(here[i].raw_name == here[j].raw_name);
        }
    }
    entry_order_is_ranking();
    entry_order_tells_apart(named);
    sort_forgets_the_order(named, named_entries(naming_there, there), entry_order());
    lemma_listing_of_named(naming_here, here);
    lemma_listing_of_named(naming_there, there);
}

} // verus!

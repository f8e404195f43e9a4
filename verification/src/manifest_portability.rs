//! What the manifest of a snapshot says does not depend on where the copied
//! files lie.

use crate::clipboard::ObservedClipboardRepresentation;
use crate::file_set::{
    EntryFileSetExcludeReason, EntryFileSetLineKind, ExpansionFailure, FileSetCaps, LineView,
    PendingView, RootView, TraversalBudget, kind_of_hash, line_index_after, line_order,
};
use crate::files::{
    EntryView, FileSetMemberKind, PathView, basename, entry_order, kind_of_mode, shown_path,
};
use crate::manifest::{
    ManifestReplyView, ManifestView, ReadingView, expanding, first_listing, local_roots,
};
use crate::manifest_laws::manifest_after;
use crate::portability::{
    Naming, is_too_large, lemma_basename, starts_are_portable, steps_are_portable,
};
use crate::sorting::{sort_contains, stable_sort};
use crate::text::lines_of;
use crate::traversal::{
    ProgressView, ReplyView, TraversalView, WalkView, all_of_kind, all_unvisited, excluded,
};
use crate::traversal_laws::Selection;
use vstd::prelude::*;

verus! {

impl Naming {
    /// Texts by their common names.
    pub open spec fn all_texts(self, texts: Seq<Seq<char>>) -> Seq<Seq<char>> {
        texts.map_values(|text: Seq<char>| (self.texts)(text))
    }

    /// A reading by common names.
    pub open spec fn reading(self, reading: ReadingView) -> ReadingView {
        ReadingView {
            caps: self.caps(reading.caps),
            rest: self.all_texts(reading.rest),
            roots: self.roots(reading.roots),
            others: self.lines(reading.others),
            ..reading
        }
    }

    /// The making of a manifest by common names.
    pub open spec fn manifest(self, state: ManifestView) -> ManifestView {
        match state {
            ManifestView::Reading { reading, line } => ManifestView::Reading {
                reading: self.reading(reading),
                line: (self.texts)(line),
            },
            ManifestView::Expanding { traversal } => ManifestView::Expanding {
                traversal: self.state(traversal),
            },
            ManifestView::Finished { file_set: Some(lines) } => ManifestView::Finished {
                file_set: Some(self.lines(lines)),
            },
            ManifestView::Finished { file_set: None } => ManifestView::Finished { file_set: None },
        }
    }

    /// An answer by common names.
    pub open spec fn answer(self, reply: ManifestReplyView) -> ManifestReplyView {
        match reply {
            ManifestReplyView::Classified(named) => ManifestReplyView::Classified(
                self.path_inside(named),
            ),
            ManifestReplyView::Traversed(answer) => ManifestReplyView::Traversed(
                self.reply(answer),
            ),
        }
    }

    /// Answers by common names.
    pub open spec fn answers(self, replies: Seq<ManifestReplyView>) -> Seq<ManifestReplyView> {
        replies.map_values(|reply: ManifestReplyView| self.answer(reply))
    }
}

/// A line that says that its set is too large.
pub open spec fn is_oversized(line: LineView) -> bool {
    line.kind == (EntryFileSetLineKind::Excluded {
        reason: EntryFileSetExcludeReason::SizeCapExceeded,
    })
}

/// Some line says that its set is too large.
pub open spec fn has_oversized(lines: Seq<LineView>) -> bool {
    exists|m: int| 0 <= m < lines.len() && is_oversized(#[trigger] lines[m])
}

/// The manifest is that of a set that is too large.
pub open spec fn says_too_large(state: ManifestView) -> bool {
    state matches ManifestView::Finished { file_set: Some(lines) } && has_oversized(lines)
}

/// Two snapshots carry the same by common names: the same copied files in the
/// same order or, where there are none, the same lines of a listing.
pub open spec fn carry_alike(
    naming_here: Naming,
    here: Seq<ObservedClipboardRepresentation>,
    naming_there: Naming,
    there: Seq<ObservedClipboardRepresentation>,
) -> bool {
    &&& naming_here.roots(local_roots(here, 0)) == naming_there.roots(local_roots(there, 0))
    &&& local_roots(here, 0).len() == 0 ==> match (first_listing(here), first_listing(there)) {
        (Some(a), Some(b)) => naming_here.all_texts(lines_of(a)) == naming_there.all_texts(
            lines_of(b),
        ),
        (None, None) => true,
        _ => false,
    }
}

/// Two manifests say the same: their lines agree one for one in everything
/// but the text by which the clipboard named the file.
pub open spec fn say_the_same(here: Seq<LineView>, there: Seq<LineView>) -> bool {
    &&& here.len() == there.len()
    &&& forall|m: int|
        #![trigger here[m]]
        #![trigger there[m]]
        0 <= m < here.len() ==> here[m].line_index == there[m].line_index
            && here[m].member_location == there[m].member_location && here[m].kind
            == there[m].kind
}

/// Both makings are finished, and without a manifest or with manifests that
/// say the same; or neither is finished.
pub open spec fn come_to_the_same(here: ManifestView, there: ManifestView) -> bool {
    match (here, there) {
        (
            ManifestView::Finished { file_set: Some(lines_here) },
            ManifestView::Finished { file_set: Some(lines_there) },
        ) => say_the_same(lines_here, lines_there),
        (ManifestView::Finished { file_set: None }, ManifestView::Finished { file_set: None }) =>
            true,
        _ => here !is Finished && there !is Finished,
    }
}

proof fn lemma_stopped_oversized(p: ProgressView)
    requires
        p.pending.len() > 0 || p.roots.len() > 0,
    ensures
        has_oversized(p.stopped(ExpansionFailure::SizeCapExceeded)->lines),
{
    let kind = excluded(ExpansionFailure::SizeCapExceeded);
    let left = all_of_kind(p.pending + all_unvisited(p.roots), kind);
    let all = p.lines + left;
    let at = p.lines.len() as int;
    assert(all[at] == left[0]);
    assert(all.contains(left[0]));
    sort_contains(all, line_order(), left[0]);
    let lines = p.stopped(ExpansionFailure::SizeCapExceeded)->lines;
    let m = choose|m: int| 0 <= m < lines.len() && lines[m] == left[0];
    assert(is_oversized(lines[m]));
}

proof fn lemma_not_too_large(p: ProgressView)
    ensures
        !is_too_large(p.next_hash()),
        !is_too_large(p.next_root()),
    decreases p.pending.len(),
{
    if p.pending.len() > 0 && p.pending[0].file_path is None {
        lemma_not_too_large(
            ProgressView {
                lines: p.lines.push(p.pending[0].of_kind(EntryFileSetLineKind::NonFile)),
                pending: p.pending.drop_first(),
                ..p
            },
        );
    }
}

proof fn lemma_walk_not_too_large(
    p: ProgressView,
    walk: WalkView,
    relative_directory: Seq<char>,
    entries: Seq<EntryView>,
)
    ensures
        !is_too_large(p.next_directory(walk)),
        !is_too_large(p.next_entry(walk, relative_directory, entries)),
{
    lemma_not_too_large(ProgressView { pending: p.pending + walk.members, ..p });
}

proof fn lemma_flat_oversized(
    p: ProgressView,
    line: PendingView,
    size_bytes: u64,
)
    ensures
        is_too_large(p.flat(line, size_bytes)) ==> has_oversized(p.flat(line, size_bytes)->lines),
{
    let next = p.counted(size_bytes).found(line);
    lemma_stopped_oversized(next);
    lemma_not_too_large(next);
}

/// An expansion that ends with a set too large says so in its lines.
pub proof fn lemma_step_oversized(state: TraversalView, reply: ReplyView)
    requires
        state !is Finished,
        is_too_large(state.step(reply)),
    ensures
        has_oversized(state.step(reply)->lines),
{
    match (state, reply) {
        (TraversalView::Root { progress, root }, ReplyView::Inspected(found)) => {
            match found {
                None => {
                    lemma_flat_oversized(
                        progress,
                        root.missing_file(),
                        match root.known_size {
                            Some(size) => size,
                            None => 0,
                        },
                    );
                },
                Some(metadata) => {
                    lemma_walk_not_too_large(
                        progress,
                        WalkView::at(root),
                        Seq::empty(),
                        Seq::empty(),
                    );
                    lemma_flat_oversized(
                        progress,
                        root.flat_file(metadata),
                        match root.known_size {
                            Some(size) => size,
                            None => metadata.len,
                        },
                    );
                },
            }
        },
        (TraversalView::Listing { progress, walk, directory }, ReplyView::Listed(Some(entries))) => {
            let next = progress.line_taken().counted(0);
            let marker = walk.root.member(
                progress.next_line,
                shown_path(directory.relative_path),
                FileSetMemberKind::EmptyDirectory,
                None,
            );
            lemma_stopped_oversized(next.found(marker));
            lemma_walk_not_too_large(next, walk.found(marker), Seq::empty(), Seq::empty());
            lemma_walk_not_too_large(
                progress,
                walk,
                directory.relative_path,
                stable_sort(entries, entry_order()),
            );
        },
        (
            TraversalView::Member { progress, walk, relative_directory, rest, member },
            ReplyView::Inspected(Some(metadata)),
        ) => {
            let next = progress.line_taken().counted(metadata.len);
            let line = walk.root.member(
                progress.next_line,
                member.relative_path,
                kind_of_mode(metadata.mode),
                Some(member.path),
            );
            lemma_stopped_oversized(next.found(line));
            lemma_walk_not_too_large(next, walk.found(line), relative_directory, rest);
            lemma_walk_not_too_large(
                progress,
                WalkView { queue: walk.queue.push(member), ..walk },
                relative_directory,
                rest,
            );
        },
        (TraversalView::Hashing { progress, line, path }, ReplyView::Hashed(hash)) => {
            lemma_not_too_large(
                ProgressView {
                    lines: progress.lines.push(
                        line.of_kind(kind_of_hash(hash, false)),
                    ),
                    ..progress
                },
            );
        },
        _ => {},
    }
}

/// So does one that ends before it has begun.
pub proof fn lemma_started_oversized(given: Selection)
    requires
        is_too_large(given.expanded(seq![])),
    ensures
        has_oversized(given.expanded(seq![])->lines),
{
    let progress = ProgressView {
        caps: given.caps,
        lines: given.lines,
        roots: given.roots,
        budget: TraversalBudget::unused(),
        pending: seq![],
        next_line: given.top_level_count,
    };
    lemma_not_too_large(progress);
    if given.roots.len() > 0 {
        lemma_stopped_oversized(progress);
    }
}

proof fn lemma_started(naming: Naming, given: Selection)
    requires
        naming.sizes || !says_too_large(expanding(given.expanded(seq![]))),
    ensures
        naming.manifest(expanding(given.expanded(seq![]))) == expanding(
            naming.selection(given).expanded(seq![]),
        ),
{
    if is_too_large(given.expanded(seq![])) {
        lemma_started_oversized(given);
    }
    starts_are_portable(naming, given);
}

/// The expansion of what was read.
spec fn selected(reading: ReadingView) -> Selection {
    Selection {
        roots: reading.roots,
        lines: reading.others,
        top_level_count: reading.top_level_count,
        caps: reading.caps,
    }
}

proof fn lemma_next_line(naming: Naming, reading: ReadingView)
    requires
        naming.sizes || !says_too_large(reading.next_line()),
    ensures
        naming.manifest(reading.next_line()) == naming.reading(reading).next_line(),
{
    if reading.rest.len() == 0 {
        lemma_started(naming, selected(reading));
        assert(naming.selection(selected(reading)) == selected(naming.reading(reading)));
    } else {
        assert(naming.all_texts(reading.rest).drop_first() =~= naming.all_texts(
            reading.rest.drop_first(),
        ));
    }
}

proof fn lemma_classified(
    naming: Naming,
    reading: ReadingView,
    line: Seq<char>,
    named: Option<PathView>,
)
    requires
        naming.sizes || !says_too_large(reading.classified(line, named)),
    ensures
        naming.manifest(reading.classified(line, named)) == naming.reading(reading).classified(
            (naming.texts)(line),
            naming.path_inside(named),
        ),
{
    match named {
        Some(path) => {
            let root = RootView {
                line_index: reading.line_index,
                root_index: reading.root_index,
                original_text: line,
                root_name: basename(path),
                path,
                known_size: None,
            };
            let next = ReadingView {
                line_index: line_index_after(reading.line_index),
                root_index: line_index_after(reading.root_index),
                roots: reading.roots.push(root),
                ..reading
            };
            lemma_basename(naming, path);
            assert(naming.roots(next.roots) =~= naming.roots(reading.roots).push(
                naming.root(root),
            ));
            lemma_next_line(naming, next);
        },
        None => {
            let other = LineView {
                line_index: reading.line_index,
                original_text: line,
                member_location: None,
                kind: EntryFileSetLineKind::NonFile,
            };
            let next = ReadingView {
                line_index: line_index_after(reading.line_index),
                others: reading.others.push(other),
                ..reading
            };
            assert(naming.lines(next.others) =~= naming.lines(reading.others).push(
                naming.line(other),
            ));
            lemma_next_line(naming, next);
        },
    }
}

/// An expansion under way is not finished.
pub open spec fn is_under_way(state: ManifestView) -> bool {
    state matches ManifestView::Expanding { traversal } ==> traversal !is Finished
}

/// The making of a manifest holds no finished expansion.
pub proof fn lemma_under_way(
    representations: Seq<ObservedClipboardRepresentation>,
    caps: FileSetCaps,
    replies: Seq<ManifestReplyView>,
)
    ensures
        is_under_way(manifest_after(representations, caps, replies)),
    decreases replies.len(),
{
    if replies.len() > 0 {
        lemma_under_way(representations, caps, replies.drop_last());
    }
}

proof fn lemma_step(naming: Naming, state: ManifestView, reply: ManifestReplyView)
    requires
        is_under_way(state),
        naming.sizes || !says_too_large(state.step(reply)),
    ensures
        naming.manifest(state.step(reply)) == naming.manifest(state).step(naming.answer(reply)),
{
    match (state, reply) {
        (ManifestView::Reading { reading, line }, ManifestReplyView::Classified(named)) => {
            lemma_classified(naming, reading, line, named);
        },
        (ManifestView::Expanding { traversal }, ManifestReplyView::Traversed(answer)) => {
            if is_too_large(traversal.step(answer)) {
                lemma_step_oversized(traversal, answer);
            }
            steps_are_portable(naming, traversal, answer);
        },
        _ => {},
    }
}

proof fn lemma_begun(
    naming_here: Naming,
    naming_there: Naming,
    here: Seq<ObservedClipboardRepresentation>,
    there: Seq<ObservedClipboardRepresentation>,
    caps_here: FileSetCaps,
    caps_there: FileSetCaps,
)
    requires
        naming_here.sizes == naming_there.sizes,
        naming_here.caps(caps_here) == naming_there.caps(caps_there),
        carry_alike(naming_here, here, naming_there, there),
        naming_here.sizes || !says_too_large(ManifestView::started(here, caps_here))
            && !says_too_large(ManifestView::started(there, caps_there)),
    ensures
        naming_here.manifest(ManifestView::started(here, caps_here)) == naming_there.manifest(
            ManifestView::started(there, caps_there),
        ),
{
    let roots_here = local_roots(here, 0);
    let roots_there = local_roots(there, 0);
    assert(naming_here.roots(roots_here).len() == roots_here.len());
    assert(naming_there.roots(roots_there).len() == roots_there.len());
    assert(naming_here.lines(seq![]) =~= Seq::<LineView>::empty());
    assert(naming_there.lines(seq![]) =~= Seq::<LineView>::empty());
    if roots_here.len() > 0 {
        let given_here = Selection {
            roots: roots_here,
            lines: seq![],
            top_level_count: roots_here.len() as i64,
            caps: caps_here,
        };
        let given_there = Selection { roots: roots_there, caps: caps_there, ..given_here };
        lemma_started(naming_here, given_here);
        lemma_started(naming_there, given_there);
    } else if let (Some(a), Some(b)) = (first_listing(here), first_listing(there)) {
        assert(naming_here.all_texts(lines_of(a)).len() == lines_of(a).len());
        assert(naming_there.all_texts(lines_of(b)).len() == lines_of(b).len());
        assert(naming_here.roots(seq![]) =~= Seq::<RootView>::empty());
        assert(naming_there.roots(seq![]) =~= Seq::<RootView>::empty());
        let reading_here = ReadingView {
            caps: caps_here,
            rest: lines_of(a),
            line_index: 0,
            root_index: 0,
            roots: seq![],
            others: seq![],
            top_level_count: lines_of(a).len() as i64,
        };
        let reading_there = ReadingView {
            caps: caps_there,
            rest: lines_of(b),
            ..reading_here
        };
        lemma_next_line(naming_here, reading_here);
        lemma_next_line(naming_there, reading_there);
    }
}

proof fn lemma_come_to_the_same(
    naming_here: Naming,
    naming_there: Naming,
    here: ManifestView,
    there: ManifestView,
)
    requires
        naming_here.manifest(here) == naming_there.manifest(there),
    ensures
        come_to_the_same(here, there),
{
    if let (
        ManifestView::Finished { file_set: Some(lines_here) },
        ManifestView::Finished { file_set: Some(lines_there) },
    ) = (here, there) {
        let named_here = naming_here.lines(lines_here);
        let named_there = naming_there.lines(lines_there);
        assert(named_here == named_there);
        assert(named_here.len() == lines_here.len() && named_there.len() == lines_there.len());
        assert forall|m: int|
            #![trigger lines_here[m]]
            #![trigger lines_there[m]]
            0 <= m < lines_here.len() implies lines_here[m].line_index
            == lines_there[m].line_index && lines_here[m].member_location
            == lines_there[m].member_location && lines_here[m].kind == lines_there[m].kind by {
            assert(named_here[m] == naming_here.line(lines_here[m]));
            assert(named_there[m] == naming_there.line(lines_there[m]));
        }
    }
}

/// Two devices whose snapshots carry the same by common names, and whose hosts
/// answer the same by common names, make manifests that say the same. Sizes
/// and caps may differ where neither manifest says that its set is too large.
pub proof fn manifests_are_device_independent(
    naming_here: Naming,
    naming_there: Naming,
    here: Seq<ObservedClipboardRepresentation>,
    there: Seq<ObservedClipboardRepresentation>,
    caps_here: FileSetCaps,
    caps_there: FileSetCaps,
    replies_here: Seq<ManifestReplyView>,
    replies_there: Seq<ManifestReplyView>,
)
    requires
        naming_here.sizes == naming_there.sizes,
        naming_here.caps(caps_here) == naming_there.caps(caps_there),
        carry_alike(naming_here, here, naming_there, there),
        naming_here.answers(replies_here) == naming_there.answers(replies_there),
        naming_here.sizes || !says_too_large(manifest_after(here, caps_here, replies_here))
            && !says_too_large(manifest_after(there, caps_there, replies_there)),
    ensures
        naming_here.manifest(manifest_after(here, caps_here, replies_here))
            == naming_there.manifest(manifest_after(there, caps_there, replies_there)),
        come_to_the_same(
            manifest_after(here, caps_here, replies_here),
            manifest_after(there, caps_there, replies_there),
        ),
    decreases replies_here.len(),
{
    assert(naming_here.answers(replies_here).len() == replies_here.len());
    assert(naming_there.answers(replies_there).len() == replies_there.len());
    if replies_here.len() == 0 {
        lemma_begun(naming_here, naming_there, here, there, caps_here, caps_there);
    } else {
        let (before_here, before_there) = (replies_here.drop_last(), replies_there.drop_last());
        let last = replies_here.len() - 1;
        assert(naming_here.answers(replies_here)[last] == naming_here.answer(replies_here.last()));
        assert(naming_there.answers(replies_there)[last] == naming_there.answer(
            replies_there.last(),
        ));
        assert(naming_here.answers(before_here) =~= naming_here.answers(replies_here).drop_last());
        assert(naming_there.answers(before_there) =~= naming_there.answers(
            replies_there,
        ).drop_last());
        manifests_are_device_independent(
            naming_here,
            naming_there,
            here,
            there,
            caps_here,
            caps_there,
            before_here,
            before_there,
        );
        lemma_under_way(here, caps_here, before_here);
        lemma_under_way(there, caps_there, before_there);
        lemma_step(naming_here, manifest_after(here, caps_here, before_here), replies_here.last());
        lemma_step(
            naming_there,
            manifest_after(there, caps_there, before_there),
            replies_there.last(),
        );
    }
    lemma_come_to_the_same(
        naming_here,
        naming_there,
        manifest_after(here, caps_here, replies_here),
        manifest_after(there, caps_there, replies_there),
    );
}

} // verus!

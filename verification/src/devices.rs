//! Two devices that hold the same files make the same manifest.

use crate::clipboard::ObservedClipboardRepresentation;
use crate::file_set::{
    ContentHash, EntryFileSetLineKind, FileSetCaps, LineView, LocationView, PendingView, RootView,
    TraversalBudget, kind_of_hash, line_index_after, line_order,
};
use crate::files::{
    EntryView, FileMetadata, FileSetMemberKind, PathView, basename, entry_order, kind_of_mode,
    shown_path,
};
use crate::manifest::{
    ManifestReplyView, ManifestView, ReadingView, expanding, first_listing, local_roots,
};
use crate::manifest_laws::manifest_after;
use crate::manifest_portability::{
    carry_alike, come_to_the_same, is_under_way, lemma_started_oversized, lemma_step_oversized,
    lemma_under_way, manifests_are_device_independent, says_too_large,
};
use crate::portability::{Naming, is_too_large, lemma_basename, portable_name};
use crate::sorting::{sort_keeps_members, sort_of_ties, stable_sort};
use crate::text::lines_of;
use crate::traversal::{PlacedView, ProgressView, ReplyView, TraversalView, WalkView};
use crate::traversal_caps::is_plain_file;
use crate::traversal_laws::Selection;
use crate::unicode::nfc_form;
use vstd::prelude::*;

verus! {

/// A device, by what its host answers.
pub struct Device {
    /// The file that a line of a listing names, if it names one.
    pub classify: spec_fn(Seq<char>) -> Option<PathView>,
    /// What stands at a path.
    pub inspect: spec_fn(PathView) -> Option<FileMetadata>,
    /// What a directory holds.
    pub list: spec_fn(PathView) -> Option<Seq<EntryView>>,
    /// What a file hashes to.
    pub hash: spec_fn(PathView) -> Option<ContentHash>,
}

impl Device {
    /// The answer to what an expansion waits for.
    pub open spec fn reply(self, state: TraversalView) -> ReplyView {
        match state {
            TraversalView::Root { progress, root } => ReplyView::Inspected(
                (self.inspect)(root.path),
            ),
            TraversalView::Listing { progress, walk, directory } => ReplyView::Listed(
                (self.list)(directory.path),
            ),
            TraversalView::Member { progress, walk, relative_directory, rest, member } =>
                ReplyView::Inspected((self.inspect)(member.path)),
            TraversalView::Hashing { progress, line, path } => ReplyView::Hashed(
                (self.hash)(path),
            ),
            TraversalView::Finished { lines, failure } => ReplyView::Hashed(None),
        }
    }

    /// The answer to what the making of a manifest waits for.
    pub open spec fn answer(self, state: ManifestView) -> ManifestReplyView {
        match state {
            ManifestView::Reading { reading, line } => ManifestReplyView::Classified(
                (self.classify)(line),
            ),
            ManifestView::Expanding { traversal } => ManifestReplyView::Traversed(
                self.reply(traversal),
            ),
            ManifestView::Finished { file_set } => ManifestReplyView::Classified(None),
        }
    }

    /// The first `count` answers in the making of a manifest.
    pub open spec fn answers(
        self,
        representations: Seq<ObservedClipboardRepresentation>,
        caps: FileSetCaps,
        count: nat,
    ) -> Seq<ManifestReplyView>
        decreases count,
    {
        if count == 0 {
            seq![]
        } else {
            let before = self.answers(representations, caps, (count - 1) as nat);
            before.push(self.answer(manifest_after(representations, caps, before)))
        }
    }

    /// The making of a manifest on this device, after `count` answers.
    pub open spec fn making(
        self,
        representations: Seq<ObservedClipboardRepresentation>,
        caps: FileSetCaps,
        count: nat,
    ) -> ManifestView {
        manifest_after(representations, caps, self.answers(representations, caps, count))
    }
}

/// Which paths and texts of two devices stand for the same.
pub struct Link {
    pub paths: spec_fn(PathView, PathView) -> bool,
    pub texts: spec_fn(Seq<char>, Seq<char>) -> bool,
}

/// Paths and texts without any of what tells places apart.
pub open spec fn bare(sizes: bool) -> Naming {
    Naming { places: |path: PathView| Seq::empty(), texts: |text: Seq<char>| Seq::empty(), sizes }
}

/// Something with content stands at the path, or nothing that can be looked
/// at: its content is asked for.
pub open spec fn may_hold_content(device: Device, path: PathView) -> bool {
    match (device.inspect)(path) {
        Some(found) => is_plain_file(found),
        None => true,
    }
}

/// A directory stands at the path.
pub open spec fn holds_directory(device: Device, path: PathView) -> bool {
    (device.inspect)(path) matches Some(found) && !found.symlink && found.directory
}

/// Entries stand for the same, one for one: their names have one normal form,
/// and their paths stand for the same.
pub open spec fn entries_linked(link: Link, here: Seq<EntryView>, there: Seq<EntryView>) -> bool {
    &&& here.len() == there.len()
    &&& forall|i: int|
        #![trigger here[i]]
        #![trigger there[i]]
        0 <= i < here.len() ==> portable_name(here[i].name) == portable_name(there[i].name)
            && (link.paths)(here[i].path, there[i].path)
}

/// What is read of two paths is the same: the normal form of the name, what
/// stands there, whether it may be executed, its size where sizes count, its
/// digest, and of a directory its entries in the order of their names.
pub open spec fn hold_alike(
    sizes: bool,
    link: Link,
    here: Device,
    there: Device,
    path_here: PathView,
    path_there: PathView,
) -> bool {
    &&& portable_name(path_here.file_name) == portable_name(path_there.file_name)
    &&& bare(sizes).found((here.inspect)(path_here)) == bare(sizes).found(
        (there.inspect)(path_there),
    )
    &&& may_hold_content(here, path_here) ==> (here.hash)(path_here) == (there.hash)(path_there)
    &&& holds_directory(here, path_here) ==> match (
        (here.list)(path_here),
        (there.list)(path_there),
    ) {
        (Some(a), Some(b)) => entries_linked(
            link,
            stable_sort(a, entry_order()),
            stable_sort(b, entry_order()),
        ),
        (None, None) => true,
        _ => false,
    }
}

/// Two devices hold the same files: lines that stand for the same name paths
/// that do, or no files, and at paths that stand for the same both hold alike.
pub open spec fn hold_the_same(sizes: bool, link: Link, here: Device, there: Device) -> bool {
    &&& forall|a: Seq<char>, b: Seq<char>|
        #![trigger (link.texts)(a, b)]
        (link.texts)(a, b) ==> match ((here.classify)(a), (there.classify)(b)) {
            (Some(p), Some(q)) => (link.paths)(p, q),
            (None, None) => true,
            _ => false,
        }
    &&& forall|p: PathView, q: PathView|
        #![trigger (link.paths)(p, q)]
        (link.paths)(p, q) ==> hold_alike(sizes, link, here, there, p, q)
}

/// The same was copied on both devices: files at paths that stand for the
/// same, in the same order, or lines of a listing that do.
pub open spec fn copy_the_same(
    sizes: bool,
    link: Link,
    here: Seq<ObservedClipboardRepresentation>,
    there: Seq<ObservedClipboardRepresentation>,
) -> bool {
    let roots_here = local_roots(here, 0);
    let roots_there = local_roots(there, 0);
    &&& roots_here.len() == roots_there.len()
    &&& forall|i: int|
        #![trigger roots_here[i]]
        #![trigger roots_there[i]]
        0 <= i < roots_here.len() ==> (link.paths)(roots_here[i].path, roots_there[i].path) && (
        sizes ==> roots_here[i].known_size == roots_there[i].known_size)
    &&& roots_here.len() == 0 ==> match (first_listing(here), first_listing(there)) {
        (Some(a), Some(b)) => texts_linked(link, lines_of(a), lines_of(b)),
        (None, None) => true,
        _ => false,
    }
}

/// Texts stand for the same, one for one.
pub open spec fn texts_linked(link: Link, here: Seq<Seq<char>>, there: Seq<Seq<char>>) -> bool {
    &&& here.len() == there.len()
    &&& forall|i: int|
        #![trigger here[i]]
        #![trigger there[i]]
        0 <= i < here.len() ==> (link.texts)(here[i], there[i])
}

spec fn roots_linked(link: Link, here: Seq<RootView>, there: Seq<RootView>) -> bool {
    &&& here.len() == there.len()
    &&& forall|i: int|
        #![trigger here[i]]
        #![trigger there[i]]
        0 <= i < here.len() ==> (link.paths)(here[i].path, there[i].path)
}

/// The paths of a line that has content, or none.
spec fn pending_pair(
    link: Link,
    device: Device,
    here: Option<PathView>,
    there: Option<PathView>,
) -> bool {
    match (here, there) {
        (Some(p), Some(q)) => (link.paths)(p, q) && may_hold_content(device, p),
        (None, None) => true,
        _ => false,
    }
}

spec fn pending_linked(
    link: Link,
    device: Device,
    here: Seq<PendingView>,
    there: Seq<PendingView>,
) -> bool {
    &&& here.len() == there.len()
    &&& forall|i: int|
        #![trigger here[i]]
        #![trigger there[i]]
        0 <= i < here.len() ==> pending_pair(link, device, here[i].file_path, there[i].file_path)
}

spec fn queue_linked(
    link: Link,
    device: Device,
    here: Seq<PlacedView>,
    there: Seq<PlacedView>,
) -> bool {
    &&& here.len() == there.len()
    &&& forall|i: int|
        #![trigger here[i]]
        #![trigger there[i]]
        0 <= i < here.len() ==> (link.paths)(here[i].path, there[i].path) && holds_directory(
            device,
            here[i].path,
        )
}

spec fn progress_linked(
    link: Link,
    device: Device,
    here: ProgressView,
    there: ProgressView,
) -> bool {
    &&& roots_linked(link, here.roots, there.roots)
    &&& pending_linked(link, device, here.pending, there.pending)
}

spec fn walk_linked(link: Link, device: Device, here: WalkView, there: WalkView) -> bool {
    &&& queue_linked(link, device, here.queue, there.queue)
    &&& pending_linked(link, device, here.members, there.members)
}

/// The paths of two expansions stand for the same, one for one. `device` is
/// the one of the first.
spec fn state_linked(
    link: Link,
    device: Device,
    here: TraversalView,
    there: TraversalView,
) -> bool {
    match (here, there) {
        (
            TraversalView::Root { progress: p, root: a },
            TraversalView::Root { progress: q, root: b },
        ) => progress_linked(link, device, p, q) && (link.paths)(a.path, b.path),
        (
            TraversalView::Listing { progress: p, walk: v, directory: a },
            TraversalView::Listing { progress: q, walk: w, directory: b },
        ) => {
            &&& progress_linked(link, device, p, q)
            &&& walk_linked(link, device, v, w)
            &&& (link.paths)(a.path, b.path)
            &&& holds_directory(device, a.path)
        },
        (
            TraversalView::Member {
                progress: p,
                walk: v,
                relative_directory: c,
                rest: r,
                member: a,
            },
            TraversalView::Member {
                progress: q,
                walk: w,
                relative_directory: d,
                rest: s,
                member: b,
            },
        ) => {
            &&& progress_linked(link, device, p, q)
            &&& walk_linked(link, device, v, w)
            &&& entries_linked(link, r, s)
            &&& (link.paths)(a.path, b.path)
        },
        (
            TraversalView::Hashing { progress: p, line: l, path: a },
            TraversalView::Hashing { progress: q, line: m, path: b },
        ) => progress_linked(link, device, p, q) && (link.paths)(a, b) && may_hold_content(
            device,
            a,
        ),
        (
            TraversalView::Finished { lines: a, failure: f },
            TraversalView::Finished { lines: b, failure: g },
        ) => true,
        _ => false,
    }
}

proof fn lemma_next_hash(link: Link, device: Device, p: ProgressView, q: ProgressView)
    requires
        progress_linked(link, device, p, q),
    ensures
        state_linked(link, device, p.next_hash(), q.next_hash()),
    decreases p.pending.len(),
{
    if p.pending.len() > 0 {
        let rest_p = p.pending.drop_first();
        let rest_q = q.pending.drop_first();
        assert(pending_pair(link, device, p.pending[0].file_path, q.pending[0].file_path));
        assert forall|i: int|
            #![trigger rest_p[i]]
            #![trigger rest_q[i]]
            0 <= i < rest_p.len() implies pending_pair(
            link,
            device,
            rest_p[i].file_path,
            rest_q[i].file_path,
        ) by {
            assert(rest_p[i] == p.pending[i + 1] && rest_q[i] == q.pending[i + 1]);
        }
        if p.pending[0].file_path is None {
            lemma_next_hash(
                link,
                device,
                ProgressView {
                    lines: p.lines.push(p.pending[0].of_kind(EntryFileSetLineKind::NonFile)),
                    pending: rest_p,
                    ..p
                },
                ProgressView {
                    lines: q.lines.push(q.pending[0].of_kind(EntryFileSetLineKind::NonFile)),
                    pending: rest_q,
                    ..q
                },
            );
        }
    }
}

proof fn lemma_next_root(link: Link, device: Device, p: ProgressView, q: ProgressView)
    requires
        progress_linked(link, device, p, q),
    ensures
        state_linked(link, device, p.next_root(), q.next_root()),
{
    lemma_next_hash(link, device, p, q);
    if p.roots.len() > 0 {
        let rest_p = p.roots.drop_first();
        let rest_q = q.roots.drop_first();
        assert forall|i: int|
            #![trigger rest_p[i]]
            #![trigger rest_q[i]]
            0 <= i < rest_p.len() implies (link.paths)(rest_p[i].path, rest_q[i].path) by {
            assert(rest_p[i] == p.roots[i + 1] && rest_q[i] == q.roots[i + 1]);
        }
        assert((link.paths)(p.roots[0].path, q.roots[0].path));
    }
}

proof fn lemma_next_directory(
    link: Link,
    device: Device,
    p: ProgressView,
    q: ProgressView,
    v: WalkView,
    w: WalkView,
)
    requires
        progress_linked(link, device, p, q),
        walk_linked(link, device, v, w),
    ensures
        state_linked(link, device, p.next_directory(v), q.next_directory(w)),
{
    if v.queue.len() == 0 {
        let all_p = p.pending + v.members;
        let all_q = q.pending + w.members;
        assert forall|i: int|
            #![trigger all_p[i]]
            #![trigger all_q[i]]
            0 <= i < all_p.len() implies pending_pair(
            link,
            device,
            all_p[i].file_path,
            all_q[i].file_path,
        ) by {
            if i < p.pending.len() {
                assert(all_p[i] == p.pending[i] && all_q[i] == q.pending[i]);
            } else {
                let k = i - p.pending.len();
                assert(all_p[i] == v.members[k] && all_q[i] == w.members[k]);
            }
        }
        lemma_next_root(
            link,
            device,
            ProgressView { pending: all_p, ..p },
            ProgressView { pending: all_q, ..q },
        );
    } else {
        let rest_v = v.queue.drop_first();
        let rest_w = w.queue.drop_first();
        assert forall|i: int|
            #![trigger rest_v[i]]
            #![trigger rest_w[i]]
            0 <= i < rest_v.len() implies (link.paths)(rest_v[i].path, rest_w[i].path)
            && holds_directory(device, rest_v[i].path) by {
            assert(rest_v[i] == v.queue[i + 1] && rest_w[i] == w.queue[i + 1]);
        }
        assert((link.paths)(v.queue[0].path, w.queue[0].path));
    }
}

proof fn lemma_next_entry(
    link: Link,
    device: Device,
    p: ProgressView,
    q: ProgressView,
    v: WalkView,
    w: WalkView,
    c: Seq<char>,
    d: Seq<char>,
    r: Seq<EntryView>,
    s: Seq<EntryView>,
)
    requires
        progress_linked(link, device, p, q),
        walk_linked(link, device, v, w),
        entries_linked(link, r, s),
    ensures
        state_linked(link, device, p.next_entry(v, c, r), q.next_entry(w, d, s)),
{
    if r.len() == 0 {
        lemma_next_directory(link, device, p, q, v, w);
    } else {
        assert(portable_name(r[0].name) == portable_name(s[0].name));
        let rest_r = r.drop_first();
        let rest_s = s.drop_first();
        assert forall|i: int|
            #![trigger rest_r[i]]
            #![trigger rest_s[i]]
            0 <= i < rest_r.len() implies portable_name(rest_r[i].name) == portable_name(
            rest_s[i].name,
        ) && (link.paths)(rest_r[i].path, rest_s[i].path) by {
            assert(rest_r[i] == r[i + 1] && rest_s[i] == s[i + 1]);
        }
    }
}

proof fn lemma_one_found(
    link: Link,
    device: Device,
    a: Seq<PendingView>,
    b: Seq<PendingView>,
    l: PendingView,
    m: PendingView,
)
    requires
        pending_linked(link, device, a, b),
        pending_pair(link, device, l.file_path, m.file_path),
    ensures
        pending_linked(link, device, a.push(l), b.push(m)),
{
    let (x, y) = (a.push(l), b.push(m));
    assert forall|i: int|
        #![trigger x[i]]
        #![trigger y[i]]
        0 <= i < x.len() implies pending_pair(link, device, x[i].file_path, y[i].file_path) by {
        if i < a.len() {
            assert(x[i] == a[i] && y[i] == b[i]);
        }
    }
}

/// Both expansions are of one shape: under bare names they are the same.
spec fn is_same_shape(sizes: bool, here: TraversalView, there: TraversalView) -> bool {
    bare(sizes).state(here) == bare(sizes).state(there)
}

proof fn lemma_root_step(
    sizes: bool,
    link: Link,
    here: Device,
    there: Device,
    a: TraversalView,
    b: TraversalView,
)
    requires
        hold_the_same(sizes, link, here, there),
        state_linked(link, here, a, b),
        is_same_shape(sizes, a, b),
        a is Root,
        sizes || !is_too_large(a.step(here.reply(a))) && !is_too_large(b.step(there.reply(b))),
    ensures
        state_linked(link, here, a.step(here.reply(a)), b.step(there.reply(b))),
{
    let naming = bare(sizes);
    if let (
        TraversalView::Root { progress: p, root: x },
        TraversalView::Root { progress: q, root: y },
    ) = (a, b) {
        assert(hold_alike(sizes, link, here, there, x.path, y.path));
        assert(naming.progress(p) == naming.progress(q));
        assert(naming.root(x) == naming.root(y));
        let found_x = (here.inspect)(x.path);
        let found_y = (there.inspect)(y.path);
        assert(naming.found(found_x) == naming.found(found_y));
        if may_hold_content(here, x.path) {
            let (line_x, line_y) = match (found_x, found_y) {
                (Some(f), Some(g)) => (x.flat_file(f), y.flat_file(g)),
                _ => (x.missing_file(), y.missing_file()),
            };
            lemma_one_found(link, here, p.pending, q.pending, line_x, line_y);
            let size_x = match (x.known_size, found_x) {
                (Some(size), _) => size,
                (None, Some(f)) => f.len,
                (None, None) => 0,
            };
            let size_y = match (y.known_size, found_y) {
                (Some(size), _) => size,
                (None, Some(g)) => g.len,
                (None, None) => 0,
            };
            lemma_next_root(
                link,
                here,
                p.counted(size_x).found(line_x),
                q.counted(size_y).found(line_y),
            );
        } else if holds_directory(here, x.path) {
            let (v, w) = (WalkView::at(x), WalkView::at(y));
            assert(queue_linked(link, here, v.queue, w.queue));
            lemma_next_directory(link, here, p, q, v, w);
        }
    }
}

proof fn lemma_listing_step(
    sizes: bool,
    link: Link,
    here: Device,
    there: Device,
    a: TraversalView,
    b: TraversalView,
)
    requires
        hold_the_same(sizes, link, here, there),
        state_linked(link, here, a, b),
        is_same_shape(sizes, a, b),
        a is Listing,
        sizes || !is_too_large(a.step(here.reply(a))) && !is_too_large(b.step(there.reply(b))),
    ensures
        state_linked(link, here, a.step(here.reply(a)), b.step(there.reply(b))),
{
    let naming = bare(sizes);
    if let (
        TraversalView::Listing { progress: p, walk: v, directory: x },
        TraversalView::Listing { progress: q, walk: w, directory: y },
    ) = (a, b) {
        assert(hold_alike(sizes, link, here, there, x.path, y.path));
        assert(naming.progress(p) == naming.progress(q));
        if let (Some(r), Some(s)) = ((here.list)(x.path), (there.list)(y.path)) {
            sort_keeps_members(r, entry_order());
            sort_keeps_members(s, entry_order());
            if r.len() == 0 {
                let line_v = v.root.member(
                    p.next_line,
                    shown_path(x.relative_path),
                    FileSetMemberKind::EmptyDirectory,
                    None,
                );
                let line_w = w.root.member(
                    q.next_line,
                    shown_path(y.relative_path),
                    FileSetMemberKind::EmptyDirectory,
                    None,
                );
                lemma_one_found(link, here, v.members, w.members, line_v, line_w);
                lemma_next_directory(
                    link,
                    here,
                    p.line_taken().counted(0),
                    q.line_taken().counted(0),
                    v.found(line_v),
                    w.found(line_w),
                );
            } else {
                lemma_next_entry(
                    link,
                    here,
                    p,
                    q,
                    v,
                    w,
                    x.relative_path,
                    y.relative_path,
                    stable_sort(r, entry_order()),
                    stable_sort(s, entry_order()),
                );
            }
        }
    }
}

proof fn lemma_member_step(
    sizes: bool,
    link: Link,
    here: Device,
    there: Device,
    a: TraversalView,
    b: TraversalView,
)
    requires
        hold_the_same(sizes, link, here, there),
        state_linked(link, here, a, b),
        is_same_shape(sizes, a, b),
        a is Member,
        sizes || !is_too_large(a.step(here.reply(a))) && !is_too_large(b.step(there.reply(b))),
    ensures
        state_linked(link, here, a.step(here.reply(a)), b.step(there.reply(b))),
{
    let naming = bare(sizes);
    if let (
        TraversalView::Member { progress: p, walk: v, relative_directory: c, rest: r, member: x },
        TraversalView::Member { progress: q, walk: w, relative_directory: d, rest: s, member: y },
    ) = (a, b) {
        assert(hold_alike(sizes, link, here, there, x.path, y.path));
        assert(naming.progress(p) == naming.progress(q));
        let found_x = (here.inspect)(x.path);
        let found_y = (there.inspect)(y.path);
        assert(naming.found(found_x) == naming.found(found_y));
        if let (Some(f), Some(g)) = (found_x, found_y) {
            if holds_directory(here, x.path) {
                let (longer_v, longer_w) = (v.queue.push(x), w.queue.push(y));
                assert forall|i: int|
                    #![trigger longer_v[i]]
                    #![trigger longer_w[i]]
                    0 <= i < longer_v.len() implies (link.paths)(
                    longer_v[i].path,
                    longer_w[i].path,
                ) && holds_directory(here, longer_v[i].path) by {
                    if i < v.queue.len() {
                        assert(longer_v[i] == v.queue[i] && longer_w[i] == w.queue[i]);
                    }
                }
                lemma_next_entry(
                    link,
                    here,
                    p,
                    q,
                    WalkView { queue: longer_v, ..v },
                    WalkView { queue: longer_w, ..w },
                    c,
                    d,
                    r,
                    s,
                );
            } else if is_plain_file(f) {
                let line_v = v.root.member(
                    p.next_line,
                    x.relative_path,
                    kind_of_mode(f.mode),
                    Some(x.path),
                );
                let line_w = w.root.member(
                    q.next_line,
                    y.relative_path,
                    kind_of_mode(g.mode),
                    Some(y.path),
                );
                lemma_one_found(link, here, v.members, w.members, line_v, line_w);
                lemma_next_entry(
                    link,
                    here,
                    p.line_taken().counted(f.len),
                    q.line_taken().counted(g.len),
                    v.found(line_v),
                    w.found(line_w),
                    c,
                    d,
                    r,
                    s,
                );
            }
        }
    }
}

proof fn lemma_step(
    sizes: bool,
    link: Link,
    here: Device,
    there: Device,
    a: TraversalView,
    b: TraversalView,
)
    requires
        hold_the_same(sizes, link, here, there),
        state_linked(link, here, a, b),
        is_same_shape(sizes, a, b),
        sizes || !is_too_large(a.step(here.reply(a))) && !is_too_large(b.step(there.reply(b))),
    ensures
        state_linked(link, here, a.step(here.reply(a)), b.step(there.reply(b))),
{
    match (a, b) {
        (TraversalView::Root { progress, root }, _) => {
            lemma_root_step(sizes, link, here, there, a, b);
        },
        (TraversalView::Listing { progress, walk, directory }, _) => {
            lemma_listing_step(sizes, link, here, there, a, b);
        },
        (TraversalView::Member { progress, walk, relative_directory, rest, member }, _) => {
            lemma_member_step(sizes, link, here, there, a, b);
        },
        (
            TraversalView::Hashing { progress: p, line: l, path: x },
            TraversalView::Hashing { progress: q, line: m, path: y },
        ) => {
            lemma_next_hash(
                link,
                here,
                ProgressView {
                    lines: p.lines.push(l.of_kind(kind_of_hash((here.hash)(x), false))),
                    ..p
                },
                ProgressView {
                    lines: q.lines.push(m.of_kind(kind_of_hash((there.hash)(y), false))),
                    ..q
                },
            );
        },
        _ => {},
    }
}

/// The same under bare names is answered the same under bare names.
proof fn lemma_replies_alike(
    sizes: bool,
    link: Link,
    here: Device,
    there: Device,
    a: TraversalView,
    b: TraversalView,
)
    requires
        hold_the_same(sizes, link, here, there),
        state_linked(link, here, a, b),
    ensures
        bare(sizes).reply(here.reply(a)) == bare(sizes).reply(there.reply(b)),
{
    let naming = bare(sizes);
    match (a, b) {
        (
            TraversalView::Root { progress: p, root: x },
            TraversalView::Root { progress: q, root: y },
        ) => {
            assert(hold_alike(sizes, link, here, there, x.path, y.path));
        },
        (
            TraversalView::Listing { progress: p, walk: v, directory: x },
            TraversalView::Listing { progress: q, walk: w, directory: y },
        ) => {
            assert(hold_alike(sizes, link, here, there, x.path, y.path));
            if let (Some(r), Some(s)) = ((here.list)(x.path), (there.list)(y.path)) {
                let sorted_r = stable_sort(r, entry_order());
                let sorted_s = stable_sort(s, entry_order());
                assert forall|i: int| 0 <= i < sorted_r.len() implies naming.entry(sorted_r[i])
                    == naming.entry(sorted_s[i]) by {
                    assert((link.paths)(sorted_r[i].path, sorted_s[i].path));
                    assert(hold_alike(
                        sizes,
                        link,
                        here,
                        there,
                        sorted_r[i].path,
                        sorted_s[i].path,
                    ));
                }
                assert(naming.listing(r) =~= naming.listing(s));
            }
        },
        (
            TraversalView::Member {
                progress: p,
                walk: v,
                relative_directory: c,
                rest: r,
                member: x,
            },
            TraversalView::Member {
                progress: q,
                walk: w,
                relative_directory: d,
                rest: s,
                member: y,
            },
        ) => {
            assert(hold_alike(sizes, link, here, there, x.path, y.path));
        },
        (
            TraversalView::Hashing { progress: p, line: l, path: x },
            TraversalView::Hashing { progress: q, line: m, path: y },
        ) => {
            assert(hold_alike(sizes, link, here, there, x, y));
        },
        _ => {},
    }
}

spec fn manifest_linked(
    link: Link,
    device: Device,
    here: ManifestView,
    there: ManifestView,
) -> bool {
    match (here, there) {
        (
            ManifestView::Reading { reading: r, line: a },
            ManifestView::Reading { reading: s, line: b },
        ) => {
            &&& texts_linked(link, r.rest, s.rest)
            &&& roots_linked(link, r.roots, s.roots)
            &&& (link.texts)(a, b)
        },
        (ManifestView::Expanding { traversal: a }, ManifestView::Expanding { traversal: b }) =>
            state_linked(link, device, a, b),
        (ManifestView::Finished { file_set: a }, ManifestView::Finished { file_set: b }) => true,
        _ => false,
    }
}

proof fn lemma_started(
    link: Link,
    device: Device,
    roots_here: Seq<RootView>,
    roots_there: Seq<RootView>,
    lines_here: Seq<LineView>,
    lines_there: Seq<LineView>,
    top_level_count: i64,
    caps_here: FileSetCaps,
    caps_there: FileSetCaps,
)
    requires
        roots_linked(link, roots_here, roots_there),
    ensures
        ({
            let a = TraversalView::started(roots_here, lines_here, top_level_count, caps_here);
            let b = TraversalView::started(roots_there, lines_there, top_level_count, caps_there);
            !is_too_large(a) && !is_too_large(b) || caps_here == caps_there ==> manifest_linked(
                link,
                device,
                expanding(a),
                expanding(b),
            )
        }),
{
    let p = ProgressView {
        caps: caps_here,
        lines: lines_here,
        roots: roots_here,
        budget: TraversalBudget::unused(),
        pending: seq![],
        next_line: top_level_count,
    };
    let q = ProgressView {
        caps: caps_there,
        lines: lines_there,
        roots: roots_there,
        budget: TraversalBudget::unused(),
        pending: seq![],
        next_line: top_level_count,
    };
    lemma_next_root(link, device, p, q);
}

proof fn lemma_next_line(
    sizes: bool,
    link: Link,
    device: Device,
    r: ReadingView,
    s: ReadingView,
)
    requires
        texts_linked(link, r.rest, s.rest),
        roots_linked(link, r.roots, s.roots),
        r.top_level_count == s.top_level_count,
        sizes ==> r.caps == s.caps,
        sizes || !says_too_large(r.next_line()) && !says_too_large(s.next_line()),
    ensures
        manifest_linked(link, device, r.next_line(), s.next_line()),
{
    if r.rest.len() == 0 {
        let given_r = Selection {
            roots: r.roots,
            lines: r.others,
            top_level_count: r.top_level_count,
            caps: r.caps,
        };
        let given_s = Selection {
            roots: s.roots,
            lines: s.others,
            top_level_count: s.top_level_count,
            caps: s.caps,
        };
        if is_too_large(given_r.expanded(seq![])) {
            lemma_started_oversized(given_r);
        }
        if is_too_large(given_s.expanded(seq![])) {
            lemma_started_oversized(given_s);
        }
        lemma_started(
            link,
            device,
            r.roots,
            s.roots,
            r.others,
            s.others,
            r.top_level_count,
            r.caps,
            s.caps,
        );
    } else {
        assert((link.texts)(r.rest[0], s.rest[0]));
        let rest_r = r.rest.drop_first();
        let rest_s = s.rest.drop_first();
        assert forall|i: int|
            #![trigger rest_r[i]]
            #![trigger rest_s[i]]
            0 <= i < rest_r.len() implies (link.texts)(rest_r[i], rest_s[i]) by {
            assert(rest_r[i] == r.rest[i + 1] && rest_s[i] == s.rest[i + 1]);
        }
    }
}

proof fn lemma_reading_step(
    sizes: bool,
    link: Link,
    here: Device,
    there: Device,
    a: ManifestView,
    b: ManifestView,
)
    requires
        hold_the_same(sizes, link, here, there),
        manifest_linked(link, here, a, b),
        bare(sizes).manifest(a) == bare(sizes).manifest(b),
        a is Reading,
        sizes || !says_too_large(a.step(here.answer(a))) && !says_too_large(
            b.step(there.answer(b)),
        ),
    ensures
        manifest_linked(link, here, a.step(here.answer(a)), b.step(there.answer(b))),
{
    let naming = bare(sizes);
    if let (
        ManifestView::Reading { reading: r, line: x },
        ManifestView::Reading { reading: s, line: y },
    ) = (a, b) {
        assert(naming.reading(r) == naming.reading(s));
        assert((link.texts)(x, y));
        match ((here.classify)(x), (there.classify)(y)) {
            (Some(p), Some(q)) => {
                let root_r = RootView {
                    line_index: r.line_index,
                    root_index: r.root_index,
                    original_text: x,
                    root_name: basename(p),
                    path: p,
                    known_size: None,
                };
                let root_s = RootView {
                    line_index: s.line_index,
                    root_index: s.root_index,
                    original_text: y,
                    root_name: basename(q),
                    path: q,
                    known_size: None,
                };
                let (roots_r, roots_s) = (r.roots.push(root_r), s.roots.push(root_s));
                assert forall|i: int|
                    #![trigger roots_r[i]]
                    #![trigger roots_s[i]]
                    0 <= i < roots_r.len() implies (link.paths)(
                    roots_r[i].path,
                    roots_s[i].path,
                ) by {
                    if i < r.roots.len() {
                        assert(roots_r[i] == r.roots[i] && roots_s[i] == s.roots[i]);
                    }
                }
                lemma_next_line(
                    sizes,
                    link,
                    here,
                    ReadingView {
                        line_index: line_index_after(r.line_index),
                        root_index: line_index_after(r.root_index),
                        roots: roots_r,
                        ..r
                    },
                    ReadingView {
                        line_index: line_index_after(s.line_index),
                        root_index: line_index_after(s.root_index),
                        roots: roots_s,
                        ..s
                    },
                );
            },
            _ => {
                let other_r = LineView {
                    line_index: r.line_index,
                    original_text: x,
                    member_location: None,
                    kind: EntryFileSetLineKind::NonFile,
                };
                let other_s = LineView {
                    line_index: s.line_index,
                    original_text: y,
                    member_location: None,
                    kind: EntryFileSetLineKind::NonFile,
                };
                lemma_next_line(
                    sizes,
                    link,
                    here,
                    ReadingView {
                        line_index: line_index_after(r.line_index),
                        others: r.others.push(other_r),
                        ..r
                    },
                    ReadingView {
                        line_index: line_index_after(s.line_index),
                        others: s.others.push(other_s),
                        ..s
                    },
                );
            },
        }
    }
}

proof fn lemma_manifest_step(
    sizes: bool,
    link: Link,
    here: Device,
    there: Device,
    a: ManifestView,
    b: ManifestView,
)
    requires
        hold_the_same(sizes, link, here, there),
        manifest_linked(link, here, a, b),
        bare(sizes).manifest(a) == bare(sizes).manifest(b),
        is_under_way(a),
        is_under_way(b),
        sizes || !says_too_large(a.step(here.answer(a))) && !says_too_large(
            b.step(there.answer(b)),
        ),
    ensures
        manifest_linked(link, here, a.step(here.answer(a)), b.step(there.answer(b))),
        bare(sizes).answer(here.answer(a)) == bare(sizes).answer(there.answer(b)),
{
    match (a, b) {
        (
            ManifestView::Reading { reading: r, line: x },
            ManifestView::Reading { reading: s, line: y },
        ) => {
            lemma_reading_step(sizes, link, here, there, a, b);
            assert((link.texts)(x, y));
            if let (Some(p), Some(q)) = ((here.classify)(x), (there.classify)(y)) {
                assert(hold_alike(sizes, link, here, there, p, q));
            }
        },
        (ManifestView::Expanding { traversal: x }, ManifestView::Expanding { traversal: y }) => {
            if is_too_large(x.step(here.reply(x))) {
                lemma_step_oversized(x, here.reply(x));
            }
            if is_too_large(y.step(there.reply(y))) {
                lemma_step_oversized(y, there.reply(y));
            }
            lemma_step(sizes, link, here, there, x, y);
            lemma_replies_alike(sizes, link, here, there, x, y);
        },
        _ => {},
    }
}

/// The index of the root `i` places behind one with the given index.
spec fn index_behind(index: i64, i: int) -> i64
    decreases i,
{
    if i <= 0 {
        index
    } else {
        index_behind(line_index_after(index), i - 1)
    }
}

proof fn lemma_local_root(
    representations: Seq<ObservedClipboardRepresentation>,
    index: i64,
    i: int,
)
    requires
        0 <= i < local_roots(representations, index).len(),
    ensures
        ({
            let root = local_roots(representations, index)[i];
            &&& root.line_index == index_behind(index, i)
            &&& root.root_index == index_behind(index, i)
            &&& root.root_name == basename(root.path)
        }),
    decreases representations.len(),
{
    let roots = local_roots(representations, index);
    let rest = representations.drop_first();
    if representations[0].source is LocalFile {
        let behind = local_roots(rest, line_index_after(index));
        assert(roots.len() == behind.len() + 1);
        if i > 0 {
            assert(roots[i] == behind[i - 1]);
            lemma_local_root(rest, line_index_after(index), i - 1);
        }
    } else {
        lemma_local_root(rest, index, i);
    }
}

proof fn lemma_copied_alike(
    sizes: bool,
    link: Link,
    here: Device,
    there: Device,
    copied_here: Seq<ObservedClipboardRepresentation>,
    copied_there: Seq<ObservedClipboardRepresentation>,
)
    requires
        hold_the_same(sizes, link, here, there),
        copy_the_same(sizes, link, copied_here, copied_there),
    ensures
        carry_alike(bare(sizes), copied_here, bare(sizes), copied_there),
{
    let naming = bare(sizes);
    let roots_here = local_roots(copied_here, 0);
    let roots_there = local_roots(copied_there, 0);
    assert forall|i: int| 0 <= i < roots_here.len() implies naming.roots(roots_here)[i]
        == naming.roots(roots_there)[i] by {
        let (p, q) = (roots_here[i].path, roots_there[i].path);
        assert((link.paths)(p, q));
        assert(hold_alike(sizes, link, here, there, p, q));
        lemma_local_root(copied_here, 0, i);
        lemma_local_root(copied_there, 0, i);
        lemma_basename(naming, p);
        lemma_basename(naming, q);
        assert(naming.path(p) == naming.path(q));
    }
    assert(naming.roots(roots_here) =~= naming.roots(roots_there));
    if roots_here.len() == 0 {
        if let (Some(a), Some(b)) = (first_listing(copied_here), first_listing(copied_there)) {
            assert(naming.all_texts(lines_of(a)) =~= naming.all_texts(lines_of(b)));
        }
    }
}

proof fn lemma_begun(
    sizes: bool,
    link: Link,
    device: Device,
    copied_here: Seq<ObservedClipboardRepresentation>,
    copied_there: Seq<ObservedClipboardRepresentation>,
    caps_here: FileSetCaps,
    caps_there: FileSetCaps,
)
    requires
        copy_the_same(sizes, link, copied_here, copied_there),
        sizes ==> caps_here == caps_there,
        sizes || !says_too_large(ManifestView::started(copied_here, caps_here))
            && !says_too_large(ManifestView::started(copied_there, caps_there)),
    ensures
        manifest_linked(
            link,
            device,
            ManifestView::started(copied_here, caps_here),
            ManifestView::started(copied_there, caps_there),
        ),
{
    let roots_here = local_roots(copied_here, 0);
    let roots_there = local_roots(copied_there, 0);
    if roots_here.len() > 0 {
        let given_here = Selection {
            roots: roots_here,
            lines: seq![],
            top_level_count: roots_here.len() as i64,
            caps: caps_here,
        };
        let given_there = Selection { roots: roots_there, caps: caps_there, ..given_here };
        if is_too_large(given_here.expanded(seq![])) {
            lemma_started_oversized(given_here);
        }
        if is_too_large(given_there.expanded(seq![])) {
            lemma_started_oversized(given_there);
        }
        assert(roots_linked(link, roots_here, roots_there));
        lemma_started(
            link,
            device,
            roots_here,
            roots_there,
            seq![],
            seq![],
            roots_here.len() as i64,
            caps_here,
            caps_there,
        );
    } else if let (Some(a), Some(b)) = (first_listing(copied_here), first_listing(copied_there)) {
        let r = ReadingView {
            caps: caps_here,
            rest: lines_of(a),
            line_index: 0,
            root_index: 0,
            roots: seq![],
            others: seq![],
            top_level_count: lines_of(a).len() as i64,
        };
        let s = ReadingView { caps: caps_there, rest: lines_of(b), ..r };
        lemma_next_line(sizes, link, device, r, s);
    }
}

proof fn lemma_same_course(
    sizes: bool,
    link: Link,
    here: Device,
    there: Device,
    copied_here: Seq<ObservedClipboardRepresentation>,
    copied_there: Seq<ObservedClipboardRepresentation>,
    caps_here: FileSetCaps,
    caps_there: FileSetCaps,
    count: nat,
)
    requires
        hold_the_same(sizes, link, here, there),
        copy_the_same(sizes, link, copied_here, copied_there),
        sizes ==> caps_here == caps_there,
        sizes || !says_too_large(here.making(copied_here, caps_here, count)) && !says_too_large(
            there.making(copied_there, caps_there, count),
        ),
    ensures
        bare(sizes).answers(here.answers(copied_here, caps_here, count)) == bare(sizes).answers(
            there.answers(copied_there, caps_there, count),
        ),
        manifest_linked(
            link,
            here,
            here.making(copied_here, caps_here, count),
            there.making(copied_there, caps_there, count),
        ),
    decreases count,
{
    let naming = bare(sizes);
    if count == 0 {
        lemma_begun(sizes, link, here, copied_here, copied_there, caps_here, caps_there);
    } else {
        let before = (count - 1) as nat;
        let at_here = here.making(copied_here, caps_here, before);
        let at_there = there.making(copied_there, caps_there, before);
        let answers_here = here.answers(copied_here, caps_here, before);
        let answers_there = there.answers(copied_there, caps_there, before);
        let last_here = here.answer(at_here);
        let last_there = there.answer(at_there);
        assert(answers_here.push(last_here).drop_last() =~= answers_here);
        assert(answers_there.push(last_there).drop_last() =~= answers_there);
        if at_here is Finished {
            lemma_finished_stays(here, at_here);
        }
        if at_there is Finished {
            lemma_finished_stays(there, at_there);
        }
        lemma_same_course(
            sizes,
            link,
            here,
            there,
            copied_here,
            copied_there,
            caps_here,
            caps_there,
            before,
        );
        lemma_copied_alike(sizes, link, here, there, copied_here, copied_there);
        manifests_are_device_independent(
            naming,
            naming,
            copied_here,
            copied_there,
            caps_here,
            caps_there,
            answers_here,
            answers_there,
        );
        lemma_under_way(copied_here, caps_here, answers_here);
        lemma_under_way(copied_there, caps_there, answers_there);
        lemma_manifest_step(sizes, link, here, there, at_here, at_there);
        assert(naming.answers(answers_here.push(last_here)) =~= naming.answers(answers_here).push(
            naming.answer(last_here),
        ));
        assert(naming.answers(answers_there.push(last_there)) =~= naming.answers(
            answers_there,
        ).push(naming.answer(last_there)));
    }
}

proof fn lemma_finished_stays(device: Device, state: ManifestView)
    requires
        state is Finished,
    ensures
        state.step(device.answer(state)) == state,
{
}

/// Two devices that hold the same files, and on which the same was copied,
/// make manifests that say the same, at every point: wherever the files lie,
/// in whatever order directories are listed, and whatever permissions and
/// sizes the devices keep besides what is read of them. Where sizes do not
/// count they may differ altogether, and the caps too, as long as neither
/// manifest says that its set is too large.
pub proof fn same_files_make_the_same_manifest(
    sizes: bool,
    link: Link,
    here: Device,
    there: Device,
    copied_here: Seq<ObservedClipboardRepresentation>,
    copied_there: Seq<ObservedClipboardRepresentation>,
    caps_here: FileSetCaps,
    caps_there: FileSetCaps,
    count: nat,
)
    requires
        hold_the_same(sizes, link, here, there),
        copy_the_same(sizes, link, copied_here, copied_there),
        sizes ==> caps_here == caps_there,
        sizes || !says_too_large(here.making(copied_here, caps_here, count)) && !says_too_large(
            there.making(copied_there, caps_there, count),
        ),
    ensures
        come_to_the_same(
            here.making(copied_here, caps_here, count),
            there.making(copied_there, caps_there, count),
        ),
{
    lemma_same_course(
        sizes,
        link,
        here,
        there,
        copied_here,
        copied_there,
        caps_here,
        caps_there,
        count,
    );
    lemma_copied_alike(sizes, link, here, there, copied_here, copied_there);
    manifests_are_device_independent(
        bare(sizes),
        bare(sizes),
        copied_here,
        copied_there,
        caps_here,
        caps_there,
        here.answers(copied_here, caps_here, count),
        there.answers(copied_there, caps_there, count),
    );
}

/// A file, or a directory with what is below it. Names are in normal form, and
/// stand in the order in which a device lists them by name.
pub enum FileTree {
    File { kind: FileSetMemberKind, content_hash: ContentHash },
    Directory { entries: Seq<(Seq<char>, FileTree)> },
}

/// The device holds this tree at the path, and all of it can be read.
pub open spec fn holds_tree(device: Device, path: PathView, tree: FileTree) -> bool
    decreases tree,
{
    match tree {
        FileTree::File { kind, content_hash } => {
            &&& (device.inspect)(path) matches Some(found) && is_plain_file(found)
                && kind_of_mode(found.mode) == kind
            &&& (device.hash)(path) == Some(content_hash)
        },
        FileTree::Directory { entries } => {
            &&& holds_directory(device, path)
            &&& (device.list)(path) is Some
            &&& stable_sort((device.list)(path)->0, entry_order()).len() == entries.len()
            &&& forall|i: int|
                #![trigger entries[i]]
                0 <= i < entries.len() ==> {
                    let entry = stable_sort((device.list)(path)->0, entry_order())[i];
                    &&& entry.name matches Some(name) && nfc_form(name) == entries[i].0
                    &&& entry.path.file_name == entry.name
                    &&& holds_tree(device, entry.path, entries[i].1)
                }
        },
    }
}

/// One line was copied, which names the path.
pub open spec fn copies_one_path(
    device: Device,
    copied: Seq<ObservedClipboardRepresentation>,
    text: Seq<char>,
    path: PathView,
) -> bool {
    &&& local_roots(copied, 0).len() == 0
    &&& first_listing(copied) matches Some(listing) && lines_of(listing) == seq![text]
    &&& (device.classify)(text) == Some(path)
}

/// Both devices hold one and the same tree at paths of one name.
pub open spec fn hold_one_tree(here: Device, there: Device, p: PathView, q: PathView) -> bool {
    &&& portable_name(p.file_name) == portable_name(q.file_name)
    &&& exists|tree: FileTree| #[trigger] holds_tree(here, p, tree) && holds_tree(there, q, tree)
}

proof fn lemma_trees_alike(
    link: Link,
    here: Device,
    there: Device,
    p: PathView,
    q: PathView,
)
    requires
        forall|x: PathView, y: PathView| #[trigger]
            (link.paths)(x, y) <==> hold_one_tree(here, there, x, y),
        hold_one_tree(here, there, p, q),
    ensures
        hold_alike(false, link, here, there, p, q),
{
    let tree = choose|tree: FileTree| #[trigger]
        holds_tree(here, p, tree) && holds_tree(there, q, tree);
    if let FileTree::Directory { entries } = tree {
        let sorted_p = stable_sort((here.list)(p)->0, entry_order());
        let sorted_q = stable_sort((there.list)(q)->0, entry_order());
        assert forall|i: int|
            #![trigger sorted_p[i]]
            #![trigger sorted_q[i]]
            0 <= i < sorted_p.len() implies portable_name(sorted_p[i].name) == portable_name(
            sorted_q[i].name,
        ) && (link.paths)(sorted_p[i].path, sorted_q[i].path) by {
            let below = entries[i].1;
            assert(holds_tree(here, sorted_p[i].path, below));
            assert(holds_tree(there, sorted_q[i].path, below));
            assert(hold_one_tree(here, there, sorted_p[i].path, sorted_q[i].path));
        }
    }
}

/// Two devices that each copy one path, of one name in normal form, and hold
/// one and the same tree there, a file or a directory with all that is below
/// it, make manifests that say the same, wherever the two paths lie. Sizes and
/// caps may differ as long as neither manifest says that its set is too large.
pub proof fn equal_trees_make_the_same_manifest(
    here: Device,
    there: Device,
    copied_here: Seq<ObservedClipboardRepresentation>,
    copied_there: Seq<ObservedClipboardRepresentation>,
    caps_here: FileSetCaps,
    caps_there: FileSetCaps,
    text_here: Seq<char>,
    text_there: Seq<char>,
    path_here: PathView,
    path_there: PathView,
    tree: FileTree,
    count: nat,
)
    requires
        copies_one_path(here, copied_here, text_here, path_here),
        copies_one_path(there, copied_there, text_there, path_there),
        portable_name(path_here.file_name) == portable_name(path_there.file_name),
        holds_tree(here, path_here, tree),
        holds_tree(there, path_there, tree),
        !says_too_large(here.making(copied_here, caps_here, count)),
        !says_too_large(there.making(copied_there, caps_there, count)),
    ensures
        come_to_the_same(
            here.making(copied_here, caps_here, count),
            there.making(copied_there, caps_there, count),
        ),
{
    let link = Link {
        paths: |p: PathView, q: PathView| hold_one_tree(here, there, p, q),
        texts: |a: Seq<char>, b: Seq<char>| a == text_here && b == text_there,
    };
    assert(hold_one_tree(here, there, path_here, path_there));
    assert forall|p: PathView, q: PathView|
        #![trigger (link.paths)(p, q)]
        (link.paths)(p, q) implies hold_alike(false, link, here, there, p, q) by {
        lemma_trees_alike(link, here, there, p, q);
    }
    assert(hold_the_same(false, link, here, there));
    assert(texts_linked(link, seq![text_here], seq![text_there]));
    assert(copy_the_same(false, link, copied_here, copied_there));
    same_files_make_the_same_manifest(
        false,
        link,
        here,
        there,
        copied_here,
        copied_there,
        caps_here,
        caps_there,
        count,
    );
}

/// What one file says of itself in a manifest: its name in normal form,
/// whether it may be executed, and its digest.
pub open spec fn file_line(
    text: Seq<char>,
    path: PathView,
    found: FileMetadata,
    content_hash: ContentHash,
) -> LineView {
    LineView {
        line_index: 0,
        original_text: text,
        member_location: Some(
            LocationView {
                root_index: 0,
                root_name: basename(path),
                relative_path: basename(path),
                kind: kind_of_mode(found.mode),
            },
        ),
        kind: EntryFileSetLineKind::File { content_hash, blob_id: None, size_bytes: None },
    }
}

/// One line was copied, which names a file that can be read and fits the caps.
pub open spec fn copies_one_file(
    device: Device,
    copied: Seq<ObservedClipboardRepresentation>,
    caps: FileSetCaps,
    text: Seq<char>,
    path: PathView,
    found: FileMetadata,
    content_hash: ContentHash,
) -> bool {
    &&& local_roots(copied, 0).len() == 0
    &&& first_listing(copied) matches Some(listing) && lines_of(listing) == seq![text]
    &&& (device.classify)(text) == Some(path)
    &&& (device.inspect)(path) == Some(found)
    &&& !found.symlink && !found.directory && found.regular
    &&& (device.hash)(path) == Some(content_hash)
    &&& !TraversalBudget::unused().after(found.len).exceeds(caps)
}

/// The manifest of one copied file is made in three answers: what the line
/// names, what stands there, and what it hashes to. Where the file lies is
/// not in it but for the text of the line.
pub proof fn a_copied_file_is_listed_by_its_content(
    device: Device,
    copied: Seq<ObservedClipboardRepresentation>,
    caps: FileSetCaps,
    text: Seq<char>,
    path: PathView,
    found: FileMetadata,
    content_hash: ContentHash,
)
    requires
        copies_one_file(device, copied, caps, text, path, found, content_hash),
    ensures
        device.making(copied, caps, 3) == (ManifestView::Finished {
            file_set: Some(seq![file_line(text, path, found, content_hash)]),
        }),
{
    let reading = ReadingView {
        caps,
        rest: seq![],
        line_index: 0,
        root_index: 0,
        roots: seq![],
        others: seq![],
        top_level_count: 1,
    };
    let root = RootView {
        line_index: 0,
        root_index: 0,
        original_text: text,
        root_name: basename(path),
        path,
        known_size: None,
    };
    let progress = ProgressView {
        caps,
        lines: seq![],
        roots: seq![],
        budget: TraversalBudget::unused(),
        pending: seq![],
        next_line: 1,
    };
    let flat = root.flat_file(found);
    let hashing = TraversalView::Hashing {
        progress: ProgressView { budget: progress.budget.after(found.len), ..progress },
        line: PendingView { file_path: None, ..flat },
        path,
    };
    let line = file_line(text, path, found, content_hash);

    assert(device.answers(copied, caps, 0) =~= seq![]);
    assert(seq![text].drop_first() =~= seq![]);
    assert(device.making(copied, caps, 0) == (ManifestView::Reading { reading, line: text }));

    let first = device.answers(copied, caps, 1);
    assert(first.drop_last() =~= device.answers(copied, caps, 0));
    assert(seq![].push(root) =~= seq![root]);
    assert(seq![root].drop_first() =~= seq![]);
    assert(!(caps.max_member_count > 0 && 1 > caps.max_member_count));
    assert(device.making(copied, caps, 1) == (ManifestView::Expanding {
        traversal: TraversalView::Root { progress, root },
    }));

    let second = device.answers(copied, caps, 2);
    assert(second.drop_last() =~= first);
    assert(seq![].push(flat) =~= seq![flat]);
    assert(seq![flat].drop_first() =~= seq![]);
    assert(progress.root_inspected(root, Some(found)) == hashing);
    assert(device.making(copied, caps, 2) == (ManifestView::Expanding { traversal: hashing }));

    let third = device.answers(copied, caps, 3);
    assert(third.drop_last() =~= second);
    assert(seq![].push(line) =~= seq![line]);
    sort_of_ties(seq![line], line_order());
}

/// Two devices that each copy one file, of the same name in normal form, the
/// same content and the same right to be executed, make manifests that say the
/// same, wherever the two files lie.
pub proof fn the_same_file_makes_the_same_manifest(
    here: Device,
    there: Device,
    copied_here: Seq<ObservedClipboardRepresentation>,
    copied_there: Seq<ObservedClipboardRepresentation>,
    caps_here: FileSetCaps,
    caps_there: FileSetCaps,
    text_here: Seq<char>,
    text_there: Seq<char>,
    path_here: PathView,
    path_there: PathView,
    found_here: FileMetadata,
    found_there: FileMetadata,
    content_hash: ContentHash,
)
    requires
        copies_one_file(
            here,
            copied_here,
            caps_here,
            text_here,
            path_here,
            found_here,
            content_hash,
        ),
        copies_one_file(
            there,
            copied_there,
            caps_there,
            text_there,
            path_there,
            found_there,
            content_hash,
        ),
        basename(path_here) == basename(path_there),
        kind_of_mode(found_here.mode) == kind_of_mode(found_there.mode),
    ensures
        here.making(copied_here, caps_here, 3) is Finished,
        here.making(copied_here, caps_here, 3)->file_set is Some,
        come_to_the_same(
            here.making(copied_here, caps_here, 3),
            there.making(copied_there, caps_there, 3),
        ),
{
    a_copied_file_is_listed_by_its_content(
        here,
        copied_here,
        caps_here,
        text_here,
        path_here,
        found_here,
        content_hash,
    );
    a_copied_file_is_listed_by_its_content(
        there,
        copied_there,
        caps_there,
        text_there,
        path_there,
        found_there,
        content_hash,
    );
}

} // verus!

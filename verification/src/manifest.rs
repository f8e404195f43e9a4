//! The manifest of a snapshot that carries files.
//!
//! Files come to the clipboard in two shapes. Either representations are
//! files of this device: each is a root. Or a representation is a text that
//! lists files, one to a line: each line that names a file is a root, and
//! every other line, blank ones and comments among them, is kept, so that one
//! line more, or another order, makes another manifest. Where a snapshot has
//! both, the files win.

use crate::clipboard::{
    ClipboardPayloadSource, ObservedClipboardRepresentation, SystemClipboardSnapshot,
};
use crate::file_set::{
    EntryFileSet, EntryFileSetLine, EntryFileSetLineKind, FileSetCaps, LineView, RootView,
    TopLevelFileMember, line_index_after, take_line_index,
};
use crate::files::{FilePath, PathView, basename, normalized_basename};
use crate::text::{lines_of, split_lines};
use crate::traversal::{
    FileSetTraversal, ReplyView, TraversalReply, TraversalRequest, TraversalView,
    build_file_member_lines,
};
use crate::unicode::decoded;
use crate::views::{group_views, queue_of, view_inside, views};
use std::collections::VecDeque;
use vstd::prelude::*;

verus! {

broadcast use group_views;

/// The roots that representations bring, the first of them with the given
/// index. A root's index counts the files before it.
pub open spec fn local_roots(
    representations: Seq<ObservedClipboardRepresentation>,
    index: i64,
) -> Seq<RootView>
    decreases representations.len(),
{
    if representations.len() == 0 {
        seq![]
    } else {
        let rest = representations.drop_first();
        match representations[0].source {
            ClipboardPayloadSource::LocalFile { path, display, size_bytes } => seq![
                RootView {
                    line_index: index,
                    root_index: index,
                    original_text: display@,
                    root_name: basename(path@),
                    path: path@,
                    known_size: Some(size_bytes),
                },
            ] + local_roots(rest, line_index_after(index)),
            ClipboardPayloadSource::Inline(bytes) => local_roots(rest, index),
        }
    }
}

/// The text of a representation that lists files.
pub open spec fn listing_text(representation: ObservedClipboardRepresentation) -> Option<
    Seq<char>,
> {
    if !representation.lists_files {
        None
    } else {
        match representation.source {
            ClipboardPayloadSource::Inline(bytes) => if vstd::utf8::valid_utf8(bytes@) {
                Some(vstd::utf8::decode_utf8(bytes@))
            } else {
                None
            },
            ClipboardPayloadSource::LocalFile { path, display, size_bytes } => None,
        }
    }
}

/// The first text that lists files.
pub open spec fn first_listing(representations: Seq<ObservedClipboardRepresentation>) -> Option<
    Seq<char>,
>
    decreases representations.len(),
{
    if representations.len() == 0 {
        None
    } else {
        match listing_text(representations[0]) {
            Some(text) => Some(text),
            None => first_listing(representations.drop_first()),
        }
    }
}

/// The lines of a listing as far as they have been told apart.
pub struct Reading {
    pub caps: FileSetCaps,
    /// The lines behind the one in hand.
    pub rest: VecDeque<String>,
    /// The index of the line in hand.
    pub line_index: i64,
    /// The index of the next root.
    pub root_index: i64,
    pub roots: Vec<TopLevelFileMember>,
    /// The lines that name no file.
    pub others: Vec<EntryFileSetLine>,
    /// How many lines there are in all.
    pub top_level_count: i64,
}

/// A reading, as contracts speak of it.
#[verifier::ext_equal]
pub struct ReadingView {
    pub caps: FileSetCaps,
    pub rest: Seq<Seq<char>>,
    pub line_index: i64,
    pub root_index: i64,
    pub roots: Seq<RootView>,
    pub others: Seq<LineView>,
    pub top_level_count: i64,
}

impl View for Reading {
    type V = ReadingView;

    open spec fn view(&self) -> ReadingView {
        ReadingView {
            caps: self.caps,
            rest: views(self.rest@),
            line_index: self.line_index,
            root_index: self.root_index,
            roots: views(self.roots@),
            others: views(self.others@),
            top_level_count: self.top_level_count,
        }
    }
}

/// The making of a manifest.
pub enum ManifestRun {
    /// What the line in hand names is to be told.
    Reading { reading: Reading, line: String },
    /// The roots are being expanded.
    Expanding { traversal: FileSetTraversal },
    /// There is a manifest, or the snapshot carries no files.
    Finished { file_set: Option<EntryFileSet> },
}

/// The making of a manifest, as contracts speak of it.
#[verifier::ext_equal]
pub enum ManifestView {
    Reading { reading: ReadingView, line: Seq<char> },
    Expanding { traversal: TraversalView },
    Finished { file_set: Option<Seq<LineView>> },
}

impl View for EntryFileSet {
    type V = Seq<LineView>;

    open spec fn view(&self) -> Seq<LineView> {
        views(self.lines@)
    }
}

impl View for ManifestRun {
    type V = ManifestView;

    open spec fn view(&self) -> ManifestView {
        match *self {
            ManifestRun::Reading { reading, line } => ManifestView::Reading {
                reading: reading@,
                line: line@,
            },
            ManifestRun::Expanding { traversal } => ManifestView::Expanding {
                traversal: traversal@,
            },
            ManifestRun::Finished { file_set } => ManifestView::Finished {
                file_set: view_inside(file_set),
            },
        }
    }
}

/// What the making of a manifest asks its host for.
pub enum ManifestRequest<'a> {
    /// The file that this line of a listing names, if it names one.
    Classify(&'a String),
    /// Something of the file system.
    Traverse(TraversalRequest<'a>),
    /// Nothing: the manifest is finished.
    Nothing,
}

/// What the host answers.
pub enum ManifestReply {
    /// The line names this file, or none.
    Classified(Option<FilePath>),
    Traversed(TraversalReply),
}

/// An answer, as contracts speak of it.
pub enum ManifestReplyView {
    Classified(Option<PathView>),
    Traversed(ReplyView),
}

impl View for ManifestReply {
    type V = ManifestReplyView;

    open spec fn view(&self) -> ManifestReplyView {
        match *self {
            ManifestReply::Classified(named) => ManifestReplyView::Classified(view_inside(named)),
            ManifestReply::Traversed(reply) => ManifestReplyView::Traversed(reply@),
        }
    }
}

impl ReadingView {
    /// Goes on with the next line, or with the expansion where none is left.
    pub open spec fn next_line(self) -> ManifestView {
        if self.rest.len() == 0 {
            expanding(
                TraversalView::started(self.roots, self.others, self.top_level_count, self.caps),
            )
        } else {
            ManifestView::Reading {
                reading: ReadingView { rest: self.rest.drop_first(), ..self },
                line: self.rest[0],
            }
        }
    }

    /// Goes on after a line was told apart.
    pub open spec fn classified(self, line: Seq<char>, named: Option<PathView>) -> ManifestView {
        let next = ReadingView { line_index: line_index_after(self.line_index), ..self };
        match named {
            Some(path) => ReadingView {
                root_index: line_index_after(self.root_index),
                roots: self.roots.push(
                    RootView {
                        line_index: self.line_index,
                        root_index: self.root_index,
                        original_text: line,
                        root_name: basename(path),
                        path,
                        known_size: None,
                    },
                ),
                ..next
            }.next_line(),
            None => ReadingView {
                others: self.others.push(
                    LineView {
                        line_index: self.line_index,
                        original_text: line,
                        member_location: None,
                        kind: EntryFileSetLineKind::NonFile,
                    },
                ),
                ..next
            }.next_line(),
        }
    }
}

/// An expansion under way, or the manifest that it ended with.
pub open spec fn expanding(traversal: TraversalView) -> ManifestView {
    match traversal {
        TraversalView::Finished { lines, failure } => ManifestView::Finished {
            file_set: Some(lines),
        },
        _ => ManifestView::Expanding { traversal },
    }
}

impl ManifestView {
    /// The making of a manifest at its start.
    pub open spec fn started(
        representations: Seq<ObservedClipboardRepresentation>,
        caps: FileSetCaps,
    ) -> ManifestView {
        let roots = local_roots(representations, 0);
        if roots.len() > 0 {
            expanding(TraversalView::started(roots, seq![], roots.len() as i64, caps))
        } else {
            match first_listing(representations) {
                Some(text) => {
                    let lines = lines_of(text);
                    ReadingView {
                        caps,
                        rest: lines,
                        line_index: 0,
                        root_index: 0,
                        roots: seq![],
                        others: seq![],
                        top_level_count: lines.len() as i64,
                    }.next_line()
                },
                None => ManifestView::Finished { file_set: None },
            }
        }
    }

    /// The state after an answer. An answer to another question than the one
    /// that was asked changes nothing.
    pub open spec fn step(self, reply: ManifestReplyView) -> ManifestView {
        match (self, reply) {
            (ManifestView::Reading { reading, line }, ManifestReplyView::Classified(named)) =>
                reading.classified(line, named),
            (ManifestView::Expanding { traversal }, ManifestReplyView::Traversed(answer)) =>
                expanding(traversal.step(answer)),
            _ => self,
        }
    }
}

fn expansion(traversal: FileSetTraversal) -> (r: ManifestRun)
    ensures
        r@ == expanding(traversal@),
{
    match traversal {
        FileSetTraversal::Finished { lines, failure: _ } => ManifestRun::Finished {
            file_set: Some(EntryFileSet { lines }),
        },
        traversal => ManifestRun::Expanding { traversal },
    }
}

/// The roots that the representations of a snapshot bring.
fn local_file_members(representations: &Vec<ObservedClipboardRepresentation>) -> (r: Vec<
    TopLevelFileMember,
>)
    ensures
        views(r@) == local_roots(representations@, 0),
{
    let mut members: Vec<TopLevelFileMember> = Vec::new();
    let mut next: i64 = 0;
    let ghost goal = local_roots(representations@, 0);
    let mut i: usize = 0;
    proof {
        assert(representations@.skip(0) == representations@);
        assert(views(members@) + goal == goal);
    }
    while i < representations.len()
        invariant
            i <= representations@.len(),
            goal == views(members@) + local_roots(representations@.skip(i as int), next),
        decreases representations@.len() - i,
    {
        proof {
            assert(representations@.skip(i as int).drop_first() == representations@.skip(i + 1));
            assert(representations@.skip(i as int)[0] == representations@[i as int]);
        }
        let ghost before = views(members@);
        if let ClipboardPayloadSource::LocalFile { path, display, size_bytes } =
            &representations[i].source {
            let index: i64 = take_line_index(&mut next);
            let member = TopLevelFileMember {
                line_index: index,
                root_index: index,
                original_text: display.clone(),
                root_name: normalized_basename(path),
                path: path.duplicate(),
                known_size: Some(*size_bytes),
            };
            let ghost shown = member@;
            members.push(member);
            proof {
                assert(views(members@) == before.push(shown));
                assert(before + (seq![shown] + local_roots(representations@.skip(i + 1), next))
                    == views(members@) + local_roots(representations@.skip(i + 1), next));
            }
        }
        i = i + 1;
    }
    proof {
        assert(local_roots(representations@.skip(i as int), next) == Seq::<RootView>::empty());
        assert(views(members@) + Seq::<RootView>::empty() == views(members@));
    }
    members
}

/// The first text of a snapshot that lists files.
fn first_listing_text(representations: &Vec<ObservedClipboardRepresentation>) -> (r: Option<String>)
    ensures
        view_inside(r) == first_listing(representations@),
{
    let mut i: usize = 0;
    proof {
        assert(representations@.skip(0) == representations@);
    }
    while i < representations.len()
        invariant
            i <= representations@.len(),
            first_listing(representations@) == first_listing(representations@.skip(i as int)),
        decreases representations@.len() - i,
    {
        proof {
            assert(representations@.skip(i as int).drop_first() == representations@.skip(i + 1));
            assert(representations@.skip(i as int)[0] == representations@[i as int]);
        }
        let rep = &representations[i];
        if rep.lists_files {
            if let Some(bytes) = rep.inline_bytes() {
                let text: Option<String> = decoded(bytes);
                if text.is_some() {
                    return text;
                }
            }
        }
        i = i + 1;
    }
    None
}

impl Reading {
    fn next_line(self) -> (r: ManifestRun)
        ensures
            r@ == self@.next_line(),
    {
        let mut reading: Reading = self;
        let ghost before = reading@;
        match reading.rest.pop_front() {
            Some(line) => {
                proof {
                    assert(reading@ == ReadingView { rest: before.rest.drop_first(), ..before });
                }
                ManifestRun::Reading { reading, line }
            },
            None => expansion(
                build_file_member_lines(
                    reading.roots,
                    reading.others,
                    reading.top_level_count,
                    reading.caps,
                ),
            ),
        }
    }

    fn classified(self, line: String, named: Option<FilePath>) -> (r: ManifestRun)
        ensures
            r@ == self@.classified(line@, view_inside(named)),
    {
        let mut reading: Reading = self;
        let mut next_line: i64 = reading.line_index;
        let line_index: i64 = take_line_index(&mut next_line);
        reading.line_index = next_line;
        match named {
            Some(path) => {
                let mut next_root: i64 = reading.root_index;
                let root_index: i64 = take_line_index(&mut next_root);
                reading.root_index = next_root;
                let root = TopLevelFileMember {
                    line_index,
                    root_index,
                    original_text: line,
                    root_name: normalized_basename(&path),
                    path,
                    known_size: None,
                };
                let ghost shown = root@;
                reading.roots.push(root);
                proof {
                    assert(reading@ == ReadingView {
                        line_index: line_index_after(self@.line_index),
                        root_index: line_index_after(self@.root_index),
                        roots: self@.roots.push(shown),
                        ..self@
                    });
                }
                reading.next_line()
            },
            None => {
                let other = EntryFileSetLine {
                    line_index,
                    original_text: line,
                    member_location: None,
                    kind: EntryFileSetLineKind::NonFile,
                };
                let ghost shown = other@;
                reading.others.push(other);
                proof {
                    assert(reading@ == ReadingView {
                        line_index: line_index_after(self@.line_index),
                        others: self@.others.push(shown),
                        ..self@
                    });
                }
                reading.next_line()
            },
        }
    }
}

/// Starts the making of the manifest of a snapshot. It ends without one where
/// the snapshot carries no files.
pub fn build_entry_file_set(snapshot: &SystemClipboardSnapshot, caps: FileSetCaps) -> (r:
    ManifestRun)
    ensures
        r@ == ManifestView::started(snapshot.representations@, caps),
{
    let roots: Vec<TopLevelFileMember> = local_file_members(&snapshot.representations);
    if roots.len() > 0 {
        let top_level_count: i64 = roots.len() as i64;
        return expansion(build_file_member_lines(roots, Vec::new(), top_level_count, caps));
    }
    match first_listing_text(&snapshot.representations) {
        Some(text) => {
            let lines: Vec<String> = split_lines(&text);
            let top_level_count: i64 = lines.len() as i64;
            let reading = Reading {
                caps,
                rest: queue_of(lines),
                line_index: 0,
                root_index: 0,
                roots: Vec::new(),
                others: Vec::new(),
                top_level_count,
            };
            proof {
                assert(reading@ == ReadingView {
                    caps,
                    rest: lines_of(text@),
                    line_index: 0,
                    root_index: 0,
                    roots: seq![],
                    others: seq![],
                    top_level_count,
                });
            }
            reading.next_line()
        },
        None => ManifestRun::Finished { file_set: None },
    }
}

impl ManifestRun {
    /// The request is the one that the making of the manifest waits to have
    /// answered.
    pub open spec fn awaits(&self, request: ManifestRequest<'_>) -> bool {
        match (request, *self) {
            (
                ManifestRequest::Classify(text),
                ManifestRun::Reading { reading, line },
            ) => *text == line,
            (
                ManifestRequest::Traverse(asked),
                ManifestRun::Expanding { traversal },
            ) => traversal.awaits(asked),
            (ManifestRequest::Nothing, ManifestRun::Finished { file_set }) => true,
            _ => false,
        }
    }

    /// What the making of the manifest waits for.
    pub fn request(&self) -> (r: ManifestRequest<'_>)
        ensures
            self.awaits(r),
    {
        match self {
            ManifestRun::Reading { reading: _, line } => ManifestRequest::Classify(line),
            ManifestRun::Expanding { traversal } => ManifestRequest::Traverse(traversal.request()),
            ManifestRun::Finished { file_set: _ } => ManifestRequest::Nothing,
        }
    }

    /// Goes on with an answer. An answer to another question than the one
    /// that was asked changes nothing.
    pub fn resume(self, reply: ManifestReply) -> (r: Self)
        ensures
            r@ == self@.step(reply@),
    {
        match (self, reply) {
            (ManifestRun::Reading { reading, line }, ManifestReply::Classified(named)) =>
                reading.classified(line, named),
            (ManifestRun::Expanding { traversal }, ManifestReply::Traversed(answer)) => expansion(
                traversal.resume(answer),
            ),
            (unchanged, _) => unchanged,
        }
    }
}

} // verus!

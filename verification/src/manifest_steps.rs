//! Where each answer takes the making of a manifest.

use crate::clipboard::{
    ClipboardPayloadSource, ObservedClipboardRepresentation, SystemClipboardSnapshot,
};
use crate::file_set::{EntryFileSetLineKind, FileSetCaps, LineView, RootView};
use crate::files::PathView;
use crate::manifest::{
    ManifestReply, ManifestReplyView, ManifestRun, ManifestView, ReadingView,
    build_entry_file_set, first_listing, local_roots,
};
use crate::text::lines_of;
use crate::traversal::{ReplyView, TraversalView};
use crate::traversal_steps::{index_behind, name_of};
use vstd::prelude::*;

verus! {

/// Every copied file is a root, numbered in order, under the path as it is
/// shown, its name and the size that it came with; payloads in memory are
/// none.
pub proof fn copied_files_are_roots(
    rep: ObservedClipboardRepresentation,
    rest: Seq<ObservedClipboardRepresentation>,
    index: i64,
)
    ensures
        local_roots(seq![], index) == Seq::<RootView>::empty(),
        rep.source is Inline ==> local_roots(seq![rep] + rest, index) == local_roots(rest, index),
        rep.source matches ClipboardPayloadSource::LocalFile { path, display, size_bytes }
            ==> local_roots(seq![rep] + rest, index) == seq![
            RootView {
                line_index: index,
                root_index: index,
                original_text: display@,
                root_name: name_of(path@),
                path: path@,
                known_size: Some(size_bytes),
            },
        ] + local_roots(rest, index_behind(index)),
{
    assert((seq![rep] + rest).drop_first() == rest);
}

/// The representation is a text in memory that lists files, and can be read
/// as text.
pub open spec fn is_listing(rep: ObservedClipboardRepresentation) -> bool {
    rep.lists_files && (rep.source matches ClipboardPayloadSource::Inline(bytes)
        && vstd::utf8::valid_utf8(bytes@))
}

/// The first text that lists files is the one that is read; where there is
/// none, none is.
pub proof fn the_first_listing_is_read(reps: Seq<ObservedClipboardRepresentation>, j: int)
    ensures
        0 <= j < reps.len() && is_listing(reps[j]) && (forall|k: int|
            0 <= k < j ==> !is_listing(#[trigger] reps[k])) ==> first_listing(reps) == Some(
            vstd::utf8::decode_utf8(reps[j].source->Inline_0@),
        ),
        (forall|k: int| 0 <= k < reps.len() ==> !is_listing(#[trigger] reps[k])) ==> first_listing(
            reps,
        ) is None,
    decreases reps.len(),
{
    if reps.len() > 0 {
        let rest = reps.drop_first();
        the_first_listing_is_read(rest, j - 1);
        if forall|k: int| 0 <= k < reps.len() ==> !is_listing(#[trigger] reps[k]) {
            assert(!is_listing(reps[0]));
            assert forall|k: int| 0 <= k < rest.len() implies !is_listing(#[trigger] rest[k]) by {
                assert(rest[k] == reps[k + 1]);
            }
        }
        if 0 < j < reps.len() && is_listing(reps[j]) && (forall|k: int|
            0 <= k < j ==> !is_listing(#[trigger] reps[k])) {
            assert(!is_listing(reps[0]));
            assert(rest[j - 1] == reps[j]);
            assert forall|k: int| 0 <= k < j - 1 implies !is_listing(#[trigger] rest[k]) by {
                assert(rest[k] == reps[k + 1]);
            }
        }
    }
}

/// The expansion is under way, or its lines are the manifest.
pub open spec fn expansion_comes(next: ManifestView, traversal: TraversalView) -> bool {
    match traversal {
        TraversalView::Finished { lines, failure } => next == (ManifestView::Finished {
            file_set: Some(lines),
        }),
        _ => next == (ManifestView::Expanding { traversal }),
    }
}

/// The next line is told apart; behind the last one the roots that the lines
/// named are expanded, beside the lines that named none.
pub open spec fn line_comes(next: ManifestView, reading: ReadingView) -> bool {
    if reading.rest.len() > 0 {
        &&& next matches ManifestView::Reading { reading: left, line }
        &&& seq![line] + left.rest == reading.rest
        &&& left == (ReadingView { rest: left.rest, ..reading })
    } else {
        expansion_comes(
            next,
            TraversalView::started(
                reading.roots,
                reading.others,
                reading.top_level_count,
                reading.caps,
            ),
        )
    }
}

proof fn lemma_line(reading: ReadingView)
    ensures
        line_comes(reading.next_line(), reading),
{
    if reading.rest.len() > 0 {
        assert(seq![reading.rest[0]] + reading.rest.drop_first() == reading.rest);
    }
}

/// Copied files are expanded as they are; without any, the lines of the first
/// text that lists files are told apart one by one, numbered from nothing;
/// and without either there is no manifest.
pub proof fn manifests_start_with_files_or_lines(
    reps: Seq<ObservedClipboardRepresentation>,
    caps: FileSetCaps,
)
    ensures
        ({
            let next = ManifestView::started(reps, caps);
            let roots = local_roots(reps, 0);
            if roots.len() > 0 {
                expansion_comes(
                    next,
                    TraversalView::started(roots, seq![], roots.len() as i64, caps),
                )
            } else {
                match first_listing(reps) {
                    Some(text) => line_comes(
                        next,
                        ReadingView {
                            caps,
                            rest: lines_of(text),
                            line_index: 0,
                            root_index: 0,
                            roots: seq![],
                            others: seq![],
                            top_level_count: lines_of(text).len() as i64,
                        },
                    ),
                    None => next == (ManifestView::Finished { file_set: None }),
                }
            }
        }),
{
    if let Some(text) = first_listing(reps) {
        lemma_line(
            ReadingView {
                caps,
                rest: lines_of(text),
                line_index: 0,
                root_index: 0,
                roots: seq![],
                others: seq![],
                top_level_count: lines_of(text).len() as i64,
            },
        );
    }
}

/// A line that names a file makes a root of it, with the text of the line and
/// the name of the file; any other line is kept as it is, as a line that is no
/// file. Either way the next line has the next index.
pub proof fn lines_name_roots_or_are_kept(
    reading: ReadingView,
    line: Seq<char>,
    path: PathView,
)
    ensures
        line_comes(
            (ManifestView::Reading { reading, line }).step(
                ManifestReplyView::Classified(Some(path)),
            ),
            ReadingView {
                line_index: index_behind(reading.line_index),
                root_index: index_behind(reading.root_index),
                roots: reading.roots.push(
                    RootView {
                        line_index: reading.line_index,
                        root_index: reading.root_index,
                        original_text: line,
                        root_name: name_of(path),
                        path,
                        known_size: None,
                    },
                ),
                ..reading
            },
        ),
        line_comes(
            (ManifestView::Reading { reading, line }).step(ManifestReplyView::Classified(None)),
            ReadingView {
                line_index: index_behind(reading.line_index),
                others: reading.others.push(
                    LineView {
                        line_index: reading.line_index,
                        original_text: line,
                        member_location: None,
                        kind: EntryFileSetLineKind::NonFile,
                    },
                ),
                ..reading
            },
        ),
{
    lemma_line(
        ReadingView {
            line_index: index_behind(reading.line_index),
            root_index: index_behind(reading.root_index),
            roots: reading.roots.push(
                RootView {
                    line_index: reading.line_index,
                    root_index: reading.root_index,
                    original_text: line,
                    root_name: name_of(path),
                    path,
                    known_size: None,
                },
            ),
            ..reading
        },
    );
    lemma_line(
        ReadingView {
            line_index: index_behind(reading.line_index),
            others: reading.others.push(
                LineView {
                    line_index: reading.line_index,
                    original_text: line,
                    member_location: None,
                    kind: EntryFileSetLineKind::NonFile,
                },
            ),
            ..reading
        },
    );
}

/// An answer for the expansion takes it on; any other answer than the one
/// that is asked for changes nothing, and a finished manifest is changed by
/// none.
pub proof fn expansions_make_the_manifest(
    state: ManifestView,
    answer: ReplyView,
    named: Option<PathView>,
)
    ensures
        state matches ManifestView::Expanding { traversal } ==> expansion_comes(
            state.step(ManifestReplyView::Traversed(answer)),
            traversal.step(answer),
        ),
        state !is Expanding ==> state.step(ManifestReplyView::Traversed(answer)) == state,
        state !is Reading ==> state.step(ManifestReplyView::Classified(named)) == state,
{
}

/// What is resumed is what the answer takes it to, and what is started is the
/// manifest of this snapshot under these caps.
pub proof fn makings_go_where_answers_take_them(
    run: ManifestRun,
    reply: ManifestReply,
    next: ManifestRun,
    snapshot: SystemClipboardSnapshot,
    caps: FileSetCaps,
    started: ManifestRun,
)
    requires
        call_ensures(ManifestRun::resume, (run, reply), next),
        call_ensures(build_entry_file_set, (&snapshot, caps), started),
    ensures
        next@ == run@.step(reply@),
        started@ == ManifestView::started(snapshot.representations@, caps),
{
}

} // verus!

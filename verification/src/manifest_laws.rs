//! What holds of every manifest, whatever the host answers.

use crate::clipboard::{ClipboardPayloadSource, ObservedClipboardRepresentation};
use crate::file_set::{
    EntryFileSetLineKind, FileSetCaps, LineView, RootView, line_index_after, line_order,
};
use crate::files::{PathView, basename};
use crate::line_indexes::{line_indexes, manifest_indexes_are_distinct, root_indexes};
use crate::manifest::{
    ManifestReplyView, ManifestView, ReadingView, expanding, first_listing, local_roots,
};
use crate::sorting::is_sorted;
use crate::text::lines_of;
use crate::traversal::{ReplyView, TraversalView};
use crate::traversal_laws::{
    Selection, every_root_has_a_line, given_lines_are_kept, line_belongs_to, manifest_is_sorted,
};
use vstd::prelude::*;

verus! {

/// The making of a manifest, after a series of answers.
pub open spec fn manifest_after(
    representations: Seq<ObservedClipboardRepresentation>,
    caps: FileSetCaps,
    replies: Seq<ManifestReplyView>,
) -> ManifestView
    decreases replies.len(),
{
    if replies.len() == 0 {
        ManifestView::started(representations, caps)
    } else {
        manifest_after(representations, caps, replies.drop_last()).step(replies.last())
    }
}

/// The snapshot carries files, in either shape.
pub open spec fn carries_files(representations: Seq<ObservedClipboardRepresentation>) -> bool {
    local_roots(representations, 0).len() > 0 || first_listing(representations) is Some
}

/// The texts by which the clipboard names the copied files and whatever
/// stands between them, in order.
pub open spec fn named_texts(representations: Seq<ObservedClipboardRepresentation>) -> Seq<
    Seq<char>,
> {
    let roots = local_roots(representations, 0);
    if roots.len() > 0 {
        roots.map_values(|root: RootView| root.original_text)
    } else {
        match first_listing(representations) {
            Some(text) => lines_of(text),
            None => seq![],
        }
    }
}

/// What is expanded stands for the first `count` of `texts`: each is a root
/// or a line of its own, under its position, and roots count those before
/// them.
pub open spec fn stands_for(
    texts: Seq<Seq<char>>,
    count: int,
    roots: Seq<RootView>,
    lines: Seq<LineView>,
) -> bool {
    &&& forall|j: int|
        0 <= j < roots.len() ==> {
            let root = #[trigger] roots[j];
            &&& 0 <= root.line_index < count
            &&& root.root_index == j
            &&& root.original_text == texts[root.line_index as int]
            &&& root.root_name == basename(root.path)
        }
    &&& forall|k: int|
        0 <= k < lines.len() ==> {
            let line = #[trigger] lines[k];
            &&& 0 <= line.line_index < count
            &&& line.original_text == texts[line.line_index as int]
            &&& line.member_location is None
            &&& line.kind == EntryFileSetLineKind::NonFile
        }
    &&& (line_indexes(lines) + root_indexes(roots)).no_duplicates()
    &&& forall|i: int|
        0 <= i < count ==> #[trigger] line_indexes(lines).contains(i as i64) || root_indexes(
            roots,
        ).contains(i as i64)
}

spec fn reached(
    representations: Seq<ObservedClipboardRepresentation>,
    caps: FileSetCaps,
    traversal: TraversalView,
    given: Selection,
    answers: Seq<ReplyView>,
    replies: int,
) -> bool {
    let texts = named_texts(representations);
    &&& answers.len() <= replies
    &&& traversal == given.expanded(answers)
    &&& given.caps == caps
    &&& given.top_level_count == texts.len()
    &&& stands_for(texts, texts.len() as int, given.roots, given.lines)
}

spec fn is_reached(
    representations: Seq<ObservedClipboardRepresentation>,
    caps: FileSetCaps,
    traversal: TraversalView,
    replies: int,
) -> bool {
    exists|given: Selection, answers: Seq<ReplyView>| #[trigger]
        reached(representations, caps, traversal, given, answers, replies)
}

spec fn is_read(
    representations: Seq<ObservedClipboardRepresentation>,
    caps: FileSetCaps,
    reading: ReadingView,
    in_hand: Seq<Seq<char>>,
) -> bool {
    let texts = named_texts(representations);
    &&& reading.caps == caps
    &&& reading.top_level_count == texts.len()
    &&& 0 <= reading.line_index
    &&& reading.line_index + in_hand.len() + reading.rest.len() == texts.len()
    &&& texts.skip(reading.line_index as int) == in_hand + reading.rest
    &&& reading.root_index == reading.roots.len()
    &&& reading.roots.len() <= reading.line_index
    &&& stands_for(texts, reading.line_index as int, reading.roots, reading.others)
}

spec fn sound(
    representations: Seq<ObservedClipboardRepresentation>,
    caps: FileSetCaps,
    state: ManifestView,
    replies: int,
) -> bool {
    match state {
        ManifestView::Reading { reading, line } => {
            &&& carries_files(representations)
            &&& is_read(representations, caps, reading, seq![line])
        },
        ManifestView::Expanding { traversal } => {
            &&& carries_files(representations)
            &&& is_reached(representations, caps, traversal, replies)
        },
        ManifestView::Finished { file_set } => match file_set {
            Some(lines) => carries_files(representations) && exists|traversal: TraversalView|
                #![trigger traversal->lines]
                traversal is Finished && traversal->lines == lines && is_reached(
                    representations,
                    caps,
                    traversal,
                    replies,
                ),
            None => !carries_files(representations),
        },
    }
}

proof fn lemma_expanding(
    representations: Seq<ObservedClipboardRepresentation>,
    caps: FileSetCaps,
    traversal: TraversalView,
    replies: int,
)
    requires
        carries_files(representations),
        is_reached(representations, caps, traversal, replies),
    ensures
        sound(representations, caps, expanding(traversal), replies),
{
    if traversal is Finished {
        assert(traversal->lines == traversal->lines);
    }
}

proof fn lemma_started(
    representations: Seq<ObservedClipboardRepresentation>,
    caps: FileSetCaps,
    given: Selection,
    replies: int,
)
    requires
        carries_files(representations),
        0 <= replies,
        given.caps == caps,
        given.top_level_count == named_texts(representations).len(),
        stands_for(
            named_texts(representations),
            named_texts(representations).len() as int,
            given.roots,
            given.lines,
        ),
    ensures
        sound(
            representations,
            caps,
            expanding(
                TraversalView::started(given.roots, given.lines, given.top_level_count, caps),
            ),
            replies,
        ),
{
    let none = Seq::<ReplyView>::empty();
    assert(given.expanded(none) == TraversalView::started(
        given.roots,
        given.lines,
        given.top_level_count,
        caps,
    ));
    assert(reached(representations, caps, given.expanded(none), given, none, replies));
    lemma_expanding(representations, caps, given.expanded(none), replies);
}

proof fn lemma_next_line(
    representations: Seq<ObservedClipboardRepresentation>,
    caps: FileSetCaps,
    reading: ReadingView,
    replies: int,
)
    requires
        carries_files(representations),
        0 <= replies,
        is_read(representations, caps, reading, seq![]),
    ensures
        sound(representations, caps, reading.next_line(), replies),
{
    if reading.rest.len() == 0 {
        lemma_started(
            representations,
            caps,
            Selection {
                roots: reading.roots,
                lines: reading.others,
                top_level_count: reading.top_level_count,
                caps,
            },
            replies,
        );
    } else {
        assert(Seq::<Seq<char>>::empty() + reading.rest == seq![reading.rest[0]]
            + reading.rest.drop_first());
    }
}

proof fn lemma_one_more(
    texts: Seq<Seq<char>>,
    count: int,
    roots: Seq<RootView>,
    lines: Seq<LineView>,
    more_roots: Seq<RootView>,
    more_lines: Seq<LineView>,
)
    requires
        0 <= count < texts.len() <= i64::MAX,
        stands_for(texts, count, roots, lines),
        more_lines == lines && more_roots.len() == roots.len() + 1 && more_roots.drop_last()
            == roots && more_roots.last().line_index == count && more_roots.last().root_index
            == roots.len() && more_roots.last().original_text == texts[count]
            && more_roots.last().root_name == basename(more_roots.last().path) || more_roots
            == roots && more_lines.len() == lines.len() + 1 && more_lines.drop_last() == lines
            && more_lines.last().line_index == count && more_lines.last().original_text
            == texts[count] && more_lines.last().member_location is None && more_lines.last().kind
            == EntryFileSetLineKind::NonFile,
    ensures
        stands_for(texts, count + 1, more_roots, more_lines),
{
    let l = line_indexes(lines);
    let r = root_indexes(roots);
    let ml = line_indexes(more_lines);
    let mr = root_indexes(more_roots);
    let index = count as i64;
    if more_lines == lines {
        assert(mr == r.push(index));
        assert(more_roots == roots.push(more_roots.last()));
        assert forall|j: int| 0 <= j < more_roots.len() implies {
            let root = #[trigger] more_roots[j];
            &&& 0 <= root.line_index < count + 1
            &&& root.root_index == j
            &&& root.original_text == texts[root.line_index as int]
            &&& root.root_name == basename(root.path)
        } by {
            if j < roots.len() {
                assert(more_roots[j] == roots[j]);
            }
        }
    } else {
        assert(ml == l.push(index));
        assert(more_lines == lines.push(more_lines.last()));
        assert forall|k: int| 0 <= k < more_lines.len() implies {
            let line = #[trigger] more_lines[k];
            &&& 0 <= line.line_index < count + 1
            &&& line.original_text == texts[line.line_index as int]
            &&& line.member_location is None
            &&& line.kind == EntryFileSetLineKind::NonFile
        } by {
            if k < lines.len() {
                assert(more_lines[k] == lines[k]);
            }
        }
    }
    let before = l + r;
    let both = ml + mr;
    assert forall|i: int| 0 <= i < l.len() implies #[trigger] l[i] < count by {
        assert(lines[i].line_index < count);
    }
    assert forall|i: int| 0 <= i < r.len() implies #[trigger] r[i] < count by {
        assert(roots[i].line_index < count);
    }
    // Where the new index stands, and where the other ones stood before.
    let at = if more_lines == lines {
        both.len() - 1
    } else {
        l.len() as int
    };
    assert(both[at] == index);
    assert forall|i: int, j: int| 0 <= i < j < both.len() implies both[i] != both[j] by {
        let bi = if i < at {
            i
        } else {
            i - 1
        };
        let bj = if j < at {
            j
        } else {
            j - 1
        };
        if i == at {
            assert(both[j] == before[bj]);
        } else if j == at {
            assert(both[i] == before[bi]);
        } else {
            assert(both[i] == before[bi] && both[j] == before[bj]);
        }
    }
    assert forall|i: int| 0 <= i < count + 1 implies #[trigger] ml.contains(i as i64)
        || mr.contains(i as i64) by {
        if i < count {
            if l.contains(i as i64) {
                let k = choose|k: int| 0 <= k < l.len() && l[k] == i as i64;
                assert(ml[k] == i as i64);
            } else {
                let k = choose|k: int| 0 <= k < r.len() && r[k] == i as i64;
                assert(mr[k] == i as i64);
            }
        } else if more_lines == lines {
            assert(mr[r.len() as int] == index);
        } else {
            assert(ml[l.len() as int] == index);
        }
    }
}

proof fn lemma_classified(
    representations: Seq<ObservedClipboardRepresentation>,
    caps: FileSetCaps,
    reading: ReadingView,
    line: Seq<char>,
    named: Option<PathView>,
    replies: int,
)
    requires
        carries_files(representations),
        0 <= replies,
        named_texts(representations).len() <= i64::MAX,
        is_read(representations, caps, reading, seq![line]),
    ensures
        sound(representations, caps, reading.classified(line, named), replies),
{
    let texts = named_texts(representations);
    let at = reading.line_index as int;
    assert(texts.skip(at)[0] == line);
    assert(texts.skip(at + 1) == texts.skip(at).drop_first());
    assert((seq![line] + reading.rest).drop_first() == reading.rest);
    let next = match named {
        Some(path) => ReadingView {
            line_index: line_index_after(reading.line_index),
            root_index: line_index_after(reading.root_index),
            roots: reading.roots.push(
                RootView {
                    line_index: reading.line_index,
                    root_index: reading.root_index,
                    original_text: line,
                    root_name: basename(path),
                    path,
                    known_size: None,
                },
            ),
            ..reading
        },
        None => ReadingView {
            line_index: line_index_after(reading.line_index),
            others: reading.others.push(
                LineView {
                    line_index: reading.line_index,
                    original_text: line,
                    member_location: None,
                    kind: EntryFileSetLineKind::NonFile,
                },
            ),
            ..reading
        },
    };
    assert(next.roots.len() > reading.roots.len() ==> next.roots.drop_last() == reading.roots);
    assert(next.others.len() > reading.others.len() ==> next.others.drop_last()
        == reading.others);
    lemma_one_more(texts, at, reading.roots, reading.others, next.roots, next.others);
    assert(texts.skip(at + 1) == Seq::<Seq<char>>::empty() + next.rest);
    lemma_next_line(representations, caps, next, replies);
}

proof fn lemma_local_roots(representations: Seq<ObservedClipboardRepresentation>, index: i64)
    requires
        0 <= index,
        index + local_roots(representations, index).len() <= i64::MAX,
    ensures
        forall|j: int|
            0 <= j < local_roots(representations, index).len() ==> {
                let root = #[trigger] local_roots(representations, index)[j];
                &&& root.line_index == index + j
                &&& root.root_index == index + j
                &&& root.root_name == basename(root.path)
            },
    decreases representations.len(),
{
    if representations.len() > 0 {
        let rest = representations.drop_first();
        let whole = local_roots(representations, index);
        match representations[0].source {
            ClipboardPayloadSource::LocalFile { path, display, size_bytes } => {
                lemma_local_roots(rest, line_index_after(index));
                let tail = local_roots(rest, line_index_after(index));
                assert forall|j: int| 0 <= j < whole.len() implies {
                    let root = #[trigger] whole[j];
                    &&& root.line_index == index + j
                    &&& root.root_index == index + j
                    &&& root.root_name == basename(root.path)
                } by {
                    if j > 0 {
                        assert(whole[j] == tail[j - 1]);
                    }
                }
            },
            ClipboardPayloadSource::Inline(bytes) => lemma_local_roots(rest, index),
        }
    }
}

proof fn lemma_sound(
    representations: Seq<ObservedClipboardRepresentation>,
    caps: FileSetCaps,
    replies: Seq<ManifestReplyView>,
)
    requires
        named_texts(representations).len() <= i64::MAX,
    ensures
        sound(
            representations,
            caps,
            manifest_after(representations, caps, replies),
            replies.len() as int,
        ),
    decreases replies.len(),
{
    let texts = named_texts(representations);
    if replies.len() == 0 {
        let roots = local_roots(representations, 0);
        if roots.len() > 0 {
            lemma_local_roots(representations, 0);
            let given = Selection {
                roots,
                lines: seq![],
                top_level_count: roots.len() as i64,
                caps,
            };
            let both = line_indexes(given.lines) + root_indexes(roots);
            assert forall|i: int, j: int| 0 <= i < j < both.len() implies both[i] != both[j] by {
                assert(both[i] == roots[i].line_index && both[j] == roots[j].line_index);
            }
            assert forall|i: int| 0 <= i < texts.len() implies #[trigger] line_indexes(
                given.lines,
            ).contains(i as i64) || root_indexes(roots).contains(i as i64) by {
                assert(root_indexes(roots)[i] == roots[i].line_index);
            }
            assert forall|j: int| 0 <= j < roots.len() implies {
                let root = #[trigger] roots[j];
                &&& 0 <= root.line_index < texts.len()
                &&& root.root_index == j
                &&& root.original_text == texts[root.line_index as int]
                &&& root.root_name == basename(root.path)
            } by {}
            lemma_started(representations, caps, given, 0);
        } else if let Some(text) = first_listing(representations) {
            let reading = ReadingView {
                caps,
                rest: texts,
                line_index: 0,
                root_index: 0,
                roots: seq![],
                others: seq![],
                top_level_count: texts.len() as i64,
            };
            assert(texts.skip(0) == Seq::<Seq<char>>::empty() + texts);
            assert((line_indexes(reading.others) + root_indexes(reading.roots)).len() == 0);
            lemma_next_line(representations, caps, reading, 0);
        }
    } else {
        lemma_sound(representations, caps, replies.drop_last());
        let before = manifest_after(representations, caps, replies.drop_last());
        let count = replies.len() - 1;
        match (before, replies.last()) {
            (ManifestView::Reading { reading, line }, ManifestReplyView::Classified(named)) => {
                lemma_classified(representations, caps, reading, line, named, count + 1);
            },
            (ManifestView::Expanding { traversal }, ManifestReplyView::Traversed(answer)) => {
                let (given, answers) = choose|given: Selection, answers: Seq<ReplyView>| #[trigger]
                    reached(representations, caps, traversal, given, answers, count);
                let more = answers.push(answer);
                assert(more.drop_last() == answers);
                assert(given.expanded(more) == traversal.step(answer));
                assert(reached(
                    representations,
                    caps,
                    traversal.step(answer),
                    given,
                    more,
                    count + 1,
                ));
                lemma_expanding(representations, caps, traversal.step(answer), count + 1);
            },
            _ => {
                lemma_later(representations, caps, before, count);
            },
        }
    }
}

proof fn lemma_later(
    representations: Seq<ObservedClipboardRepresentation>,
    caps: FileSetCaps,
    state: ManifestView,
    replies: int,
)
    requires
        sound(representations, caps, state, replies),
    ensures
        sound(representations, caps, state, replies + 1),
{
    match state {
        ManifestView::Expanding { traversal } => {
            lemma_reached_later(representations, caps, traversal, replies);
        },
        ManifestView::Finished { file_set: Some(lines) } => {
            let traversal = choose|traversal: TraversalView|
                #![trigger traversal->lines]
                traversal is Finished && traversal->lines == lines && is_reached(
                    representations,
                    caps,
                    traversal,
                    replies,
                );
            lemma_reached_later(representations, caps, traversal, replies);
        },
        _ => {},
    }
}

proof fn lemma_reached_later(
    representations: Seq<ObservedClipboardRepresentation>,
    caps: FileSetCaps,
    traversal: TraversalView,
    replies: int,
)
    requires
        is_reached(representations, caps, traversal, replies),
    ensures
        is_reached(representations, caps, traversal, replies + 1),
{
    let (given, answers) = choose|given: Selection, answers: Seq<ReplyView>| #[trigger]
        reached(representations, caps, traversal, given, answers, replies);
    assert(reached(representations, caps, traversal, given, answers, replies + 1));
}

/// There is a manifest exactly where the snapshot carries files.
pub proof fn manifest_exists_for_files(
    representations: Seq<ObservedClipboardRepresentation>,
    caps: FileSetCaps,
    replies: Seq<ManifestReplyView>,
)
    requires
        named_texts(representations).len() <= i64::MAX,
        manifest_after(representations, caps, replies) is Finished,
    ensures
        manifest_after(representations, caps, replies)->file_set is Some <==> carries_files(
            representations,
        ),
{
    lemma_sound(representations, caps, replies);
}

/// The lines of a manifest stand in the order of their indexes, and no two
/// have the same one.
pub proof fn manifest_order_is_fixed(
    representations: Seq<ObservedClipboardRepresentation>,
    caps: FileSetCaps,
    replies: Seq<ManifestReplyView>,
)
    requires
        named_texts(representations).len() + replies.len() <= i64::MAX,
        manifest_after(representations, caps, replies) is Finished,
        manifest_after(representations, caps, replies)->file_set is Some,
    ensures
        ({
            let lines = manifest_after(representations, caps, replies)->file_set->0;
            &&& is_sorted(lines, line_order())
            &&& line_indexes(lines).no_duplicates()
        }),
{
    lemma_sound(representations, caps, replies);
    let texts = named_texts(representations);
    let lines = manifest_after(representations, caps, replies)->file_set->0;
    let traversal = choose|traversal: TraversalView|
        #![trigger traversal->lines]
        traversal is Finished && traversal->lines == lines && is_reached(
            representations,
            caps,
            traversal,
            replies.len() as int,
        );
    let (given, answers) = choose|given: Selection, answers: Seq<ReplyView>| #[trigger]
        reached(representations, caps, traversal, given, answers, replies.len() as int);
    manifest_is_sorted(given, answers);
    let both = line_indexes(given.lines) + root_indexes(given.roots);
    assert forall|i: int| 0 <= i < both.len() implies #[trigger] both[i]
        < given.top_level_count by {
        if i < given.lines.len() {
            assert(both[i] == given.lines[i].line_index);
        } else {
            assert(both[i] == given.roots[i - given.lines.len()].line_index);
        }
    }
    manifest_indexes_are_distinct(given, answers);
}

/// Nothing that the clipboard names is lost: every copied file and every
/// other line of a listing is in the manifest with a line that carries its
/// text.
pub proof fn manifest_keeps_every_text(
    representations: Seq<ObservedClipboardRepresentation>,
    caps: FileSetCaps,
    replies: Seq<ManifestReplyView>,
    i: int,
)
    requires
        named_texts(representations).len() <= i64::MAX,
        manifest_after(representations, caps, replies) is Finished,
        manifest_after(representations, caps, replies)->file_set is Some,
        0 <= i < named_texts(representations).len(),
    ensures
        exists|m: int|
            #![trigger manifest_after(representations, caps, replies)->file_set->0[m]]
            0 <= m < manifest_after(representations, caps, replies)->file_set->0.len()
                && manifest_after(representations, caps, replies)->file_set->0[m].original_text
                == named_texts(representations)[i],
{
    lemma_sound(representations, caps, replies);
    let texts = named_texts(representations);
    let lines = manifest_after(representations, caps, replies)->file_set->0;
    let traversal = choose|traversal: TraversalView|
        #![trigger traversal->lines]
        traversal is Finished && traversal->lines == lines && is_reached(
            representations,
            caps,
            traversal,
            replies.len() as int,
        );
    let (given, answers) = choose|given: Selection, answers: Seq<ReplyView>| #[trigger]
        reached(representations, caps, traversal, given, answers, replies.len() as int);
    let l = line_indexes(given.lines);
    let r = root_indexes(given.roots);
    if l.contains(i as i64) {
        let k = choose|k: int| 0 <= k < l.len() && l[k] == i as i64;
        let line = given.lines[k];
        assert(given.lines.contains(line));
        given_lines_are_kept(given, answers, line);
        let m = choose|m: int| 0 <= m < lines.len() && lines[m] == line;
        assert(lines[m].original_text == texts[i]);
    } else {
        let k = choose|k: int| 0 <= k < r.len() && r[k] == i as i64;
        let root = given.roots[k];
        assert(given.roots.contains(root));
        every_root_has_a_line(given, answers, root);
        let m = choose|m: int| 0 <= m < lines.len() && #[trigger] line_belongs_to(root, lines[m]);
        assert(lines[m].original_text == texts[i]);
    }
}

} // verus!

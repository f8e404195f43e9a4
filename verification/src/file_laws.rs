//! What is made of names, metadata and roots.

use crate::file_set::{
    ContentHash, EntryFileSetExcludeReason, EntryFileSetLine, EntryFileSetLineKind,
    ExpansionFailure, FileSetCaps, PendingFileSetLine, TopLevelFileMember, TraversalBudget,
    classify_file_path, directory_marker, excluded_root_line, line_index_after, pending_flat_file, pending_member,
    pending_missing_file, pending_root_marker, take_line_index,
};
use crate::files::{
    DirectoryEntry, FileMetadata, FilePath, FileSetMemberKind, PathView, basename, joined_path,
    member_kind, name_or_dot, normalized_basename, shown_relative_path,
};
use crate::sorting::{lemma_rank_order, rank_order, sort, sort_is_sorted, sort_keeps_members};
use crate::traversal_steps::{
    comes_first, excluded_root, index_behind, is_over, kind_by_bits, member_line, name_of,
    names_are_ordered_by_bytes, one_more, path_below, path_shown, root_line,
};
use crate::unicode::nfc_form;
use crate::views::view_inside;
use std::collections::VecDeque;
use vstd::prelude::*;

verus! {

/// A path is copied with its bytes and its name.
pub proof fn copies_of_paths_are_the_same(path: FilePath, r: FilePath)
    requires
        call_ensures(FilePath::duplicate, (&path,), r),
    ensures
        r.raw@ == path.raw@,
        r.file_name is Some <==> path.file_name is Some,
        path.file_name matches Some(name) ==> r.file_name->0@ == name@,
{
    assert(r@.raw == path@.raw && r@.file_name == path@.file_name);
}

/// A name stands for itself; where there is none, a dot does.
pub proof fn names_fall_back_to_a_dot(
    normalized: Option<String>,
    r: String,
    path: FilePath,
    base: String,
)
    requires
        call_ensures(name_or_dot, (normalized,), r),
        call_ensures(normalized_basename, (&path,), base),
    ensures
        normalized matches Some(name) ==> r@ == name@,
        normalized is None ==> r@ == seq!['.'],
        path.file_name matches Some(name) ==> base@ == nfc_form(name@),
        path.file_name is None ==> base@ == seq!['.'],
{
}

/// Below a root that is written as nothing, a name stands alone; below any
/// other directory it stands behind a slash. The root itself is shown as a
/// dot.
pub proof fn paths_are_joined_by_slashes(
    directory: String,
    name: String,
    joined: String,
    shown: String,
)
    requires
        call_ensures(joined_path, (&directory, name), joined),
        call_ensures(shown_relative_path, (&directory,), shown),
    ensures
        joined@ == path_below(directory@, name@),
        shown@ == path_shown(directory@),
{
}

/// A file is executable where one of the execute bits is set, and never where
/// there are no bits.
pub proof fn executables_are_told_by_bits(metadata: FileMetadata, r: FileSetMemberKind)
    requires
        call_ensures(member_kind, (&metadata,), r),
    ensures
        r == kind_by_bits(metadata.mode),
        r != FileSetMemberKind::EmptyDirectory,
{
    if let Some(bits) = metadata.mode {
        assert((bits & 0o111 != 0) == (bits & 0o100 != 0 || bits & 0o010 != 0 || bits & 0o001 != 0))
            by (bit_vector);
    }
}

/// A file that was hashed is listed by its content, one that could not be
/// read is excluded for that, and in a set over its caps everything is
/// excluded for its size.
pub proof fn files_are_classified_by_their_hash(
    hashed: Option<ContentHash>,
    over_cap: bool,
    r: EntryFileSetLineKind,
)
    requires
        call_ensures(classify_file_path, (hashed, over_cap), r),
    ensures
        over_cap ==> r == (EntryFileSetLineKind::Excluded {
            reason: EntryFileSetExcludeReason::SizeCapExceeded,
        }),
        !over_cap && hashed is None ==> r == (EntryFileSetLineKind::Excluded {
            reason: EntryFileSetExcludeReason::IngestFailed,
        }),
        !over_cap ==> (hashed matches Some(hash) ==> (r matches EntryFileSetLineKind::File {
            content_hash,
            blob_id,
            size_bytes,
        } && content_hash == hash && blob_id is None && size_bytes is None)),
{
}

/// A failure is the reason of the same name.
pub proof fn reasons_are_those_of_the_failure(
    failure: ExpansionFailure,
    r: EntryFileSetExcludeReason,
)
    requires
        call_ensures(ExpansionFailure::exclude_reason, (failure,), r),
    ensures
        failure is SizeCapExceeded <==> r is SizeCapExceeded,
        failure is UnsupportedMember <==> r is UnsupportedMember,
        failure is IngestFailed <==> r is IngestFailed,
{
}

/// A root is found under its own index and its name, with its path where it
/// can be hashed.
pub proof fn roots_are_found_under_their_name(
    root: TopLevelFileMember,
    metadata: FileMetadata,
    file: PendingFileSetLine,
    missing: PendingFileSetLine,
    line_index: i64,
    marker: PendingFileSetLine,
    reason: EntryFileSetExcludeReason,
    left_out: EntryFileSetLine,
)
    requires
        call_ensures(pending_flat_file, (root, metadata), file),
        call_ensures(pending_missing_file, (root,), missing),
        call_ensures(pending_root_marker, (root, line_index), marker),
        call_ensures(excluded_root_line, (root, reason), left_out),
    ensures
        file@ == root_line(root@, kind_by_bits(metadata.mode), Some(root.path@)),
        missing@ == root_line(root@, FileSetMemberKind::File, Some(root.path@)),
        marker@ == member_line(root@, line_index, seq!['.'], FileSetMemberKind::File, None),
        left_out@ == excluded_root(root@, reason),
{
    if let Some(bits) = metadata.mode {
        assert((bits & 0o111 != 0) == (bits & 0o100 != 0 || bits & 0o010 != 0 || bits & 0o001 != 0))
            by (bit_vector);
    }
}

/// A member is found where it stands below its root, and a line is finished
/// as it was found.
pub proof fn members_are_found_where_they_stand(
    root: TopLevelFileMember,
    line_index: i64,
    relative_path: String,
    kind: FileSetMemberKind,
    file_path: Option<FilePath>,
    found: PendingFileSetLine,
    line_kind: EntryFileSetLineKind,
    finished: EntryFileSetLine,
)
    requires
        call_ensures(pending_member, (&root, line_index, relative_path, kind, file_path), found),
        call_ensures(PendingFileSetLine::finished, (found, line_kind), finished),
    ensures
        found@ == member_line(root@, line_index, relative_path@, kind, view_inside(file_path)),
        finished@.line_index == line_index,
        finished@.original_text == root@.original_text,
        finished@.member_location == Some(found@.member_location),
        finished@.kind == line_kind,
{
}

/// Indexes go up by one, up to the largest; a budget starts at nothing.
pub proof fn indexes_go_up_by_one(index: i64, budget: TraversalBudget)
    requires
        call_ensures(TraversalBudget::default, (), budget),
    ensures
        line_index_after(index) == index_behind(index),
        budget.member_count == 0 && budget.total_bytes == 0,
{
}

/// A root's name is that of its path.
pub proof fn basenames_are_names(path: PathView)
    ensures
        basename(path) == name_of(path),
{
}

/// Sorted lines stand by index and sorted entries by name, byte by byte;
/// nothing is lost and nothing is added.
pub proof fn lines_and_entries_are_put_in_order(
    lines: Vec<EntryFileSetLine>,
    by_line: VecDeque<EntryFileSetLine>,
    entries: Vec<DirectoryEntry>,
    by_name: VecDeque<DirectoryEntry>,
)
    requires
        call_ensures(sort::<EntryFileSetLine>, (lines,), by_line),
        call_ensures(sort::<DirectoryEntry>, (entries,), by_name),
    ensures
        by_line@.to_multiset() == lines@.to_multiset(),
        forall|i: int, j: int|
            0 <= i < j < by_line@.len() ==> (#[trigger] by_line@[i]).line_index <= (
            #[trigger] by_line@[j]).line_index,
        by_name@.to_multiset() == entries@.to_multiset(),
        forall|i: int, j: int|
            0 <= i < j < by_name@.len() ==> comes_first(
                (#[trigger] by_name@[i]).raw_name@,
                (#[trigger] by_name@[j]).raw_name@,
            ),
{
    lemma_rank_order::<EntryFileSetLine>();
    lemma_rank_order::<DirectoryEntry>();
    sort_keeps_members(lines@, rank_order::<EntryFileSetLine>());
    sort_keeps_members(entries@, rank_order::<DirectoryEntry>());
    sort_is_sorted(lines@, rank_order::<EntryFileSetLine>());
    sort_is_sorted(entries@, rank_order::<DirectoryEntry>());
    assert forall|i: int, j: int| 0 <= i < j < by_line@.len() implies (
    #[trigger] by_line@[i]).line_index <= (#[trigger] by_line@[j]).line_index by {
        let leq = rank_order::<EntryFileSetLine>();
        assert(leq(by_line@[i], by_line@[j]));
    }
    assert forall|i: int, j: int| 0 <= i < j < by_name@.len() implies comes_first(
        (#[trigger] by_name@[i]).raw_name@,
        (#[trigger] by_name@[j]).raw_name@,
    ) by {
        let leq = rank_order::<DirectoryEntry>();
        assert(leq(by_name@[i], by_name@[j]));
        names_are_ordered_by_bytes(by_name@[i].raw_name@, by_name@[j].raw_name@);
    }
}

/// Taking an index hands it out and goes on to the next; a marker takes one,
/// and stands for the place at which an expansion gave up.
pub proof fn taken_indexes_go_up(
    next: &mut i64,
    r: i64,
    root: TopLevelFileMember,
    index: &mut i64,
    relative_path: String,
    marker: PendingFileSetLine,
)
    requires
        call_ensures(take_line_index, (next,), r),
        call_ensures(directory_marker, (&root, index, &relative_path), marker),
    ensures
        r == *old(next),
        *final(next) == index_behind(*old(next)),
        marker@ == member_line(
            root@,
            *old(index),
            path_shown(relative_path@),
            FileSetMemberKind::File,
            None,
        ),
        *final(index) == index_behind(*old(index)),
{
}

/// Admitting a member counts it and its bytes, and says whether the set is
/// then over its caps.
pub proof fn admitted_members_are_counted(
    budget: &mut TraversalBudget,
    size: u64,
    caps: FileSetCaps,
    over: bool,
)
    requires
        call_ensures(TraversalBudget::admit_member, (budget, size, caps), over),
    ensures
        *final(budget) == one_more(*old(budget), size),
        over == is_over(one_more(*old(budget), size), caps),
{
}

} // verus!

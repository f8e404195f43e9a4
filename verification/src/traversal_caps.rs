//! When a set is found too large, and when it is given up for another reason.

use crate::file_set::{
    EntryFileSetLineKind, ExpansionFailure, FileSetCaps, TraversalBudget, kind_of_hash,
};
use crate::files::{FileMetadata, FileSetMemberKind, kind_of_mode, shown_path};
use crate::traversal::{ProgressView, ReplyView, TraversalView, WalkView};
use crate::traversal_laws::Selection;
use vstd::prelude::*;

verus! {

/// The size of the member that an answer brings, where it brings one. A
/// directory that holds nothing is a member of no size.
pub open spec fn member_brought(state: TraversalView, reply: ReplyView) -> Option<u64> {
    match (state, reply) {
        (TraversalView::Root { progress, root }, ReplyView::Inspected(None)) => Some(
            match root.known_size {
                Some(size) => size,
                None => 0,
            },
        ),
        (TraversalView::Root { progress, root }, ReplyView::Inspected(Some(found))) =>
            if is_plain_file(found) {
                Some(
                    match root.known_size {
                        Some(size) => size,
                        None => found.len,
                    },
                )
            } else {
                None
            },
        (TraversalView::Listing { progress, walk, directory }, ReplyView::Listed(Some(entries))) =>
            if entries.len() == 0 {
                Some(0)
            } else {
                None
            },
        (
            TraversalView::Member { progress, walk, relative_directory, rest, member },
            ReplyView::Inspected(Some(found)),
        ) => if is_plain_file(found) {
            Some(found.len)
        } else {
            None
        },
        _ => None,
    }
}

/// What was found is a file, and no link to one.
pub open spec fn is_plain_file(found: FileMetadata) -> bool {
    !found.symlink && !found.directory && found.regular
}

impl Selection {
    /// How many members a series of answers has brought.
    pub open spec fn members(self, replies: Seq<ReplyView>) -> nat
        decreases replies.len(),
    {
        if replies.len() == 0 {
            0
        } else {
            let before = replies.drop_last();
            self.members(before) + match member_brought(self.expanded(before), replies.last()) {
                Some(size) => 1nat,
                None => 0nat,
            }
        }
    }

    /// How many bytes these members have.
    pub open spec fn bytes(self, replies: Seq<ReplyView>) -> nat
        decreases replies.len(),
    {
        if replies.len() == 0 {
            0
        } else {
            let before = replies.drop_last();
            self.bytes(before) + match member_brought(self.expanded(before), replies.last()) {
                Some(size) => size as nat,
                None => 0nat,
            }
        }
    }
}

spec fn capped(n: nat) -> u64 {
    if n > u64::MAX {
        u64::MAX
    } else {
        n as u64
    }
}

/// The budget after so many members with so many bytes.
spec fn budget_of(members: nat, bytes: nat) -> TraversalBudget {
    TraversalBudget { member_count: capped(members), total_bytes: capped(bytes) }
}

spec fn in_budget(caps: FileSetCaps, p: ProgressView, members: nat, bytes: nat) -> bool {
    p.caps == caps && p.budget == budget_of(members, bytes) && !p.budget.exceeds(caps)
}

spec fn tallied(given: Selection, state: TraversalView, members: nat, bytes: nat) -> bool {
    match state {
        TraversalView::Root { progress, root } => in_budget(given.caps, progress, members, bytes),
        TraversalView::Listing { progress, walk, directory } => in_budget(
            given.caps,
            progress,
            members,
            bytes,
        ),
        TraversalView::Member { progress, walk, relative_directory, rest, member } => in_budget(
            given.caps,
            progress,
            members,
            bytes,
        ),
        TraversalView::Hashing { progress, line, path } => in_budget(
            given.caps,
            progress,
            members,
            bytes,
        ),
        TraversalView::Finished { lines, failure } => match failure {
            None => !budget_of(members, bytes).exceeds(given.caps),
            Some(ExpansionFailure::SizeCapExceeded) => budget_of(members, bytes).exceeds(given.caps)
                || has_too_many_roots(given),
            Some(_) => true,
        },
    }
}

/// More was copied than members are allowed.
pub open spec fn has_too_many_roots(given: Selection) -> bool {
    given.caps.max_member_count > 0 && given.roots.len() > given.caps.max_member_count
}

proof fn lemma_next_hash(given: Selection, p: ProgressView, members: nat, bytes: nat)
    requires
        in_budget(given.caps, p, members, bytes),
    ensures
        tallied(given, p.next_hash(), members, bytes),
    decreases p.pending.len(),
{
    if p.pending.len() > 0 && p.pending[0].file_path is None {
        lemma_next_hash(
            given,
            ProgressView {
                lines: p.lines.push(p.pending[0].of_kind(EntryFileSetLineKind::NonFile)),
                pending: p.pending.drop_first(),
                ..p
            },
            members,
            bytes,
        );
    }
}

proof fn lemma_next_root(given: Selection, p: ProgressView, members: nat, bytes: nat)
    requires
        in_budget(given.caps, p, members, bytes),
    ensures
        tallied(given, p.next_root(), members, bytes),
{
    lemma_next_hash(given, p, members, bytes);
}

proof fn lemma_next_directory(
    given: Selection,
    p: ProgressView,
    walk: WalkView,
    members: nat,
    bytes: nat,
)
    requires
        in_budget(given.caps, p, members, bytes),
    ensures
        tallied(given, p.next_directory(walk), members, bytes),
{
    lemma_next_root(
        given,
        ProgressView { pending: p.pending + walk.members, ..p },
        members,
        bytes,
    );
}

proof fn lemma_counted(members: nat, bytes: nat, size: u64)
    ensures
        budget_of(members, bytes).after(size) == budget_of(members + 1, bytes + size as nat),
{
}

proof fn lemma_step_tallied(
    given: Selection,
    state: TraversalView,
    reply: ReplyView,
    members: nat,
    bytes: nat,
)
    requires
        tallied(given, state, members, bytes),
    ensures
        tallied(
            given,
            state.step(reply),
            members + match member_brought(state, reply) {
                Some(size) => 1nat,
                None => 0nat,
            },
            bytes + match member_brought(state, reply) {
                Some(size) => size as nat,
                None => 0nat,
            },
        ),
{
    if let Some(size) = member_brought(state, reply) {
        lemma_counted(members, bytes, size);
    }
    match (state, reply) {
        (TraversalView::Root { progress, root }, ReplyView::Inspected(found)) => {
            lemma_next_directory(given, progress, WalkView::at(root), members, bytes);
            if let Some(size) = member_brought(state, reply) {
                let line = match found {
                    None => root.missing_file(),
                    Some(metadata) => root.flat_file(metadata),
                };
                let next = progress.counted(size).found(line);
                if !next.budget.exceeds(given.caps) {
                    lemma_next_root(given, next, members + 1, bytes + size as nat);
                }
            }
        },
        (TraversalView::Listing { progress, walk, directory }, ReplyView::Listed(Some(entries))) => {
            if entries.len() == 0 {
                let next = progress.line_taken().counted(0);
                if !next.budget.exceeds(given.caps) {
                    let marker = walk.root.member(
                        progress.next_line,
                        shown_path(directory.relative_path),
                        FileSetMemberKind::EmptyDirectory,
                        None,
                    );
                    lemma_next_directory(given, next, walk.found(marker), members + 1, bytes);
                }
            } else {
                lemma_next_directory(given, progress, walk, members, bytes);
            }
        },
        (
            TraversalView::Member { progress, walk, relative_directory, rest, member },
            ReplyView::Inspected(Some(found)),
        ) => {
            lemma_next_directory(
                given,
                progress,
                WalkView { queue: walk.queue.push(member), ..walk },
                members,
                bytes,
            );
            if is_plain_file(found) {
                let line = walk.root.member(
                    progress.next_line,
                    member.relative_path,
                    kind_of_mode(found.mode),
                    Some(member.path),
                );
                let next = progress.line_taken().counted(found.len);
                if !next.budget.exceeds(given.caps) {
                    lemma_next_directory(
                        given,
                        next,
                        walk.found(line),
                        members + 1,
                        bytes + found.len as nat,
                    );
                }
            }
        },
        (TraversalView::Hashing { progress, line, path }, ReplyView::Hashed(hash)) => {
            lemma_next_hash(
                given,
                ProgressView {
                    lines: progress.lines.push(
                        line.of_kind(kind_of_hash(hash, false)),
                    ),
                    ..progress
                },
                members,
                bytes,
            );
        },
        _ => {},
    }
}

proof fn lemma_tallied(given: Selection, replies: Seq<ReplyView>)
    ensures
        tallied(given, given.expanded(replies), given.members(replies), given.bytes(replies)),
    decreases replies.len(),
{
    if replies.len() == 0 {
        let progress = ProgressView {
            caps: given.caps,
            lines: given.lines,
            roots: given.roots,
            budget: TraversalBudget::unused(),
            pending: seq![],
            next_line: given.top_level_count,
        };
        lemma_next_root(given, progress, 0, 0);
    } else {
        let before = replies.drop_last();
        lemma_tallied(given, before);
        lemma_step_tallied(
            given,
            given.expanded(before),
            replies.last(),
            given.members(before),
            given.bytes(before),
        );
    }
}

/// A set that was expanded to its end has no more members, and no more bytes,
/// than its caps allow. (The largest cap of all cannot be told from a count
/// that has reached its limit.)
pub proof fn whole_sets_fit_their_caps(given: Selection, replies: Seq<ReplyView>)
    requires
        given.expanded(replies) is Finished,
        given.expanded(replies)->failure is None,
    ensures
        0 < given.caps.max_member_count < u64::MAX ==> given.members(replies)
            <= given.caps.max_member_count,
        0 < given.caps.max_total_bytes < u64::MAX ==> given.bytes(replies)
            <= given.caps.max_total_bytes,
{
    lemma_tallied(given, replies);
}

/// Only a set that is over a cap is given up as too large: more was copied,
/// or more members or bytes were found, than it allows.
pub proof fn only_sets_over_their_caps_are_too_large(given: Selection, replies: Seq<ReplyView>)
    requires
        given.expanded(replies) is Finished,
        given.expanded(replies)->failure == Some(ExpansionFailure::SizeCapExceeded),
    ensures
        has_too_many_roots(given) || (given.caps.max_member_count > 0 && given.members(replies)
            > given.caps.max_member_count) || (given.caps.max_total_bytes > 0 && given.bytes(
            replies,
        ) > given.caps.max_total_bytes),
{
    lemma_tallied(given, replies);
}

/// A symbolic link, or anything else that is neither a file nor a directory,
/// ends the expansion where it is found. A link is not followed.
pub proof fn unsupported_members_end_the_expansion(state: TraversalView, found: FileMetadata)
    requires
        state is Root || state is Member,
        found.symlink || !found.directory && !found.regular,
    ensures
        ({
            let next = state.step(ReplyView::Inspected(Some(found)));
            next is Finished && next->failure == Some(ExpansionFailure::UnsupportedMember)
        }),
{
}

/// So does a directory that cannot be read, and a member of one that cannot
/// be looked at.
pub proof fn unreadable_members_end_the_expansion(state: TraversalView, reply: ReplyView)
    requires
        state is Listing && reply == ReplyView::Listed(None) || state is Member && reply
            == ReplyView::Inspected(None),
    ensures
        state.step(reply) is Finished,
        state.step(reply)->failure == Some(ExpansionFailure::IngestFailed),
{
}

} // verus!

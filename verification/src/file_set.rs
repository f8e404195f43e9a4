//! The line-level manifest of a captured set of files, and the caps that
//! bound what is expanded into it.

use crate::files::{
    FileMetadata, FilePath, FileSetMemberKind, PathView, basename, dot, kind_of_mode, member_kind,
    normalized_basename, shown_path, shown_relative_path,
};
use crate::sorting::{Ranked, is_ranking};
use crate::views::view_inside;
use vstd::prelude::*;

verus! {

/// The digest of a file's content.
#[derive(Clone, Copy, Debug, PartialEq, Eq)]
pub struct ContentHash {
    pub bytes: [u8; 32],
}

/// The identity of a blob in the blob store.
#[derive(Debug, PartialEq, Eq)]
pub struct BlobId {
    pub text: String,
}

/// Why a line of a manifest takes no part in synchronization.
#[derive(Clone, Copy, Debug, PartialEq, Eq, Structural)]
pub enum EntryFileSetExcludeReason {
    /// The content could not be read.
    IngestFailed,
    /// The whole set is larger than the caps allow.
    SizeCapExceeded,
    /// The set holds a symbolic link, a special file or a name that cannot be
    /// carried over.
    UnsupportedMember,
}

/// What a line of a manifest stands for.
#[derive(Debug, PartialEq, Eq)]
pub enum EntryFileSetLineKind {
    /// A file with known content. Blob and size are filled in when the file
    /// is published.
    File { content_hash: ContentHash, blob_id: Option<BlobId>, size_bytes: Option<u64> },
    /// No file: a blank or comment line, or an empty directory.
    NonFile,
    /// A file that takes no part in synchronization.
    Excluded { reason: EntryFileSetExcludeReason },
}

/// Where a member stands in the set.
#[derive(Debug, PartialEq, Eq)]
pub struct FileSetMemberLocation {
    /// Which of the copied files and directories the member belongs to.
    pub root_index: i64,
    pub root_name: String,
    /// The member's path below its root, with `/` between the names.
    pub relative_path: String,
    pub kind: FileSetMemberKind,
}

/// A member's place, as contracts speak of it.
pub struct LocationView {
    pub root_index: i64,
    pub root_name: Seq<char>,
    pub relative_path: Seq<char>,
    pub kind: FileSetMemberKind,
}

impl View for FileSetMemberLocation {
    type V = LocationView;

    open spec fn view(&self) -> LocationView {
        LocationView {
            root_index: self.root_index,
            root_name: self.root_name@,
            relative_path: self.relative_path@,
            kind: self.kind,
        }
    }
}

/// One line of a manifest.
#[derive(Debug, PartialEq, Eq)]
pub struct EntryFileSetLine {
    pub line_index: i64,
    pub original_text: String,
    pub member_location: Option<FileSetMemberLocation>,
    pub kind: EntryFileSetLineKind,
}

/// A line of a manifest, as contracts speak of it.
pub struct LineView {
    pub line_index: i64,
    pub original_text: Seq<char>,
    pub member_location: Option<LocationView>,
    pub kind: EntryFileSetLineKind,
}

impl View for EntryFileSetLine {
    type V = LineView;

    open spec fn view(&self) -> LineView {
        LineView {
            line_index: self.line_index,
            original_text: self.original_text@,
            member_location: view_inside(self.member_location),
            kind: self.kind,
        }
    }
}

/// The order of the lines of a manifest.
pub open spec fn line_order() -> spec_fn(LineView, LineView) -> bool {
    |a: LineView, b: LineView| a.line_index <= b.line_index
}

/// Lines can be put in order: any two can be compared, and the order carries
/// over.
pub proof fn line_order_is_ranking()
    ensures
        is_ranking(line_order()),
{
}

impl Ranked for EntryFileSetLine {
    open spec fn at_most(self, other: Self) -> bool {
        self.line_index <= other.line_index
    }

    proof fn rank_is_total(a: Self, b: Self) {
    }

    proof fn rank_is_transitive(a: Self, b: Self, c: Self) {
    }

    fn ranks_at_most(&self, other: &Self) -> bool {
        self.line_index <= other.line_index
    }
}

/// The manifest of one clipboard entry, its lines by line index.
#[derive(Debug, PartialEq, Eq)]
pub struct EntryFileSet {
    pub lines: Vec<EntryFileSetLine>,
}

/// Caps on a whole set. Zero means that there is no cap.
#[derive(Clone, Copy, Debug, PartialEq, Eq, Structural)]
pub struct FileSetCaps {
    /// The most bytes that all members together may have.
    pub max_total_bytes: u64,
    /// The most members that a set may have.
    pub max_member_count: u64,
}

impl FileSetCaps {
    /// The caps for a capture whose settings cannot be loaded: 1 GiB and 2000
    /// members. A passing error neither stops file capture nor lets it run
    /// through a directory tree of any size.
    pub fn fallback() -> (r: Self)
        ensures
            r.max_total_bytes == 1024 * 1024 * 1024,
            r.max_member_count == 2000,
    {
        FileSetCaps { max_total_bytes: 1024 * 1024 * 1024, max_member_count: 2000 }
    }

    /// No cap in either respect.
    pub fn unbounded() -> (r: Self)
        ensures
            r.max_total_bytes == 0,
            r.max_member_count == 0,
    {
        FileSetCaps { max_total_bytes: 0, max_member_count: 0 }
    }
}

/// What has been expanded so far.
#[derive(Clone, Copy, Debug, PartialEq, Eq, Structural)]
pub struct TraversalBudget {
    pub member_count: u64,
    pub total_bytes: u64,
}

/// `a + b`, or the largest value where the sum is larger.
pub open spec fn saturated(a: u64, b: u64) -> u64 {
    if a + b > u64::MAX {
        u64::MAX
    } else {
        (a + b) as u64
    }
}

impl TraversalBudget {
    /// The budget before anything was expanded.
    pub open spec fn unused() -> Self {
        TraversalBudget { member_count: 0, total_bytes: 0 }
    }

    /// The budget after one more member of the given size.
    pub open spec fn after(self, size_bytes: u64) -> Self {
        TraversalBudget {
            member_count: saturated(self.member_count, 1),
            total_bytes: saturated(self.total_bytes, size_bytes),
        }
    }

    /// More has been expanded than the caps allow.
    pub open spec fn exceeds(self, caps: FileSetCaps) -> bool {
        ||| caps.max_member_count > 0 && self.member_count > caps.max_member_count
        ||| caps.max_total_bytes > 0 && self.total_bytes > caps.max_total_bytes
    }

    /// Counts one more member of `size_bytes`, and says whether the set is
    /// now over its caps.
    pub fn admit_member(&mut self, size_bytes: u64, caps: FileSetCaps) -> (over: bool)
        ensures
            *final(self) == old(self).after(size_bytes),
            over == final(self).exceeds(caps),
    {
        self.member_count = self.member_count.saturating_add(1);
        self.total_bytes = self.total_bytes.saturating_add(size_bytes);
        (caps.max_member_count > 0 && self.member_count > caps.max_member_count) || (
        caps.max_total_bytes > 0 && self.total_bytes > caps.max_total_bytes)
    }
}

impl Default for TraversalBudget {
    fn default() -> (r: Self)
        ensures
            r == TraversalBudget::unused(),
    {
        TraversalBudget { member_count: 0, total_bytes: 0 }
    }
}

/// One of the copied files or directories.
pub struct TopLevelFileMember {
    pub line_index: i64,
    pub root_index: i64,
    pub original_text: String,
    pub root_name: String,
    pub path: FilePath,
    /// The size, where the clipboard came with it.
    pub known_size: Option<u64>,
}

/// A copied file or directory, as contracts speak of it.
pub struct RootView {
    pub line_index: i64,
    pub root_index: i64,
    pub original_text: Seq<char>,
    pub root_name: Seq<char>,
    pub path: PathView,
    pub known_size: Option<u64>,
}

impl View for TopLevelFileMember {
    type V = RootView;

    open spec fn view(&self) -> RootView {
        RootView {
            line_index: self.line_index,
            root_index: self.root_index,
            original_text: self.original_text@,
            root_name: self.root_name@,
            path: self.path@,
            known_size: self.known_size,
        }
    }
}

/// A line whose content is still to be looked at. A line without a path has
/// no content.
pub struct PendingFileSetLine {
    pub line_index: i64,
    pub original_text: String,
    pub member_location: FileSetMemberLocation,
    pub file_path: Option<FilePath>,
}

/// A pending line, as contracts speak of it.
pub struct PendingView {
    pub line_index: i64,
    pub original_text: Seq<char>,
    pub member_location: LocationView,
    pub file_path: Option<PathView>,
}

impl View for PendingFileSetLine {
    type V = PendingView;

    open spec fn view(&self) -> PendingView {
        PendingView {
            line_index: self.line_index,
            original_text: self.original_text@,
            member_location: self.member_location@,
            file_path: view_inside(self.file_path),
        }
    }
}

impl PendingView {
    /// The finished line of the given kind.
    pub open spec fn of_kind(self, kind: EntryFileSetLineKind) -> LineView {
        LineView {
            line_index: self.line_index,
            original_text: self.original_text,
            member_location: Some(self.member_location),
            kind,
        }
    }
}

impl PendingFileSetLine {
    /// The finished line of the given kind.
    pub fn finished(self, kind: EntryFileSetLineKind) -> (r: EntryFileSetLine)
        ensures
            r@ == self@.of_kind(kind),
    {
        EntryFileSetLine {
            line_index: self.line_index,
            original_text: self.original_text,
            member_location: Some(self.member_location),
            kind,
        }
    }
}

/// Why an expansion was given up.
#[derive(Clone, Copy, Debug, PartialEq, Eq, Structural)]
pub enum ExpansionFailure {
    SizeCapExceeded,
    UnsupportedMember,
    IngestFailed,
}

impl ExpansionFailure {
    /// The reason that the lines of such a set carry.
    pub open spec fn reason(self) -> EntryFileSetExcludeReason {
        match self {
            ExpansionFailure::SizeCapExceeded => EntryFileSetExcludeReason::SizeCapExceeded,
            ExpansionFailure::UnsupportedMember => EntryFileSetExcludeReason::UnsupportedMember,
            ExpansionFailure::IngestFailed => EntryFileSetExcludeReason::IngestFailed,
        }
    }

    /// The reason that the lines of such a set carry.
    pub fn exclude_reason(self) -> (r: EntryFileSetExcludeReason)
        ensures
            r == self.reason(),
    {
        match self {
            ExpansionFailure::SizeCapExceeded => EntryFileSetExcludeReason::SizeCapExceeded,
            ExpansionFailure::UnsupportedMember => EntryFileSetExcludeReason::UnsupportedMember,
            ExpansionFailure::IngestFailed => EntryFileSetExcludeReason::IngestFailed,
        }
    }
}

impl RootView {
    /// The root as a member of the set, with nothing below it looked at.
    pub open spec fn as_flat(
        self,
        kind: FileSetMemberKind,
        file_path: Option<PathView>,
    ) -> PendingView {
        PendingView {
            line_index: self.line_index,
            original_text: self.original_text,
            member_location: LocationView {
                root_index: self.root_index,
                root_name: self.root_name,
                relative_path: basename(self.path),
                kind,
            },
            file_path,
        }
    }

    /// A member of the directory that this root is.
    pub open spec fn member(
        self,
        line_index: i64,
        relative_path: Seq<char>,
        kind: FileSetMemberKind,
        file_path: Option<PathView>,
    ) -> PendingView {
        PendingView {
            line_index,
            original_text: self.original_text,
            member_location: LocationView {
                root_index: self.root_index,
                root_name: self.root_name,
                relative_path,
                kind,
            },
            file_path,
        }
    }

    /// A file whose metadata was read.
    pub open spec fn flat_file(self, metadata: FileMetadata) -> PendingView {
        self.as_flat(kind_of_mode(metadata.mode), Some(self.path))
    }

    /// A file whose metadata could not be read.
    pub open spec fn missing_file(self) -> PendingView {
        self.as_flat(FileSetMemberKind::File, Some(self.path))
    }

    /// A root that the expansion did not get to.
    pub open spec fn unvisited(self) -> PendingView {
        self.as_flat(FileSetMemberKind::File, None)
    }

    /// What is left of the root where nothing of it can be carried over.
    pub open spec fn marker(self, line_index: i64) -> PendingView {
        self.member(line_index, dot(), FileSetMemberKind::File, None)
    }

    /// What is left of the root where the expansion gave up at
    /// `relative_path`.
    pub open spec fn directory_marker(
        self,
        line_index: i64,
        relative_path: Seq<char>,
    ) -> PendingView {
        self.member(line_index, shown_path(relative_path), FileSetMemberKind::File, None)
    }
}

/// The pending line of a file whose metadata was read.
pub fn pending_flat_file(root: TopLevelFileMember, metadata: FileMetadata) -> (r:
    PendingFileSetLine)
    ensures
        r@ == root@.flat_file(metadata),
{
    let relative_path: String = normalized_basename(&root.path);
    PendingFileSetLine {
        line_index: root.line_index,
        original_text: root.original_text,
        member_location: FileSetMemberLocation {
            root_index: root.root_index,
            root_name: root.root_name,
            relative_path,
            kind: member_kind(&metadata),
        },
        file_path: Some(root.path),
    }
}

/// The pending line of a file whose metadata could not be read.
pub fn pending_missing_file(root: TopLevelFileMember) -> (r: PendingFileSetLine)
    ensures
        r@ == root@.missing_file(),
{
    let relative_path: String = normalized_basename(&root.path);
    PendingFileSetLine {
        line_index: root.line_index,
        original_text: root.original_text,
        member_location: FileSetMemberLocation {
            root_index: root.root_index,
            root_name: root.root_name,
            relative_path,
            kind: FileSetMemberKind::File,
        },
        file_path: Some(root.path),
    }
}

/// The pending line of a root of which nothing can be carried over.
pub fn pending_root_marker(root: TopLevelFileMember, line_index: i64) -> (r: PendingFileSetLine)
    ensures
        r@ == root@.marker(line_index),
{
    proof {
        reveal_strlit(".");
        assert("."@ == dot());
    }
    PendingFileSetLine {
        line_index,
        original_text: root.original_text,
        member_location: FileSetMemberLocation {
            root_index: root.root_index,
            root_name: root.root_name,
            relative_path: ".".to_string(),
            kind: FileSetMemberKind::File,
        },
        file_path: None,
    }
}

/// The excluded line of a root that the expansion did not get to.
pub fn excluded_root_line(
    root: TopLevelFileMember,
    reason: EntryFileSetExcludeReason,
) -> (r: EntryFileSetLine)
    ensures
        r@ == root@.unvisited().of_kind(EntryFileSetLineKind::Excluded { reason }),
{
    EntryFileSetLine {
        line_index: root.line_index,
        original_text: root.original_text,
        member_location: Some(
            FileSetMemberLocation {
                root_index: root.root_index,
                root_name: root.root_name,
                relative_path: normalized_basename(&root.path),
                kind: FileSetMemberKind::File,
            },
        ),
        kind: EntryFileSetLineKind::Excluded { reason },
    }
}

/// The pending line of a member of the directory `root`.
pub fn pending_member(
    root: &TopLevelFileMember,
    line_index: i64,
    relative_path: String,
    kind: FileSetMemberKind,
    file_path: Option<FilePath>,
) -> (r: PendingFileSetLine)
    ensures
        r@ == root@.member(line_index, relative_path@, kind, view_inside(file_path)),
{
    PendingFileSetLine {
        line_index,
        original_text: root.original_text.clone(),
        member_location: FileSetMemberLocation {
            root_index: root.root_index,
            root_name: root.root_name.clone(),
            relative_path,
            kind,
        },
        file_path,
    }
}

/// The line index after `index`; the largest one has none and stays.
pub open spec fn line_index_after(index: i64) -> i64 {
    if index == i64::MAX {
        index
    } else {
        (index + 1) as i64
    }
}

/// Hands out a line index and moves on to the next.
pub fn take_line_index(next_line_index: &mut i64) -> (current: i64)
    ensures
        current == *old(next_line_index),
        *final(next_line_index) == line_index_after(*old(next_line_index)),
{
    let current: i64 = *next_line_index;
    if current < i64::MAX {
        *next_line_index = current + 1;
    }
    current
}

/// The pending line of a directory whose expansion gave up at
/// `relative_path`.
pub fn directory_marker(
    root: &TopLevelFileMember,
    next_line_index: &mut i64,
    relative_path: &String,
) -> (r: PendingFileSetLine)
    ensures
        r@ == root@.directory_marker(*old(next_line_index), relative_path@),
        *final(next_line_index) == line_index_after(*old(next_line_index)),
{
    let line_index: i64 = take_line_index(next_line_index);
    pending_member(
        root,
        line_index,
        shown_relative_path(relative_path),
        FileSetMemberKind::File,
        None,
    )
}

/// The kind of a line whose file was hashed.
pub open spec fn kind_of_hash(hashed: Option<ContentHash>, over_cap: bool) -> EntryFileSetLineKind {
    if over_cap {
        EntryFileSetLineKind::Excluded { reason: EntryFileSetExcludeReason::SizeCapExceeded }
    } else {
        match hashed {
            Some(content_hash) => EntryFileSetLineKind::File {
                content_hash,
                blob_id: None,
                size_bytes: None,
            },
            None => EntryFileSetLineKind::Excluded {
                reason: EntryFileSetExcludeReason::IngestFailed,
            },
        }
    }
}

/// The kind of a line from what hashing its file gave; nothing where the file
/// could not be read. A set over its caps needs no hash. The file is in no
/// blob yet, so blob and size stay open.
pub fn classify_file_path(hashed: Option<ContentHash>, over_cap: bool) -> (r: EntryFileSetLineKind)
    ensures
        r == kind_of_hash(hashed, over_cap),
{
    if over_cap {
        return EntryFileSetLineKind::Excluded {
            reason: EntryFileSetExcludeReason::SizeCapExceeded,
        };
    }
    match hashed {
        Some(content_hash) => EntryFileSetLineKind::File {
            content_hash,
            blob_id: None,
            size_bytes: None,
        },
        None => EntryFileSetLineKind::Excluded { reason: EntryFileSetExcludeReason::IngestFailed },
    }
}

} // verus!

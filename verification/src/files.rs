//! What a host reports of its file system.

use crate::sorting::{Ranked, is_ranking, is_told_apart};
use crate::unicode::{nfc, nfc_form};
use crate::views::view_inside;
use vstd::prelude::*;

verus! {

/// The name that stands for a path without a name of its own.
pub open spec fn dot() -> Seq<char> {
    seq!['.']
}

/// A path of the host.
///
/// `raw` holds the path as the operating system encodes it: only the host
/// reads it. `file_name` is the last component, decoded, with what cannot be
/// decoded replaced; a path that ends in `..` or has no component has none.
pub struct FilePath {
    pub raw: Vec<u8>,
    pub file_name: Option<String>,
}

/// A path, as contracts speak of it.
pub struct PathView {
    pub raw: Seq<u8>,
    pub file_name: Option<Seq<char>>,
}

impl View for FilePath {
    type V = PathView;

    open spec fn view(&self) -> PathView {
        PathView { raw: self.raw@, file_name: view_inside(self.file_name) }
    }
}

impl FilePath {
    /// A second copy of this path.
    pub fn duplicate(&self) -> (r: Self)
        ensures
            r@ == self@,
    {
        let mut raw: Vec<u8> = Vec::new();
        for i in 0..self.raw.len()
            invariant
                raw@ == self.raw@.take(i as int),
        {
            proof {
                assert(self.raw@.take(i + 1) == self.raw@.take(i as int).push(self.raw@[i as int]));
            }
            raw.push(self.raw[i]);
        }
        proof {
            assert(self.raw@.take(self.raw@.len() as int) == self.raw@);
        }
        let file_name: Option<String> = match &self.file_name {
            Some(name) => Some(name.clone()),
            None => None,
        };
        FilePath { raw, file_name }
    }
}

/// What the host found at a path, symbolic links not followed.
#[derive(Clone, Copy, Debug, PartialEq, Eq, Structural)]
pub struct FileMetadata {
    pub symlink: bool,
    pub directory: bool,
    pub regular: bool,
    pub len: u64,
    /// The permission bits, on hosts that have them.
    pub mode: Option<u32>,
}

/// One entry of a directory.
pub struct DirectoryEntry {
    /// The entry's name as the operating system encodes it.
    pub raw_name: Vec<u8>,
    /// The entry's name, where it can be decoded without loss.
    pub name: Option<String>,
    pub path: FilePath,
}

/// A directory entry, as contracts speak of it.
pub struct EntryView {
    pub raw_name: Seq<u8>,
    pub name: Option<Seq<char>>,
    pub path: PathView,
}

impl View for DirectoryEntry {
    type V = EntryView;

    open spec fn view(&self) -> EntryView {
        EntryView { raw_name: self.raw_name@, name: view_inside(self.name), path: self.path@ }
    }
}

/// `a` comes no later than `b` where byte strings are ordered byte by byte,
/// a prefix before what it is a prefix of.
pub open spec fn bytes_at_most(a: Seq<u8>, b: Seq<u8>) -> bool
    decreases a.len(),
{
    if a.len() == 0 {
        true
    } else if b.len() == 0 {
        false
    } else if a[0] == b[0] {
        bytes_at_most(a.drop_first(), b.drop_first())
    } else {
        a[0] < b[0]
    }
}

/// The order in which the entries of a directory are taken.
pub open spec fn entry_order() -> spec_fn(EntryView, EntryView) -> bool {
    |a: EntryView, b: EntryView| bytes_at_most(a.raw_name, b.raw_name)
}

proof fn lemma_bytes_total(a: Seq<u8>, b: Seq<u8>)
    ensures
        bytes_at_most(a, b) || bytes_at_most(b, a),
    decreases a.len(),
{
    if a.len() > 0 && b.len() > 0 && a[0] == b[0] {
        lemma_bytes_total(a.drop_first(), b.drop_first());
    }
}

proof fn lemma_bytes_transitive(a: Seq<u8>, b: Seq<u8>, c: Seq<u8>)
    requires
        bytes_at_most(a, b),
        bytes_at_most(b, c),
    ensures
        bytes_at_most(a, c),
    decreases a.len(),
{
    if a.len() > 0 && b.len() > 0 && c.len() > 0 && a[0] == b[0] && b[0] == c[0] {
        lemma_bytes_transitive(a.drop_first(), b.drop_first(), c.drop_first());
    }
}

proof fn lemma_bytes_antisymmetric(a: Seq<u8>, b: Seq<u8>)
    requires
        bytes_at_most(a, b),
        bytes_at_most(b, a),
    ensures
        a == b,
    decreases a.len(),
{
    if a.len() > 0 && b.len() > 0 {
        lemma_bytes_antisymmetric(a.drop_first(), b.drop_first());
        assert(a == seq![a[0]] + a.drop_first());
        assert(b == seq![b[0]] + b.drop_first());
    } else {
        assert(a == b);
    }
}

fn bytes_come_no_later(a: &Vec<u8>, b: &Vec<u8>) -> (r: bool)
    ensures
        r == bytes_at_most(a@, b@),
{
    let mut i: usize = 0;
    proof {
        assert(a@.skip(0) == a@ && b@.skip(0) == b@);
    }
    while i < a.len()
        invariant
            i <= a@.len(),
            i <= b@.len(),
            bytes_at_most(a@, b@) == bytes_at_most(a@.skip(i as int), b@.skip(i as int)),
        decreases a@.len() - i,
    {
        if i >= b.len() {
            return false;
        }
        if a[i] != b[i] {
            return a[i] < b[i];
        }
        proof {
            assert(a@.skip(i as int).drop_first() == a@.skip(i + 1));
            assert(b@.skip(i as int).drop_first() == b@.skip(i + 1));
        }
        i = i + 1;
    }
    true
}

impl Ranked for DirectoryEntry {
    open spec fn at_most(self, other: Self) -> bool {
        bytes_at_most(self.raw_name@, other.raw_name@)
    }

    proof fn rank_is_total(a: Self, b: Self) {
        lemma_bytes_total(a.raw_name@, b.raw_name@);
    }

    proof fn rank_is_transitive(a: Self, b: Self, c: Self) {
        lemma_bytes_transitive(a.raw_name@, b.raw_name@, c.raw_name@);
    }

    fn ranks_at_most(&self, other: &Self) -> bool {
        bytes_come_no_later(&self.raw_name, &other.raw_name)
    }
}

/// Entries can be put in order: any two can be compared, and the order
/// carries over.
pub proof fn entry_order_is_ranking()
    ensures
        is_ranking(entry_order()),
{
    let leq = entry_order();
    assert forall|a: EntryView, b: EntryView| #![trigger leq(a, b)] leq(a, b) || leq(b, a) by {
        lemma_bytes_total(a.raw_name, b.raw_name);
    }
    assert forall|a: EntryView, b: EntryView, c: EntryView|
        #![trigger leq(a, b), leq(b, c)]
        leq(a, b) && leq(b, c) implies leq(a, c) by {
        lemma_bytes_transitive(a.raw_name, b.raw_name, c.raw_name);
    }
}

/// No two entries have the same name, as it is in a directory.
pub open spec fn has_distinct_names(entries: Seq<EntryView>) -> bool {
    forall|i: int, j: int|
        0 <= i < entries.len() && 0 <= j < entries.len() && (#[trigger] entries[i]).raw_name == (
        #[trigger] entries[j]).raw_name ==> i == j
}

/// The order of entries tells those of one directory apart.
pub proof fn entry_order_tells_apart(entries: Seq<EntryView>)
    requires
        has_distinct_names(entries),
    ensures
        is_told_apart(entries, entry_order()),
{
    let leq = entry_order();
    assert forall|x: EntryView, y: EntryView|
        #![trigger leq(x, y)]
        entries.contains(x) && entries.contains(y) && leq(x, y) && leq(y, x) implies x == y by {
        lemma_bytes_antisymmetric(x.raw_name, y.raw_name);
        let i = choose|i: int| 0 <= i < entries.len() && entries[i] == x;
        let j = choose|j: int| 0 <= j < entries.len() && entries[j] == y;
        assert(entries[i].raw_name == entries[j].raw_name);
    }
}

/// How a member of a file set is to be treated where it is put back.
#[derive(Clone, Copy, Debug, PartialEq, Eq, Structural)]
pub enum FileSetMemberKind {
    File,
    Executable,
    EmptyDirectory,
}

/// A member is executable where anyone may execute it.
pub open spec fn kind_of_mode(mode: Option<u32>) -> FileSetMemberKind {
    match mode {
        Some(bits) => if bits & 0o111 != 0 {
            FileSetMemberKind::Executable
        } else {
            FileSetMemberKind::File
        },
        None => FileSetMemberKind::File,
    }
}

/// The kind of the file that `metadata` describes.
pub fn member_kind(metadata: &FileMetadata) -> (r: FileSetMemberKind)
    ensures
        r == kind_of_mode(metadata.mode),
{
    if let Some(bits) = metadata.mode {
        if bits & 0o111 != 0 {
            return FileSetMemberKind::Executable;
        }
    }
    FileSetMemberKind::File
}

/// A normalized name, or the one that stands for a path without a name.
pub open spec fn name_or_dot_of(normalized: Option<Seq<char>>) -> Seq<char> {
    match normalized {
        Some(name) => name,
        None => dot(),
    }
}

/// The name to record for a path whose normalized last component is
/// `normalized`.
pub fn name_or_dot(normalized: Option<String>) -> (r: String)
    ensures
        r@ == name_or_dot_of(view_inside(normalized)),
{
    match normalized {
        Some(name) => name,
        None => {
            proof {
                reveal_strlit(".");
            }
            ".".to_string()
        },
    }
}

/// The normalized last component of a path.
pub open spec fn basename(path: PathView) -> Seq<char> {
    name_or_dot_of(
        match path.file_name {
            Some(name) => Some(nfc_form(name)),
            None => None,
        },
    )
}

/// The last component of `path` in Normalization Form C, or `.` where the
/// path has none.
pub fn normalized_basename(path: &FilePath) -> (r: String)
    ensures
        r@ == basename(path@),
{
    let normalized: Option<String> = match &path.file_name {
        Some(name) => Some(nfc(name)),
        None => None,
    };
    name_or_dot(normalized)
}

/// A name below a directory, both relative to one root; the root itself is
/// the empty path.
pub open spec fn joined(directory: Seq<char>, name: Seq<char>) -> Seq<char> {
    if directory.len() == 0 {
        name
    } else {
        directory + seq!['/'] + name
    }
}

/// The path of the entry `name` of `directory`, relative to the root that
/// `directory` is relative to.
pub fn joined_path(directory: &String, name: String) -> (r: String)
    ensures
        r@ == joined(directory@, name@),
{
    if directory.as_str().is_empty() {
        return name;
    }
    let mut out: String = directory.clone();
    out.push('/');
    out.append(name.as_str());
    proof {
        assert(directory@.push('/') == directory@ + seq!['/']);
    }
    out
}

/// A path relative to a root, where the root itself is written `.`.
pub open spec fn shown_path(relative: Seq<char>) -> Seq<char> {
    if relative.len() == 0 {
        dot()
    } else {
        relative
    }
}

/// A copy of `relative`, or `.` for the root itself.
pub fn shown_relative_path(relative: &String) -> (r: String)
    ensures
        r@ == shown_path(relative@),
{
    if relative.as_str().is_empty() {
        proof {
            reveal_strlit(".");
        }
        ".".to_string()
    } else {
        relative.clone()
    }
}

} // verus!

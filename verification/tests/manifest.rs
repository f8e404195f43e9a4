use std::collections::BTreeMap;
use uniclip_capture::clipboard::{
    ClipboardPayloadSource, FormatId, MimeType, ObservedClipboardRepresentation, RepresentationId,
    SystemClipboardSnapshot,
};
use uniclip_capture::file_set::{
    ContentHash, EntryFileSet, EntryFileSetExcludeReason, EntryFileSetLineKind, FileSetCaps,
    TraversalBudget,
};
use uniclip_capture::files::{
    DirectoryEntry, FileMetadata, FilePath, FileSetMemberKind, joined_path, member_kind,
    name_or_dot, normalized_basename,
};
use uniclip_capture::file_set::take_line_index;
use uniclip_capture::manifest::{
    ManifestReply, ManifestRequest, ManifestRun, build_entry_file_set,
};
use uniclip_capture::traversal::{TraversalReply, TraversalRequest};

/// What stands at a path of the file system below.
enum Node {
    File { len: u64, mode: u32 },
    Directory,
    Symlink,
    Special,
}

/// A file system in memory, by absolute path. Names of entries that are not
/// UTF-8 stand beside it.
struct Disk {
    nodes: BTreeMap<String, Node>,
    unlistable: Vec<String>,
    undecodable: Vec<String>,
    lists_forward: bool,
}

impl Disk {
    fn new() -> Disk {
        Disk {
            nodes: BTreeMap::new(),
            unlistable: Vec::new(),
            undecodable: Vec::new(),
            lists_forward: false,
        }
    }

    fn file(mut self, path: &str, len: u64) -> Disk {
        self.nodes.insert(path.to_string(), Node::File { len, mode: 0o644 });
        self
    }

    fn node(mut self, path: &str, node: Node) -> Disk {
        self.nodes.insert(path.to_string(), node);
        self
    }

    fn inspect(&self, path: &str) -> Option<FileMetadata> {
        let nothing = FileMetadata {
            symlink: false,
            directory: false,
            regular: false,
            len: 0,
            mode: Some(0o644),
        };
        match self.nodes.get(path)? {
            Node::File { len, mode } => {
                Some(FileMetadata { regular: true, len: *len, mode: Some(*mode), ..nothing })
            }
            Node::Directory => Some(FileMetadata { directory: true, ..nothing }),
            Node::Symlink => Some(FileMetadata { symlink: true, regular: true, ..nothing }),
            Node::Special => Some(nothing),
        }
    }

    /// The entries, mostly in reverse order: the order is the library's
    /// affair.
    fn list(&self, directory: &str) -> Option<Vec<DirectoryEntry>> {
        if self.unlistable.iter().any(|path| path == directory) {
            return None;
        }
        let prefix = format!("{directory}/");
        let mut entries = Vec::new();
        for path in self.nodes.keys().rev() {
            if let Some(name) = path.strip_prefix(&prefix) {
                if !name.contains('/') {
                    let decodable = !self.undecodable.contains(path);
                    entries.push(DirectoryEntry {
                        raw_name: name.as_bytes().to_vec(),
                        name: if decodable { Some(name.to_string()) } else { None },
                        path: file_path(path),
                    });
                }
            }
        }
        if self.lists_forward {
            entries.reverse();
        }
        Some(entries)
    }
}

fn file_path(path: &str) -> FilePath {
    let name = path.rsplit('/').next().unwrap_or("");
    let file_name = if name.is_empty() || name == ".." { None } else { Some(name.to_string()) };
    FilePath { raw: path.as_bytes().to_vec(), file_name }
}

fn text_of(path: &FilePath) -> String {
    String::from_utf8(path.raw.clone()).unwrap()
}

/// A line of a listing names a file where it is a `file://` location.
fn named_file(line: &str) -> Option<FilePath> {
    line.strip_prefix("file://").map(file_path)
}

fn hash_by_name(path: &str) -> Option<ContentHash> {
    let name = path.rsplit('/').next().unwrap_or("");
    let mut bytes = [0u8; 32];
    for (slot, byte) in bytes.iter_mut().zip(name.bytes()) {
        *slot = byte;
    }
    Some(ContentHash { bytes })
}

fn panic_on_hash(_: &str) -> Option<ContentHash> {
    panic!("no file may be hashed once the set is given up")
}

fn build(
    snapshot: &SystemClipboardSnapshot,
    disk: &Disk,
    hash: fn(&str) -> Option<ContentHash>,
    caps: FileSetCaps,
) -> Option<EntryFileSet> {
    build_counted(snapshot, disk, hash, caps).0
}

/// The manifest, and how many answers it took.
fn build_counted(
    snapshot: &SystemClipboardSnapshot,
    disk: &Disk,
    hash: fn(&str) -> Option<ContentHash>,
    caps: FileSetCaps,
) -> (Option<EntryFileSet>, usize) {
    let mut run = build_entry_file_set(snapshot, caps);
    let mut answers: usize = 0;
    loop {
        let reply = match run.request() {
            ManifestRequest::Classify(line) => ManifestReply::Classified(named_file(line)),
            ManifestRequest::Traverse(request) => ManifestReply::Traversed(match request {
                TraversalRequest::Inspect(path) => {
                    TraversalReply::Inspected(disk.inspect(&text_of(path)))
                }
                TraversalRequest::List(path) => TraversalReply::Listed(disk.list(&text_of(path))),
                TraversalRequest::Hash(path) => TraversalReply::Hashed(hash(&text_of(path))),
                TraversalRequest::Nothing => panic!("an expansion under way asks for something"),
            }),
            ManifestRequest::Nothing => break,
        };
        run = run.resume(reply);
        answers += 1;
    }
    match run {
        ManifestRun::Finished { file_set } => (file_set, answers),
        _ => panic!("a manifest that asks for nothing is finished"),
    }
}

fn rep(format: &str, mime: Option<&str>, bytes: &[u8]) -> ObservedClipboardRepresentation {
    ObservedClipboardRepresentation {
        id: RepresentationId("r".to_string()),
        format_id: FormatId(format.to_string()),
        mime: mime.map(|m| MimeType(m.to_string())),
        source: ClipboardPayloadSource::Inline(bytes.to_vec()),
        lists_files: format == "files" || mime == Some("text/uri-list"),
    }
}

fn local_file(path: &str, size_bytes: u64) -> ObservedClipboardRepresentation {
    ObservedClipboardRepresentation {
        id: RepresentationId("l".to_string()),
        format_id: FormatId("public.file-url".to_string()),
        mime: None,
        source: ClipboardPayloadSource::LocalFile {
            path: file_path(path),
            display: path.to_string(),
            size_bytes,
        },
        lists_files: true,
    }
}

fn snapshot_with(representations: Vec<ObservedClipboardRepresentation>) -> SystemClipboardSnapshot {
    SystemClipboardSnapshot {
        ts_ms: 1_700_000_000_000,
        representations,
        file_content_digests: Vec::new(),
        file_set_v1_component: None,
    }
}

fn listing(text: &str) -> SystemClipboardSnapshot {
    snapshot_with(vec![rep("public.file-url", Some("text/uri-list"), text.as_bytes())])
}

fn caps(max_total_bytes: u64, max_member_count: u64) -> FileSetCaps {
    FileSetCaps { max_total_bytes, max_member_count }
}

fn file_lines(set: &EntryFileSet) -> usize {
    set.lines
        .iter()
        .filter(|line| matches!(line.kind, EntryFileSetLineKind::File { .. }))
        .count()
}

fn all_excluded(set: &EntryFileSet, expected: EntryFileSetExcludeReason) -> bool {
    set.lines.iter().all(|line| {
        matches!(line.kind, EntryFileSetLineKind::Excluded { reason } if reason == expected)
    })
}

fn has_directory_structure(set: &EntryFileSet) -> bool {
    set.lines.iter().any(|line| match &line.member_location {
        Some(location) => {
            location.kind == FileSetMemberKind::EmptyDirectory
                || location.relative_path != location.root_name
        }
        None => false,
    })
}

/// What the host makes of a manifest without directories: the digests of all
/// files, or none where a single one is excluded.
fn content_digest_contribution(set: &EntryFileSet) -> Vec<ContentHash> {
    let mut digests = Vec::new();
    if has_directory_structure(set) {
        return digests;
    }
    for line in &set.lines {
        match &line.kind {
            EntryFileSetLineKind::File { content_hash, .. } => digests.push(*content_hash),
            EntryFileSetLineKind::NonFile => {}
            EntryFileSetLineKind::Excluded { .. } => return Vec::new(),
        }
    }
    digests
}

/// What the host makes of a manifest with directories.
fn file_set_v1_component(set: &EntryFileSet) -> Option<String> {
    if !has_directory_structure(set) {
        return None;
    }
    let mut parts = Vec::new();
    for line in &set.lines {
        let location = line.member_location.as_ref()?;
        let content = match &line.kind {
            EntryFileSetLineKind::File { content_hash, .. } => format!("{:?}", content_hash.bytes),
            EntryFileSetLineKind::NonFile => "-".to_string(),
            EntryFileSetLineKind::Excluded { .. } => return None,
        };
        parts.push(format!(
            "{}|{}|{}|{:?}|{}",
            location.root_index, location.root_name, location.relative_path, location.kind, content
        ));
    }
    Some(parts.join("\n"))
}

/// What the host identifies a snapshot by.
fn snapshot_hash(
    snapshot: &SystemClipboardSnapshot,
    digests: &[ContentHash],
    component: Option<&String>,
) -> String {
    if let Some(set) = component {
        return format!("set:{set}");
    }
    if !digests.is_empty() {
        return format!("files:{:?}", digests);
    }
    let mut out = String::from("reps");
    for representation in &snapshot.representations {
        out.push_str(&format!(":{}:{:?}", representation.format_id.0, representation.inline_bytes()));
    }
    out
}

#[test]
fn directory_capture_expands_members_and_preserves_member_semantics() {
    let root = "/tmp/p/roote\u{301}";
    let disk = Disk::new()
        .node(root, Node::Directory)
        .file(&format!("{root}/visible.txt"), 7)
        .file(&format!("{root}/.hidden"), 6)
        .node(&format!("{root}/nested"), Node::Directory)
        .node(&format!("{root}/nested/run.sh"), Node::File { len: 10, mode: 0o755 })
        .node(&format!("{root}/empty"), Node::Directory)
        .file(&format!("{root}/e\u{301}.txt"), 7);
    let set = build(
        &listing(&format!("file://{root}")),
        &disk,
        hash_by_name,
        FileSetCaps::unbounded(),
    )
    .expect("directory should produce a manifest");
    let members: Vec<(&str, &str, FileSetMemberKind)> = set
        .lines
        .iter()
        .map(|line| {
            let location = line.member_location.as_ref().expect("directory member location");
            (location.root_name.as_str(), location.relative_path.as_str(), location.kind)
        })
        .collect();
    assert!(members.contains(&("root\u{e9}", ".hidden", FileSetMemberKind::File)));
    assert!(members.contains(&("root\u{e9}", "visible.txt", FileSetMemberKind::File)));
    assert!(members.contains(&("root\u{e9}", "nested/run.sh", FileSetMemberKind::Executable)));
    assert!(members.contains(&("root\u{e9}", "empty", FileSetMemberKind::EmptyDirectory)));
    assert!(members.contains(&("root\u{e9}", "\u{e9}.txt", FileSetMemberKind::File)));
    assert!(has_directory_structure(&set));
    assert!(content_digest_contribution(&set).is_empty());
    assert!(file_set_v1_component(&set).is_some());
    // Breadth first, the entries of each directory by name.
    let order: Vec<&str> = members.iter().map(|member| member.1).collect();
    assert_eq!(order, vec![".hidden", "\u{e9}.txt", "visible.txt", "empty", "nested/run.sh"]);
    let indexes: Vec<i64> = set.lines.iter().map(|line| line.line_index).collect();
    assert_eq!(indexes, vec![1, 2, 3, 4, 5]);
    assert_eq!(set.lines[3].kind, EntryFileSetLineKind::NonFile);
}

#[test]
fn directory_capture_rejects_symlinks_and_special_files() {
    for forbidden in ["symlink", "socket"] {
        let node = if forbidden == "symlink" { Node::Symlink } else { Node::Special };
        let disk = Disk::new()
            .node("/p/root", Node::Directory)
            .file("/p/root/target.txt", 6)
            .node("/p/root/forbidden", node);
        let set = build(
            &listing("file:///p/root"),
            &disk,
            panic_on_hash,
            FileSetCaps::unbounded(),
        )
        .expect("ineligible directory should still produce a manifest");
        assert!(set.lines.iter().any(|line| matches!(
            line.kind,
            EntryFileSetLineKind::Excluded {
                reason: EntryFileSetExcludeReason::UnsupportedMember
            }
        )));
        assert_eq!(file_lines(&set), 0);
        assert_eq!(set.lines.len(), 1);
        let location = set.lines[0].member_location.as_ref().unwrap();
        assert_eq!(location.relative_path, "forbidden");
    }
}

#[test]
fn directory_member_count_cap_stops_before_hashing() {
    let disk = Disk::new()
        .node("/p/root", Node::Directory)
        .file("/p/root/a", 1)
        .file("/p/root/b", 1)
        .file("/p/root/c", 1);
    let set = build(&listing("file:///p/root"), &disk, panic_on_hash, caps(0, 2))
        .expect("over-cap directory should produce a manifest");
    assert!(all_excluded(&set, EntryFileSetExcludeReason::SizeCapExceeded));
    assert!(!set.lines.is_empty());
}

#[test]
fn traversal_failure_keeps_remaining_top_level_roots() {
    let disk = Disk::new().file("/p/a", 2).file("/p/b", 2).file("/p/c", 2);
    let set = build(
        &listing("file:///p/a\nfile:///p/b\nfile:///p/c"),
        &disk,
        panic_on_hash,
        caps(1, 0),
    )
    .expect("over-cap selection should produce a manifest");
    assert_eq!(set.lines.len(), 3);
    assert!(all_excluded(&set, EntryFileSetExcludeReason::SizeCapExceeded));
}

#[test]
fn mixed_file_and_directory_keep_stable_root_indexes() {
    let disk = Disk::new()
        .file("/p/loose.txt", 5)
        .node("/p/root", Node::Directory)
        .file("/p/root/child.txt", 5);
    let set = build(
        &listing("file:///p/loose.txt\nfile:///p/root"),
        &disk,
        hash_by_name,
        FileSetCaps::unbounded(),
    )
    .expect("mixed selection should produce a manifest");
    let flat = set
        .lines
        .iter()
        .find(|line| line.line_index == 0)
        .unwrap()
        .member_location
        .as_ref()
        .unwrap();
    assert_eq!(
        (flat.root_index, flat.root_name.as_str(), flat.relative_path.as_str()),
        (0, "loose.txt", "loose.txt")
    );
    let child = set
        .lines
        .iter()
        .find(|line| {
            line.member_location
                .as_ref()
                .is_some_and(|location| location.relative_path == "child.txt")
        })
        .unwrap();
    let location = child.member_location.as_ref().unwrap();
    assert_eq!((location.root_index, location.root_name.as_str()), (1, "root"));
    assert!(child.line_index >= 2);
}

#[test]
fn inline_uri_list_identity_is_device_independent() {
    let disk = Disk::new();
    let a = snapshot_with(vec![rep(
        "public.file-url",
        Some("text/uri-list"),
        b"file:///Users/alice/report.msi",
    )]);
    let b = snapshot_with(vec![rep("files", Some("text/uri-list"), b"file:///home/bob/report.msi")]);
    assert_ne!(snapshot_hash(&a, &[], None), snapshot_hash(&b, &[], None));
    let set_a = build(&a, &disk, hash_by_name, FileSetCaps::unbounded())
        .expect("uri-list snapshot should yield a file-set");
    let set_b = build(&b, &disk, hash_by_name, FileSetCaps::unbounded())
        .expect("uri-list snapshot should yield a file-set");
    let digests_a = content_digest_contribution(&set_a);
    let digests_b = content_digest_contribution(&set_b);
    assert!(!digests_a.is_empty());
    assert_eq!(digests_a, digests_b);
    assert_eq!(snapshot_hash(&a, &digests_a, None), snapshot_hash(&b, &digests_b, None));
    assert_ne!(snapshot_hash(&a, &digests_a, None), snapshot_hash(&a, &[], None));
    assert_eq!(set_a.lines[0].member_location, set_b.lines[0].member_location);
    assert_eq!(set_a.lines[0].kind, set_b.lines[0].kind);
    assert_ne!(set_a.lines[0].original_text, set_b.lines[0].original_text);
}

#[test]
fn directory_identity_is_stable_across_devices_and_distinct_from_flat_files() {
    let disk = Disk::new()
        .node("/f/device-a/root", Node::Directory)
        .file("/f/device-a/root/1.txt", 3)
        .file("/f/device-a/root/2.txt", 3)
        .node("/f/device-b/root", Node::Directory)
        .file("/f/device-b/root/1.txt", 3)
        .file("/f/device-b/root/2.txt", 3)
        .file("/f/flat-a/1.txt", 3)
        .file("/f/flat-b/2.txt", 3);
    let component = |root: &str| {
        let set = build(
            &listing(&format!("file://{root}")),
            &disk,
            hash_by_name,
            FileSetCaps::unbounded(),
        )
        .expect("directory manifest");
        file_set_v1_component(&set)
    };
    let a = component("/f/device-a/root");
    let b = component("/f/device-b/root");
    let directory = listing("file:///f/device-a/root");
    assert!(a.is_some());
    assert_eq!(
        snapshot_hash(&directory, &[], a.as_ref()),
        snapshot_hash(&listing("file:///f/device-b/root"), &[], b.as_ref())
    );
    let flat = listing("file:///f/flat-a/1.txt\nfile:///f/flat-b/2.txt");
    let set = build(&flat, &disk, hash_by_name, FileSetCaps::unbounded()).expect("flat manifest");
    let digests = content_digest_contribution(&set);
    assert_ne!(
        snapshot_hash(&directory, &[], a.as_ref()),
        snapshot_hash(&flat, &digests, None)
    );
}

#[test]
fn inline_uri_list_ingest_failure_is_skipped() {
    let set = build(
        &listing("file:///Users/alice/report.msi"),
        &Disk::new(),
        |_| None,
        FileSetCaps::unbounded(),
    )
    .expect("uri-list snapshot should still yield a file-set (all lines excluded)");
    assert!(content_digest_contribution(&set).is_empty());
    assert!(all_excluded(&set, EntryFileSetExcludeReason::IngestFailed));
}

#[test]
fn inline_uri_list_partial_ingest_failure_falls_back_to_empty_identity() {
    let set = build(
        &listing(
            "file:///Users/alice/ok-a.txt\nfile:///Users/alice/locked.msi\nfile:///Users/alice/ok-b.txt",
        ),
        &Disk::new(),
        |path| if path.ends_with("/locked.msi") { None } else { hash_by_name(path) },
        FileSetCaps::unbounded(),
    )
    .expect("uri-list snapshot should yield a file-set");
    assert_eq!(set.lines.len(), 3);
    assert_eq!(file_lines(&set), 2);
    assert!(content_digest_contribution(&set).is_empty());
}

#[test]
fn member_count_cap_excludes_all_file_lines_without_hashing() {
    let set = build(
        &listing(
            "file:///Users/alice/a.txt\nfile:///Users/alice/b.txt\nfile:///Users/alice/c.txt",
        ),
        &Disk::new(),
        panic_on_hash,
        caps(0, 2),
    )
    .expect("file-class snapshot yields a manifest");
    assert_eq!(set.lines.len(), 3);
    assert_eq!(file_lines(&set), 0);
    assert!(all_excluded(&set, EntryFileSetExcludeReason::SizeCapExceeded));
    assert!(content_digest_contribution(&set).is_empty());
}

#[test]
fn member_count_exactly_at_cap_hashes_normally() {
    let set = build(
        &listing("file:///Users/alice/a.txt\nfile:///Users/alice/b.txt"),
        &Disk::new(),
        hash_by_name,
        caps(0, 2),
    )
    .expect("file-class snapshot yields a manifest");
    assert_eq!(file_lines(&set), 2);
    assert!(!content_digest_contribution(&set).is_empty());
}

#[test]
fn total_bytes_cap_excludes_all_file_lines_without_hashing() {
    let disk = Disk::new().file("/d/a.bin", 400).file("/d/b.bin", 400);
    let set = build(
        &listing("file:///d/a.bin\nfile:///d/b.bin\n"),
        &disk,
        panic_on_hash,
        caps(500, 0),
    )
    .expect("file-class snapshot yields a manifest");
    assert!(all_excluded(&set, EntryFileSetExcludeReason::SizeCapExceeded));
    assert_eq!(set.lines.len(), 2);
    assert!(content_digest_contribution(&set).is_empty());
}

#[test]
fn total_bytes_within_cap_hashes_normally() {
    let disk = Disk::new().file("/d/small.bin", 100);
    let set = build(&listing("file:///d/small.bin\n"), &disk, hash_by_name, caps(500, 0))
        .expect("file-class snapshot yields a manifest");
    assert_eq!(file_lines(&set), 1);
    assert!(!content_digest_contribution(&set).is_empty());
}

#[test]
fn total_bytes_cap_ignores_unmeasurable_member() {
    let set = build(
        &listing("file:///nonexistent/uc-cap-test/gone.bin"),
        &Disk::new(),
        |_| None,
        caps(1, 0),
    )
    .expect("file-class snapshot yields a manifest");
    assert!(all_excluded(&set, EntryFileSetExcludeReason::IngestFailed));
    assert_eq!(set.lines.len(), 1);
}

#[test]
fn local_file_reps_honour_member_count_cap() {
    let snapshot = snapshot_with(vec![
        local_file("/Users/alice/x.txt", 10),
        local_file("/Users/alice/y.txt", 10),
    ]);
    let set = build(&snapshot, &Disk::new(), panic_on_hash, caps(0, 1))
        .expect("file-class snapshot yields a manifest");
    assert!(all_excluded(&set, EntryFileSetExcludeReason::SizeCapExceeded));
    assert_eq!(set.lines.len(), 2);
    assert_eq!(set.lines[1].original_text, "/Users/alice/y.txt");
}

#[test]
fn known_sizes_count_in_place_of_measured_ones() {
    let disk = Disk::new().file("/u/x.txt", 1_000);
    let fits = build(
        &snapshot_with(vec![local_file("/u/x.txt", 10)]),
        &disk,
        hash_by_name,
        caps(10, 0),
    )
    .unwrap();
    assert_eq!(file_lines(&fits), 1);
    let gone = build(
        &snapshot_with(vec![local_file("/u/gone.txt", 11)]),
        &disk,
        panic_on_hash,
        caps(10, 0),
    )
    .unwrap();
    assert!(all_excluded(&gone, EntryFileSetExcludeReason::SizeCapExceeded));
}

#[test]
fn local_files_win_over_a_listing() {
    let snapshot = snapshot_with(vec![
        rep("files", None, b"file:///p/listed.txt"),
        local_file("/p/copied.txt", 1),
    ]);
    let set = build(&snapshot, &Disk::new(), hash_by_name, FileSetCaps::unbounded()).unwrap();
    assert_eq!(set.lines.len(), 1);
    assert_eq!(set.lines[0].original_text, "/p/copied.txt");
    let location = set.lines[0].member_location.as_ref().unwrap();
    assert_eq!(location.root_name, "copied.txt");
    assert_eq!(location.relative_path, "copied.txt");
}

#[test]
fn other_lines_of_a_listing_are_kept_in_place() {
    let disk = Disk::new()
        .node("/p/dir", Node::Directory)
        .file("/p/dir/in.txt", 1)
        .file("/p/flat.txt", 1);
    let set = build(
        &listing("# copied\r\nfile:///p/dir\n\nfile:///p/flat.txt"),
        &disk,
        hash_by_name,
        FileSetCaps::unbounded(),
    )
    .unwrap();
    let shown: Vec<(i64, &str)> = set
        .lines
        .iter()
        .map(|line| (line.line_index, line.original_text.as_str()))
        .collect();
    assert_eq!(
        shown,
        vec![(0, "# copied"), (2, ""), (3, "file:///p/flat.txt"), (4, "file:///p/dir")]
    );
    assert_eq!(set.lines[0].kind, EntryFileSetLineKind::NonFile);
    assert_eq!(set.lines[0].member_location, None);
    assert_eq!(set.lines[2].member_location.as_ref().unwrap().root_index, 1);
    assert_eq!(set.lines[3].member_location.as_ref().unwrap().root_index, 0);
}

#[test]
fn a_listing_that_is_not_utf8_makes_no_manifest() {
    let snapshot = snapshot_with(vec![rep("files", None, b"file:///p/\xff\xfe")]);
    assert!(build(&snapshot, &Disk::new(), panic_on_hash, FileSetCaps::unbounded()).is_none());
    let second = snapshot_with(vec![
        rep("files", None, b"\xff"),
        rep("files", None, b"file:///p/\xc3\xa9.txt"),
    ]);
    let set = build(&second, &Disk::new(), hash_by_name, FileSetCaps::unbounded()).unwrap();
    assert_eq!(set.lines[0].original_text, "file:///p/\u{e9}.txt");
}

#[test]
fn snapshots_without_files_make_no_manifest() {
    let snapshot = snapshot_with(vec![rep("text", Some("text/plain"), b"file:///p/a.txt")]);
    assert!(build(&snapshot, &Disk::new(), panic_on_hash, FileSetCaps::unbounded()).is_none());
    assert!(build(&snapshot_with(vec![]), &Disk::new(), panic_on_hash, caps(1, 1)).is_none());
}

#[test]
fn names_that_cannot_be_decoded_give_the_set_up() {
    let mut disk = Disk::new()
        .node("/p/root", Node::Directory)
        .node("/p/root/sub", Node::Directory)
        .file("/p/root/sub/odd", 1)
        .file("/p/root/a.txt", 1);
    disk.undecodable.push("/p/root/sub/odd".to_string());
    let set = build(
        &listing("file:///p/root\nfile:///p/other"),
        &disk,
        panic_on_hash,
        FileSetCaps::unbounded(),
    )
    .unwrap();
    assert!(all_excluded(&set, EntryFileSetExcludeReason::UnsupportedMember));
    let shown: Vec<(i64, &str)> = set
        .lines
        .iter()
        .map(|line| (line.line_index, line.member_location.as_ref().unwrap().relative_path.as_str()))
        .collect();
    // The members found before are given up with the root; the marker stands
    // behind the index that the first of them had taken.
    assert_eq!(shown, vec![(1, "other"), (3, "sub")]);
}

#[test]
fn directories_that_cannot_be_listed_give_the_set_up() {
    let mut disk = Disk::new().node("/p/root", Node::Directory);
    disk.unlistable.push("/p/root".to_string());
    let set = build(&listing("file:///p/root"), &disk, panic_on_hash, FileSetCaps::unbounded())
        .unwrap();
    assert!(all_excluded(&set, EntryFileSetExcludeReason::IngestFailed));
    assert_eq!(set.lines[0].member_location.as_ref().unwrap().relative_path, ".");
    assert_eq!(set.lines[0].line_index, 1);
}

#[test]
fn the_order_of_a_listing_does_not_matter() {
    let disk = |lists_forward: bool| {
        let mut disk = Disk::new()
            .node("/p/root", Node::Directory)
            .node("/p/root/B", Node::Directory)
            .file("/p/root/B/x", 1)
            .file("/p/root/a", 2)
            .file("/p/root/Z", 3);
        disk.lists_forward = lists_forward;
        disk
    };
    let made = |disk: Disk| {
        build(&listing("file:///p/root"), &disk, hash_by_name, FileSetCaps::unbounded()).unwrap()
    };
    let set = made(disk(true));
    assert_eq!(set, made(disk(false)));
    let shown: Vec<&str> = set
        .lines
        .iter()
        .map(|line| line.member_location.as_ref().unwrap().relative_path.as_str())
        .collect();
    assert_eq!(shown, vec!["Z", "a", "B/x"]);
}

#[test]
fn equal_trees_make_manifests_that_say_the_same() {
    // Elsewhere, with other permissions, other sizes and another order.
    let tree = |at: &str, plain: u32, program: u32, len: u64, lists_forward: bool| {
        let mut disk = Disk::new()
            .node(&format!("{at}/caf\u{e9}"), Node::Directory)
            .node(&format!("{at}/cafe\u{301}"), Node::Directory)
            .node(&format!("{at}/set"), Node::Directory)
            .node(&format!("{at}/set/run"), Node::File { len, mode: program })
            .node(&format!("{at}/set/text"), Node::File { len, mode: plain })
            .node(&format!("{at}/set/void"), Node::Directory);
        disk.lists_forward = lists_forward;
        disk
    };
    let here = tree("/home/a", 0o644, 0o755, 7, true);
    let there = tree("/Users/b/Desktop", 0o600, 0o700, 9, false);
    let made_here = build(
        &listing("file:///home/a/set\nfile:///home/a/caf\u{e9}"),
        &here,
        hash_by_name,
        caps(100, 10),
    )
    .unwrap();
    let made_there = build(
        &listing("file:///Users/b/Desktop/set\nfile:///Users/b/Desktop/cafe\u{301}"),
        &there,
        hash_by_name,
        FileSetCaps::unbounded(),
    )
    .unwrap();
    assert_eq!(made_here.lines.len(), 4);
    assert_eq!(made_here.lines.len(), made_there.lines.len());
    for (a, b) in made_here.lines.iter().zip(made_there.lines.iter()) {
        assert_eq!(a.line_index, b.line_index);
        assert_eq!(a.member_location, b.member_location);
        assert_eq!(a.kind, b.kind);
        assert_ne!(a.original_text, b.original_text);
    }
}

#[test]
fn trees_are_listed_to_the_end_in_as_many_answers_as_they_take() {
    let disk = Disk::new()
        .node("/h/dir", Node::Directory)
        .file("/h/dir/a", 1)
        .node("/h/dir/empty", Node::Directory)
        .node("/h/dir/sub", Node::Directory)
        .file("/h/dir/sub/b", 1);
    // The line, two for each of three directories, and two for each of two files.
    let (set, answers) =
        build_counted(&listing("file:///h/dir"), &disk, hash_by_name, FileSetCaps::unbounded());
    assert_eq!(set.unwrap().lines.len(), 3);
    assert_eq!(answers, 1 + 3 * 2 + 2 * 2);
    let (set, answers) =
        build_counted(&listing("file:///h/dir/a"), &disk, hash_by_name, FileSetCaps::unbounded());
    assert_eq!(file_lines(&set.unwrap()), 1);
    assert_eq!(answers, 3);
    // A set that is given up is not hashed.
    let (set, answers) =
        build_counted(&listing("file:///h/dir"), &disk, panic_on_hash, caps(0, 1));
    assert_eq!(file_lines(&set.unwrap()), 0);
    assert!(answers < 1 + 3 * 2 + 2 * 2);
    // Lines that name no file take one answer each.
    let (set, answers) = build_counted(
        &listing("# note\nfile:///h/dir/a\nfile:///h/dir/empty"),
        &disk,
        hash_by_name,
        FileSetCaps::unbounded(),
    );
    assert_eq!(set.unwrap().lines.len(), 3);
    assert_eq!(answers, 1 + (1 + 2) + (1 + 2));
}

#[test]
fn a_whole_set_has_one_line_for_each_member_and_each_of_a_root() {
    let disk = Disk::new()
        .node("/p/root", Node::Directory)
        .node("/p/root/sub", Node::Directory)
        .node("/p/root/sub/void", Node::Directory)
        .file("/p/root/sub/x", 1)
        .file("/p/root/y", 2)
        .file("/p/z", 3);
    let text = "# copied\nfile:///p/root\nfile:///p/z";
    let set = build(&listing(text), &disk, hash_by_name, FileSetCaps::unbounded()).unwrap();
    let shown: Vec<(i64, Option<(i64, &str)>, bool)> = set
        .lines
        .iter()
        .map(|line| {
            let place = line
                .member_location
                .as_ref()
                .map(|at| (at.root_index, at.relative_path.as_str()));
            (line.line_index, place, matches!(line.kind, EntryFileSetLineKind::File { .. }))
        })
        .collect();
    assert_eq!(
        shown,
        vec![
            (0, None, false),
            (2, Some((1, "z")), true),
            (3, Some((0, "y")), true),
            (4, Some((0, "sub/x")), true),
            (5, Some((0, "sub/void")), false),
        ]
    );
    for line in set.lines.iter() {
        let expected = match line.member_location.as_ref().map(|at| at.root_index) {
            None => "# copied",
            Some(0) => "file:///p/root",
            Some(_) => "file:///p/z",
        };
        assert_eq!(line.original_text, expected);
    }
}

#[test]
fn a_root_that_is_a_link_gives_the_set_up() {
    let disk = Disk::new().node("/p/link", Node::Symlink).file("/p/a.txt", 1);
    let set = build(
        &listing("file:///p/a.txt\nfile:///p/link\nfile:///p/b.txt"),
        &disk,
        panic_on_hash,
        FileSetCaps::unbounded(),
    )
    .unwrap();
    assert!(all_excluded(&set, EntryFileSetExcludeReason::UnsupportedMember));
    let shown: Vec<(i64, i64, &str)> = set
        .lines
        .iter()
        .map(|line| {
            let location = line.member_location.as_ref().unwrap();
            (line.line_index, location.root_index, location.relative_path.as_str())
        })
        .collect();
    assert_eq!(shown, vec![(0, 0, "a.txt"), (2, 2, "b.txt"), (3, 1, ".")]);
}

#[test]
fn an_empty_directory_is_a_member_without_content() {
    let disk = Disk::new().node("/p/empty", Node::Directory);
    let set =
        build(&listing("file:///p/empty"), &disk, panic_on_hash, FileSetCaps::unbounded()).unwrap();
    assert_eq!(set.lines.len(), 1);
    assert_eq!(set.lines[0].kind, EntryFileSetLineKind::NonFile);
    let location = set.lines[0].member_location.as_ref().unwrap();
    assert_eq!(location.relative_path, ".");
    assert_eq!(location.kind, FileSetMemberKind::EmptyDirectory);
}

#[test]
fn manifest_indexes_stand_in_order_without_repetition() {
    let disk = Disk::new()
        .node("/p/x", Node::Directory)
        .file("/p/x/1", 1)
        .file("/p/x/2", 1)
        .node("/p/y", Node::Directory)
        .file("/p/y/1", 1);
    let set = build(
        &listing("file:///p/x\n#\nfile:///p/y"),
        &disk,
        hash_by_name,
        FileSetCaps::unbounded(),
    )
    .unwrap();
    let indexes: Vec<i64> = set.lines.iter().map(|line| line.line_index).collect();
    assert_eq!(indexes, vec![1, 3, 4, 5]);
}

#[test]
fn answers_to_other_questions_change_nothing() {
    let snapshot = listing("file:///p/a.txt");
    let run = build_entry_file_set(&snapshot, FileSetCaps::unbounded());
    let run = run.resume(ManifestReply::Traversed(TraversalReply::Hashed(None)));
    match run.request() {
        ManifestRequest::Classify(line) => assert_eq!(line, "file:///p/a.txt"),
        _ => panic!("the line is still to be told apart"),
    }
    let run = run.resume(ManifestReply::Classified(named_file("file:///p/a.txt")));
    let run = run.resume(ManifestReply::Traversed(TraversalReply::Listed(None)));
    match run.request() {
        ManifestRequest::Traverse(TraversalRequest::Inspect(path)) => {
            assert_eq!(text_of(path), "/p/a.txt")
        }
        _ => panic!("the root is still to be looked at"),
    }
}

#[test]
fn fallback_caps_are_bounded() {
    assert_eq!(FileSetCaps::fallback(), caps(1_073_741_824, 2_000));
    assert_eq!(FileSetCaps::unbounded(), caps(0, 0));
}

#[test]
fn budget_counts_and_saturates() {
    let mut budget = TraversalBudget::default();
    assert!(!budget.admit_member(10, caps(10, 1)));
    assert!(budget.admit_member(0, caps(10, 1)));
    assert_eq!(budget, TraversalBudget { member_count: 2, total_bytes: 10 });
    assert!(budget.admit_member(1, caps(10, 0)));
    assert!(budget.admit_member(0, caps(10, 0)));
    assert!(!budget.admit_member(u64::MAX, caps(0, 0)));
    assert_eq!(budget, TraversalBudget { member_count: 5, total_bytes: u64::MAX });
}

#[test]
fn line_indexes_stop_at_the_largest() {
    let mut next: i64 = 6;
    assert_eq!(take_line_index(&mut next), 6);
    assert_eq!(next, 7);
    next = i64::MAX;
    assert_eq!(take_line_index(&mut next), i64::MAX);
    assert_eq!(next, i64::MAX);
}

#[test]
fn basenames_are_normalized() {
    assert_eq!(normalized_basename(&file_path("/a/cafe\u{301}")), "caf\u{e9}");
    assert_eq!(normalized_basename(&file_path("/a/..")), ".");
    assert_eq!(name_or_dot(Some("x".to_string())), "x");
    assert_eq!(name_or_dot(None), ".");
    assert_eq!(joined_path(&String::new(), "n".to_string()), "n");
    assert_eq!(joined_path(&"d/e".to_string(), "n".to_string()), "d/e/n");
}

#[test]
fn executables_are_told_by_their_permissions() {
    let with_mode = |mode: Option<u32>| FileMetadata {
        symlink: false,
        directory: false,
        regular: true,
        len: 0,
        mode,
    };
    assert_eq!(member_kind(&with_mode(Some(0o644))), FileSetMemberKind::File);
    assert_eq!(member_kind(&with_mode(Some(0o601))), FileSetMemberKind::Executable);
    assert_eq!(member_kind(&with_mode(Some(0o100))), FileSetMemberKind::Executable);
    assert_eq!(member_kind(&with_mode(None)), FileSetMemberKind::File);
}

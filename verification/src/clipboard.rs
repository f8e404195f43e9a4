//! Clipboard snapshots, and what is read off their representations.

use crate::file_set::ContentHash;
use crate::files::FilePath;
use crate::text::{begins_with, eq_ignoring_ascii_case, same_ignoring_ascii_case};
use vstd::prelude::*;

verus! {

/// A MIME type.
#[derive(Debug, PartialEq, Eq)]
pub struct MimeType(pub String);

impl Clone for MimeType {
    fn clone(&self) -> (r: Self)
        ensures
            r == *self,
    {
        MimeType(self.0.clone())
    }
}

/// The identifier by which a platform names a clipboard format.
#[derive(Debug, PartialEq, Eq)]
pub struct FormatId(pub String);

impl Clone for FormatId {
    fn clone(&self) -> (r: Self)
        ensures
            r == *self,
    {
        FormatId(self.0.clone())
    }
}

/// The identity of one representation.
#[derive(Debug, PartialEq, Eq)]
pub struct RepresentationId(pub String);

impl Clone for RepresentationId {
    fn clone(&self) -> (r: Self)
        ensures
            r == *self,
    {
        RepresentationId(self.0.clone())
    }
}

/// The identity of a clipboard entry.
#[derive(Debug, PartialEq, Eq)]
pub struct EntryId(pub String);

impl Clone for EntryId {
    fn clone(&self) -> (r: Self)
        ensures
            r == *self,
    {
        EntryId(self.0.clone())
    }
}

/// The identity of a clipboard event.
#[derive(Debug, PartialEq, Eq)]
pub struct EventId(pub String);

impl Clone for EventId {
    fn clone(&self) -> (r: Self)
        ensures
            r == *self,
    {
        EventId(self.0.clone())
    }
}

/// The identity of a device.
#[derive(Clone, Copy, Debug, PartialEq, Eq, Structural)]
pub struct DeviceId(pub u128);

/// The identity of a snapshot's content, the same on every device, in its
/// written form.
#[derive(Debug, PartialEq, Eq)]
pub struct SnapshotHash(pub String);

impl Clone for SnapshotHash {
    fn clone(&self) -> (r: Self)
        ensures
            r == *self,
    {
        SnapshotHash(self.0.clone())
    }
}

/// What a file set contributes to the identity of its snapshot.
#[derive(Debug, PartialEq, Eq)]
pub struct FileSetComponent(pub String);

/// Where the payload of a representation is.
pub enum ClipboardPayloadSource {
    /// In memory.
    Inline(Vec<u8>),
    /// In a file of this device. `display` is the path as it is shown.
    LocalFile { path: FilePath, display: String, size_bytes: u64 },
}

/// One representation of what is on the clipboard.
pub struct ObservedClipboardRepresentation {
    pub id: RepresentationId,
    pub format_id: FormatId,
    pub mime: Option<MimeType>,
    pub source: ClipboardPayloadSource,
    /// The platform's MIME type or format is one of those that list files.
    pub lists_files: bool,
}

/// What is on the clipboard at one time.
pub struct SystemClipboardSnapshot {
    pub ts_ms: i64,
    pub representations: Vec<ObservedClipboardRepresentation>,
    /// The digests of the copied files, where they are known.
    pub file_content_digests: Vec<ContentHash>,
    /// What a set with directories contributes, where it is known.
    pub file_set_v1_component: Option<FileSetComponent>,
}

/// How what is on the clipboard came there.
#[derive(Clone, Copy, Debug, PartialEq, Eq, Structural)]
pub enum ClipboardChangeOrigin {
    /// The user copied it on this device.
    LocalCapture,
    /// It was put back from the history of this device.
    LocalRestore,
    /// Another device sent it.
    RemotePush { from_device: Option<DeviceId> },
    /// The user sent an entry once more.
    Resend,
}

/// Whether a text begins with a prefix, in a form that takes a literal.
pub open spec fn has_prefix(text: Seq<char>, prefix: Seq<char>) -> bool {
    prefix.is_prefix_of(text)
}

/// A MIME type that can be captured.
pub open spec fn mime_is_supported(mime: Seq<char>) -> bool {
    ||| has_prefix(mime, "text/"@)
    ||| has_prefix(mime, "image/"@)
    ||| same_ignoring_ascii_case(mime, "file/uri-list"@)
    ||| same_ignoring_ascii_case(mime, "text/uri-list"@)
}

/// A platform format that can be captured without a MIME type. Formats keep
/// the names that their platforms gave them.
pub open spec fn format_is_supported(format: Seq<char>) -> bool {
    ||| same_ignoring_ascii_case(format, "text"@)
    ||| same_ignoring_ascii_case(format, "rtf"@)
    ||| same_ignoring_ascii_case(format, "html"@)
    ||| same_ignoring_ascii_case(format, "files"@)
    ||| same_ignoring_ascii_case(format, "image"@)
    ||| same_ignoring_ascii_case(format, "public.utf8-plain-text"@)
    ||| same_ignoring_ascii_case(format, "public.text"@)
    ||| same_ignoring_ascii_case(format, "NSStringPboardType"@)
}

/// The MIME type or a format that lists files.
pub open spec fn names_files(mime: Option<MimeType>, format: Seq<char>) -> bool {
    ||| mime matches Some(m) && same_ignoring_ascii_case(m.0@, "text/uri-list"@)
    ||| mime matches Some(m) && same_ignoring_ascii_case(m.0@, "file/uri-list"@)
    ||| same_ignoring_ascii_case(format, "files"@)
}

/// The MIME type or the format of an image.
pub open spec fn names_an_image(mime: Option<MimeType>, format: Seq<char>) -> bool {
    ||| mime matches Some(m) && has_prefix(m.0@, "image/"@)
    ||| same_ignoring_ascii_case(format, "image"@)
}

impl ObservedClipboardRepresentation {
    /// The representation can be captured.
    pub open spec fn is_supported(self) -> bool {
        ||| self.mime matches Some(m) && mime_is_supported(m.0@)
        ||| format_is_supported(self.format_id.0@)
    }

    /// The representation lists files.
    pub open spec fn is_files(self) -> bool {
        names_files(self.mime, self.format_id.0@)
    }

    /// The representation is an image.
    pub open spec fn is_image(self) -> bool {
        names_an_image(self.mime, self.format_id.0@)
    }

    /// The representation can stand for copied files: it is a file, or the
    /// platform says that it lists files.
    pub open spec fn is_file_class(self) -> bool {
        self.source is LocalFile || self.lists_files
    }

    /// The bytes of a payload in memory.
    pub fn inline_bytes(&self) -> (r: Option<&Vec<u8>>)
        ensures
            r == (match self.source {
                ClipboardPayloadSource::Inline(bytes) => Some(&bytes),
                ClipboardPayloadSource::LocalFile { path, display, size_bytes } => None,
            }),
    {
        match &self.source {
            ClipboardPayloadSource::Inline(bytes) => Some(bytes),
            ClipboardPayloadSource::LocalFile { path: _, display: _, size_bytes: _ } => None,
        }
    }
}

impl SystemClipboardSnapshot {
    /// Some representation can be captured.
    pub open spec fn is_supported(self) -> bool {
        exists|i: int|
            0 <= i < self.representations@.len() && (
            #[trigger] self.representations@[i]).is_supported()
    }

    /// Some representation can stand for copied files.
    pub open spec fn is_file_class(self) -> bool {
        exists|i: int|
            0 <= i < self.representations@.len() && (
            #[trigger] self.representations@[i]).is_file_class()
    }

    /// Nothing is known yet of the content of the copied files.
    pub open spec fn is_undigested(self) -> bool {
        self.file_content_digests@.len() == 0 && self.file_set_v1_component is None
    }

    /// Whether some representation can stand for copied files.
    pub fn is_file_class_snapshot(&self) -> (r: bool)
        ensures
            r == self.is_file_class(),
    {
        for i in 0..self.representations.len()
            invariant
                forall|j: int| 0 <= j < i ==> !(#[trigger] self.representations@[j]).is_file_class(),
        {
            let rep = &self.representations[i];
            let local: bool = matches!(
                rep.source,
                ClipboardPayloadSource::LocalFile { path: _, display: _, size_bytes: _ }
            );
            if local || rep.lists_files {
                assert(self.representations@[i as int].is_file_class());
                return true;
            }
        }
        false
    }
}

/// The broad kind of a captured payload, as it is reported.
#[derive(Clone, Copy, Debug, PartialEq, Eq, Structural)]
pub enum PayloadType {
    Text,
    Image,
    File,
}

/// Files come before images, and images before text, which is what everything
/// else is reported as.
pub open spec fn payload_type_of(
    representations: Seq<ObservedClipboardRepresentation>,
) -> PayloadType {
    if exists|i: int| 0 <= i < representations.len() && (#[trigger] representations[i]).is_files() {
        PayloadType::File
    } else if exists|i: int|
        0 <= i < representations.len() && (#[trigger] representations[i]).is_image() {
        PayloadType::Image
    } else {
        PayloadType::Text
    }
}

/// Whether the representation lists files.
pub fn is_file_rep(rep: &ObservedClipboardRepresentation) -> (r: bool)
    ensures
        r == rep.is_files(),
{
    if let Some(mime) = &rep.mime {
        if eq_ignoring_ascii_case(&mime.0, "text/uri-list") || eq_ignoring_ascii_case(
            &mime.0,
            "file/uri-list",
        ) {
            return true;
        }
    }
    eq_ignoring_ascii_case(&rep.format_id.0, "files")
}

/// Whether the representation is an image.
pub fn is_image_rep(rep: &ObservedClipboardRepresentation) -> (r: bool)
    ensures
        r == rep.is_image(),
{
    if let Some(mime) = &rep.mime {
        if begins_with(&mime.0, "image/") {
            return true;
        }
    }
    eq_ignoring_ascii_case(&rep.format_id.0, "image")
}

/// The broad kind of what is on the clipboard.
pub fn infer_payload_type(snapshot: &SystemClipboardSnapshot) -> (r: PayloadType)
    ensures
        r == payload_type_of(snapshot.representations@),
{
    let mut image: bool = false;
    for i in 0..snapshot.representations.len()
        invariant
            forall|j: int| 0 <= j < i ==> !(#[trigger] snapshot.representations@[j]).is_files(),
            image == exists|j: int|
                0 <= j < i && (#[trigger] snapshot.representations@[j]).is_image(),
    {
        let rep = &snapshot.representations[i];
        if is_file_rep(rep) {
            assert(snapshot.representations@[i as int].is_files());
            return PayloadType::File;
        }
        if is_image_rep(rep) {
            image = true;
            assert(snapshot.representations@[i as int].is_image());
        }
    }
    if image {
        PayloadType::Image
    } else {
        PayloadType::Text
    }
}

/// How a capture came about, as it is reported.
#[derive(Clone, Copy, Debug, PartialEq, Eq, Structural)]
pub enum CaptureOrigin {
    SystemWatcher,
    ManualRestore,
}

/// What other devices send, and what is sent once more, is not reported: it
/// would count one copy twice.
pub open spec fn reported_origin(origin: ClipboardChangeOrigin) -> Option<CaptureOrigin> {
    match origin {
        ClipboardChangeOrigin::LocalCapture => Some(CaptureOrigin::SystemWatcher),
        ClipboardChangeOrigin::LocalRestore => Some(CaptureOrigin::ManualRestore),
        ClipboardChangeOrigin::RemotePush { from_device } => None,
        ClipboardChangeOrigin::Resend => None,
    }
}

/// How a capture of this origin is reported; not at all where nothing is
/// returned.
pub fn telemetry_capture_origin(origin: ClipboardChangeOrigin) -> (r: Option<CaptureOrigin>)
    ensures
        r == reported_origin(origin),
{
    match origin {
        ClipboardChangeOrigin::LocalCapture => Some(CaptureOrigin::SystemWatcher),
        ClipboardChangeOrigin::LocalRestore => Some(CaptureOrigin::ManualRestore),
        ClipboardChangeOrigin::RemotePush { from_device: _ } => None,
        ClipboardChangeOrigin::Resend => None,
    }
}

} // verus!

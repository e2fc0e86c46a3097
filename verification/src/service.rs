//! The backend service's answers to a browse request: which payload a path
//! gets, how a folder's entries are ordered, what a file preview shows and
//! where a picture's thumbnail is kept.
use vstd::prelude::*;
use vstd::utf8::{decode_utf8, encode_utf8, valid_utf8};
use sha1::Digest;
use crate::browser::{FileEntry, FileEntryView};
use crate::paths::{join, join_spec};
use crate::sorting::{is_stable_sort_of, lowercase_chars, stable_sort, SortKey};
use crate::text::{decimal, digit, digit_char, extend_chars, radix_digits, string_from_utf8};

verus! {

/// Files larger than this many bytes are not previewed.
pub const MAX_PREVIEW_BYTES: u64 = 1_000_000;

/// The SHA-1 digest of a byte sequence.
pub uninterp spec fn sha1_of(data: Seq<u8>) -> Seq<u8>;

/// `sha1::Sha1::digest`: the SHA-1 digest of the data, twenty bytes long
/// (the output size the crate declares, `U20`).
#[verifier::external_body]
fn sha1_digest(data: &[u8]) -> (res: Vec<u8>)
    ensures
        res@ == sha1_of(data@),
        res@.len() == 20,
{
    sha1::Sha1::digest(data).to_vec()
}

/// The two lowercase hexadecimal digits of a byte.
pub open spec fn hex_byte(b: u8) -> Seq<char> {
    seq![digit_char((b / 16) as nat), digit_char((b % 16) as nat)]
}

/// Bytes written as lowercase hexadecimal, two digits each, as `{:x}`
/// formats a digest.
pub open spec fn hex_spec(bytes: Seq<u8>) -> Seq<char>
    decreases bytes.len(),
{
    if bytes.len() == 0 {
        Seq::empty()
    } else {
        hex_spec(bytes.drop_last()) + hex_byte(bytes.last())
    }
}

proof fn lemma_hex_len(bytes: Seq<u8>)
    ensures
        hex_spec(bytes).len() == 2 * bytes.len(),
    decreases bytes.len(),
{
    if bytes.len() > 0 {
        lemma_hex_len(bytes.drop_last());
    }
}

/// Bytes written as two lowercase hexadecimal digits each.
pub fn hex_digits(bytes: &Vec<u8>) -> (res: String)
    ensures
        res@ == hex_spec(bytes@),
{
    let mut out: Vec<char> = Vec::new();
    let mut i: usize = 0;
    while i < bytes.len()
        invariant
            i <= bytes@.len(),
            out@ == hex_spec(bytes@.subrange(0, i as int)),
        decreases bytes@.len() - i,
    {
        let b = bytes[i];
        out.push(digit((b / 16) as u64));
        out.push(digit((b % 16) as u64));
        assert(bytes@.subrange(0, i + 1).drop_last() =~= bytes@.subrange(0, i as int));
        assert(out@ =~= hex_spec(bytes@.subrange(0, i + 1)));
        i = i + 1;
    }
    assert(bytes@.subrange(0, bytes@.len() as int) =~= bytes@);
    crate::text::string_from_chars(&out)
}

/// The name of a path's thumbnail: the SHA-1 of the path's bytes in
/// lowercase hexadecimal.
pub open spec fn thumbnail_filename_spec(path: Seq<char>) -> Seq<char> {
    hex_spec(sha1_of(encode_utf8(path)))
}

/// The file name a path's thumbnail is stored under.
pub fn thumbnail_filename(path: &str) -> (res: String)
    ensures
        res@ == thumbnail_filename_spec(path@),
        res@.len() == 40,
{
    let digest = sha1_digest(path.as_bytes());
    proof {
        lemma_hex_len(digest@);
    }
    hex_digits(&digest)
}

/// Where a thumbnail is kept in a thumbnail folder, and the temporary file
/// it is written to before it is moved there.
pub struct ThumbnailPaths {
    pub thumbnail: String,
    pub temporary: String,
}

/// The thumbnail path of `path` in `directory`, and its temporary path
/// (the thumbnail path with the extension `tmp`).
pub fn thumbnail_paths(directory: &str, path: &str) -> (res: ThumbnailPaths)
    ensures
        res.thumbnail@ == join_spec(directory@, thumbnail_filename_spec(path@)),
        res.temporary@ == join_spec(directory@, thumbnail_filename_spec(path@) + ".tmp"@),
{
    let name = thumbnail_filename(path);
    let thumbnail = join(directory, name.as_str());
    let temporary_name = crate::paths::append_suffix(name.as_str(), ".tmp");
    let temporary = join(directory, temporary_name.as_str());
    ThumbnailPaths { thumbnail, temporary }
}

/// What the backend answers about a path.
#[derive(Debug, Clone, PartialEq, Eq)]
pub enum Payload {
    Directory(Vec<FileEntry>),
    File(String),
    Error(String),
}

pub enum PayloadView {
    Directory(Seq<FileEntryView>),
    File(Seq<char>),
    Error(Seq<char>),
}

impl DeepView for Payload {
    type V = PayloadView;

    open spec fn deep_view(&self) -> PayloadView {
        match self {
            Payload::Directory(entries) => PayloadView::Directory(entries.deep_view()),
            Payload::File(content) => PayloadView::File(content@),
            Payload::Error(message) => PayloadView::Error(message@),
        }
    }
}

/// What a path is on disk, as its metadata tells.
#[derive(Debug, Clone, Copy, PartialEq, Eq)]
pub enum PathKind {
    Directory,
    File { size: u64 },
    Other,
}

/// The next step in answering a browse request.
#[derive(Debug, Clone, PartialEq, Eq)]
pub enum BrowseStep {
    /// List the folder and answer with `directory_payload`.
    ListDirectory,
    /// Read the file and answer with `read_payload`.
    ReadFile,
    /// Answer at once.
    Respond(Payload),
}

pub open spec fn oversized_message() -> Seq<char> {
    "Preview unavailable: file is larger than "@ + radix_digits(MAX_PREVIEW_BYTES as nat, 10)
        + " bytes."@
}

pub open spec fn binary_message() -> Seq<char> {
    "Preview unavailable: binary file."@
}

pub open spec fn unsupported_message() -> Seq<char> {
    "Unsupported filesystem entry"@
}

fn text(s: &str) -> (res: String)
    ensures
        res@ == s@,
{
    s.to_owned()
}

/// Decides how a path is answered from its metadata, or from the error
/// reading the metadata gave.
pub fn browse_step(metadata: Result<PathKind, String>) -> (res: BrowseStep)
    ensures
        match metadata {
            Ok(PathKind::Directory) => res == BrowseStep::ListDirectory,
            Ok(PathKind::File { size }) => if size > MAX_PREVIEW_BYTES {
                res matches BrowseStep::Respond(p) && p.deep_view() == PayloadView::File(
                    oversized_message(),
                )
            } else {
                res == BrowseStep::ReadFile
            },
            Ok(PathKind::Other) => res matches BrowseStep::Respond(p) && p.deep_view()
                == PayloadView::Error(unsupported_message()),
            Err(e) => res matches BrowseStep::Respond(p) && p.deep_view() == PayloadView::Error(e@),
        },
{
    match metadata {
        Ok(PathKind::Directory) => BrowseStep::ListDirectory,
        Ok(PathKind::File { size }) => {
            if size > MAX_PREVIEW_BYTES {
                let mut message: Vec<char> = crate::text::chars_of(
                    "Preview unavailable: file is larger than ",
                );
                let digits = decimal(MAX_PREVIEW_BYTES);
                extend_chars(&mut message, &digits);
                crate::text::extend_str(&mut message, " bytes.");
                BrowseStep::Respond(Payload::File(crate::text::string_from_chars(&message)))
            } else {
                BrowseStep::ReadFile
            }
        },
        Ok(PathKind::Other) => BrowseStep::Respond(Payload::Error(text("Unsupported filesystem entry"))),
        Err(e) => BrowseStep::Respond(Payload::Error(e)),
    }
}

/// The answer for a file once it was read: its text when it is UTF-8, a
/// notice for a binary file, or the error reading it gave.
pub fn read_payload(read: Result<Vec<u8>, String>) -> (res: Payload)
    ensures
        match read {
            Ok(bytes) => if valid_utf8(bytes@) {
                res.deep_view() == PayloadView::File(decode_utf8(bytes@))
            } else {
                res.deep_view() == PayloadView::File(binary_message())
            },
            Err(e) => res.deep_view() == PayloadView::Error(e@),
        },
{
    match read {
        Ok(bytes) => match string_from_utf8(bytes) {
            Some(content) => Payload::File(content),
            None => Payload::File(text("Preview unavailable: binary file.")),
        },
        Err(e) => Payload::Error(e),
    }
}

/// The key a folder's entries are ordered by: folders first, then by
/// lowercase name.
pub open spec fn listing_key(e: FileEntryView) -> (u8, Seq<char>) {
    (
        if e.is_directory {
            0u8
        } else {
            1u8
        },
        crate::text::lowercase(e.name),
    )
}

/// The answer for a folder: its entries, folders first and then by
/// lowercase name; entries that compare equal keep their order.
pub fn directory_payload(entries: Vec<FileEntry>) -> (res: Payload)
    ensures
        res matches Payload::Directory(sorted) && is_stable_sort_of(
            sorted@,
            entries@,
            entries.deep_view().map_values(|e: FileEntryView| listing_key(e)),
            false,
        ),
{
    let mut keys: Vec<SortKey> = Vec::new();
    let mut i: usize = 0;
    while i < entries.len()
        invariant
            i <= entries@.len(),
            keys@.len() == i,
            forall|k: int|
                0 <= k < i ==> #[trigger] keys@[k].deep_view() == listing_key(entries@[k].deep_view()),
        decreases entries@.len() - i,
    {
        let rank: u8 = if entries[i].is_directory {
            0
        } else {
            1
        };
        keys.push(SortKey { rank, text: lowercase_chars(entries[i].name.as_str()) });
        i = i + 1;
    }
    assert(keys.deep_view() =~= entries.deep_view().map_values(|e: FileEntryView| listing_key(e)));
    Payload::Directory(stable_sort(entries, &keys, false))
}

/// What a log subscriber received from the backend's log channel.
#[derive(Debug, Clone, PartialEq, Eq)]
pub enum LogReceive {
    /// A log message.
    Message(String),
    /// The subscriber fell behind and this many messages were dropped.
    Lagged(u64),
    /// The channel closed.
    Closed,
}

/// The log entry sent to a subscriber for what it received, or `None` when
/// the channel closed and the subscription ends.
pub fn log_entry(received: LogReceive) -> (res: Option<String>)
    ensures
        match received {
            LogReceive::Message(m) => res matches Some(e) && e@ == m@,
            LogReceive::Lagged(count) => res matches Some(e) && e@ == "Skipped "@
                + radix_digits(count as nat, 10) + " backend log messages"@,
            LogReceive::Closed => res is None,
        },
{
    match received {
        LogReceive::Message(m) => Some(m),
        LogReceive::Lagged(count) => {
            let mut message = crate::text::chars_of("Skipped ");
            let digits = decimal(count);
            extend_chars(&mut message, &digits);
            crate::text::extend_str(&mut message, " backend log messages");
            Some(crate::text::string_from_chars(&message))
        },
        LogReceive::Closed => None,
    }
}

/// The backend's answer about a path: the path as asked and what it is.
#[derive(Debug, Clone, PartialEq, Eq)]
pub struct BrowseResponse {
    pub path: String,
    pub payload: Option<Payload>,
}

/// What the simple browser window shows after an answer: the address, the
/// listed entries and the preview when they change, and the status line.
#[derive(Debug, Clone, PartialEq, Eq)]
pub struct PanelUpdate {
    pub address: Option<String>,
    pub entries: Option<Vec<FileEntry>>,
    pub content: Option<String>,
    pub status: String,
}

/// How the simple browser window takes an answer: a folder replaces the
/// address, the list and clears the preview; a file replaces the address
/// and the preview; an error, or a failed request, only sets the status.
pub fn panel_update(result: Result<BrowseResponse, String>) -> (res: PanelUpdate)
    ensures
        match result {
            Err(e) => res.address is None && res.entries is None && res.content is None && res.status@ == e@,
            Ok(r) => match r.payload {
                Some(Payload::Directory(entries)) => (res.address matches Some(a) && a@ == r.path@)
                    && (res.entries matches Some(v) && v.deep_view() == entries.deep_view())
                    && (res.content matches Some(c) && c@.len() == 0)
                    && res.status@ == "Directory loaded"@,
                Some(Payload::File(content)) => (res.address matches Some(a) && a@ == r.path@)
                    && res.entries is None && (res.content matches Some(c) && c@ == content@)
                    && res.status@ == "File preview"@,
                Some(Payload::Error(message)) => res.address is None && res.entries is None
                    && res.content is None && res.status@ == message@,
                None => res.address is None && res.entries is None && res.content is None
                    && res.status@ == "Backend returned an invalid response"@,
            },
        },
{
    match result {
        Err(e) => PanelUpdate { address: None, entries: None, content: None, status: e },
        Ok(r) => {
            let BrowseResponse { path, payload } = r;
            match payload {
                Some(Payload::Directory(entries)) => PanelUpdate {
                    address: Some(path),
                    entries: Some(entries),
                    content: Some(String::new()),
                    status: text("Directory loaded"),
                },
                Some(Payload::File(content)) => PanelUpdate {
                    address: Some(path),
                    entries: None,
                    content: Some(content),
                    status: text("File preview"),
                },
                Some(Payload::Error(message)) => PanelUpdate {
                    address: None,
                    entries: None,
                    content: None,
                    status: message,
                },
                None => PanelUpdate {
                    address: None,
                    entries: None,
                    content: None,
                    status: text("Backend returned an invalid response"),
                },
            }
        },
    }
}

/// The label of an entry in the simple browser's list.
pub fn entry_label(entry: &FileEntry) -> (res: String)
    ensures
        res@ == (if entry.is_directory {
            "[Folder] "@
        } else {
            "[File] "@
        }) + entry.name@,
{
    let mut label = if entry.is_directory {
        crate::text::chars_of("[Folder] ")
    } else {
        crate::text::chars_of("[File] ")
    };
    crate::text::extend_str(&mut label, entry.name.as_str());
    crate::text::string_from_chars(&label)
}

} // verus!

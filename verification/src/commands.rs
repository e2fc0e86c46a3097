//! What the browser's commands do with the selection and the paste buffer,
//! and what a picker prints when the user confirms it.
use vstd::prelude::*;
use crate::browser::{ArchiveCompression, PickerKind, PickerOptions};
use crate::paths::{join, join_spec, path_sort_key, simple_file_name, sort_paths};
use crate::sorting::is_stable_sort_of;
use crate::text::{chars_of, decimal, extend_chars, extend_str, radix_digits, string_from_chars};

verus! {

/// A command of the file browser.
#[derive(Debug, Clone, PartialEq, Eq)]
pub enum BrowserCommand {
    CopySelection,
    RenameSelection,
    CopyLocation(String),
    Paste,
    DeleteSelection,
    AddSymlinkToPasteBuffer(String),
    CreateSymlinksHere(String),
    CompressSelection,
    ExtractSelection,
}

/// Whether pasting copies the entries or links to them.
#[derive(Debug, Clone, Copy, PartialEq, Eq, Structural)]
pub enum PasteMode {
    Copy,
    Symlink,
}

/// Entries waiting to be pasted.
#[derive(Debug, Clone, PartialEq, Eq)]
pub struct PasteBuffer {
    pub entries: Vec<String>,
    pub mode: PasteMode,
}

/// What a command does.
#[derive(Debug, Clone, PartialEq, Eq)]
pub enum CommandEffect {
    /// Nothing: the browser is not shown or the address is being edited.
    Ignore,
    /// Only a status message.
    Status(String),
    /// Fill the paste buffer and close the context menu.
    Buffer { buffer: PasteBuffer, status: String },
    /// Ask for a new name for this entry.
    Rename(String),
    /// Put this location on the clipboard and close the context menu.
    CopyLocation(String),
    /// Paste the buffer into the folder and close the context menu.
    Paste { buffer: PasteBuffer, destination: String, status: String },
    /// Ask to confirm deleting these entries and close the context menu.
    ConfirmDelete(Vec<String>),
    /// Link to this entry from the folder and close the context menu.
    CreateSymlinks { sources: Vec<String>, destination: String, status: String },
    /// Ask how to compress the selection.
    AskCompression,
    /// Extract these archives into the folder.
    Extract { paths: Vec<String>, destination: String, status: String },
}

pub open spec fn count_message(prefix: Seq<char>, count: nat, suffix: Seq<char>) -> Seq<char> {
    prefix + radix_digits(count, 10) + suffix
}

/// `paths` listed in the order of their components.
pub open spec fn sorted_paths(sorted: Seq<Seq<char>>, paths: Seq<Seq<char>>) -> bool {
    is_stable_sort_of(sorted, paths, paths.map_values(|p: Seq<char>| path_sort_key(p)), false)
}

fn text(s: &str) -> (res: String)
    ensures
        res@ == s@,
{
    s.to_owned()
}

fn count_text(prefix: &str, count: usize, suffix: &str) -> (res: String)
    ensures
        res@ == count_message(prefix@, count as nat, suffix@),
{
    let mut message = chars_of(prefix);
    let digits = decimal(count as u64);
    extend_chars(&mut message, &digits);
    extend_str(&mut message, suffix);
    string_from_chars(&message)
}

fn copy_paths(paths: &Vec<String>) -> (res: Vec<String>)
    ensures
        res.deep_view() == paths.deep_view(),
{
    let mut res: Vec<String> = Vec::new();
    let mut i: usize = 0;
    while i < paths.len()
        invariant
            i <= paths@.len(),
            res@.len() == i,
            forall|k: int| 0 <= k < i ==> #[trigger] res@[k]@ == paths@[k]@,
        decreases paths@.len() - i,
    {
        res.push(text(paths[i].as_str()));
        i = i + 1;
    }
    assert(res.deep_view() =~= paths.deep_view());
    res
}

/// What a command does, given whether the browser is shown and not
/// editing its address, the selected entries, the paste buffer and the
/// current folder.
pub fn browser_command_effect(
    command: BrowserCommand,
    active: bool,
    selected: &Vec<String>,
    paste_buffer: Option<PasteBuffer>,
    directory: &str,
) -> (res: CommandEffect)
    ensures
        !active ==> res == CommandEffect::Ignore,
        active ==> match command {
            BrowserCommand::CopySelection => if selected@.len() == 0 {
                res matches CommandEffect::Status(s) && s@ == "Select files or folders to copy"@
            } else {
                res matches CommandEffect::Buffer { buffer, status } && buffer.mode == PasteMode::Copy
                    && sorted_paths(buffer.entries.deep_view(), selected.deep_view()) && status@
                    == count_message("Copied "@, selected@.len(), " item(s) to the clipboard"@)
            },
            BrowserCommand::RenameSelection => if selected@.len() == 1 {
                res matches CommandEffect::Rename(p) && p@ == selected@[0]@
            } else {
                res matches CommandEffect::Status(s) && s@
                    == "Select exactly one file or folder to rename"@
            },
            BrowserCommand::CopyLocation(path) => res matches CommandEffect::CopyLocation(p) && p@
                == path@,
            BrowserCommand::Paste => match paste_buffer {
                None => res matches CommandEffect::Status(s) && s@ == "Nothing to paste"@,
                Some(b) => res matches CommandEffect::Paste { buffer, destination, status }
                    && buffer.deep_view() == b.deep_view() && destination@ == directory@ && status@
                    == count_message("Pasting "@, b.entries@.len(), " item(s)..."@),
            },
            BrowserCommand::DeleteSelection => if selected@.len() == 0 {
                res matches CommandEffect::Status(s) && s@ == "Select files or folders to delete"@
            } else {
                res matches CommandEffect::ConfirmDelete(paths) && sorted_paths(
                    paths.deep_view(),
                    selected.deep_view(),
                )
            },
            BrowserCommand::AddSymlinkToPasteBuffer(path) => res matches CommandEffect::Buffer {
                buffer,
                status,
            } && buffer.mode == PasteMode::Symlink && buffer.entries.deep_view() == seq![path@]
                && status@ == "Added symbolic link to the paste buffer"@,
            BrowserCommand::CreateSymlinksHere(source) => res matches CommandEffect::CreateSymlinks {
                sources,
                destination,
                status,
            } && sources.deep_view() == seq![source@] && destination@ == directory@ && status@
                == "Creating symbolic link..."@,
            BrowserCommand::CompressSelection => if selected@.len() == 0 {
                res matches CommandEffect::Status(s) && s@ == "Select files or folders first"@
            } else {
                res == CommandEffect::AskCompression
            },
            BrowserCommand::ExtractSelection => if selected@.len() == 0 {
                res matches CommandEffect::Status(s) && s@ == "Select files or folders first"@
            } else {
                res matches CommandEffect::Extract { paths, destination, status } && sorted_paths(
                    paths.deep_view(),
                    selected.deep_view(),
                ) && destination@ == directory@ && status@ == count_message(
                    "Extracting "@,
                    selected@.len(),
                    " archive(s)..."@,
                )
            },
        },
{
    if !active {
        return CommandEffect::Ignore;
    }
    match command {
        BrowserCommand::CopySelection => {
            if selected.len() == 0 {
                return CommandEffect::Status(text("Select files or folders to copy"));
            }
            let entries = sort_paths(copy_paths(selected));
            let status = count_text("Copied ", selected.len(), " item(s) to the clipboard");
            CommandEffect::Buffer { buffer: PasteBuffer { entries, mode: PasteMode::Copy }, status }
        },
        BrowserCommand::RenameSelection => {
            if selected.len() != 1 {
                return CommandEffect::Status(text("Select exactly one file or folder to rename"));
            }
            CommandEffect::Rename(text(selected[0].as_str()))
        },
        BrowserCommand::CopyLocation(path) => CommandEffect::CopyLocation(path),
        BrowserCommand::Paste => match paste_buffer {
            None => CommandEffect::Status(text("Nothing to paste")),
            Some(buffer) => {
                let status = count_text("Pasting ", buffer.entries.len(), " item(s)...");
                CommandEffect::Paste { buffer, destination: text(directory), status }
            },
        },
        BrowserCommand::DeleteSelection => {
            if selected.len() == 0 {
                return CommandEffect::Status(text("Select files or folders to delete"));
            }
            CommandEffect::ConfirmDelete(sort_paths(copy_paths(selected)))
        },
        BrowserCommand::AddSymlinkToPasteBuffer(path) => {
            let entries = vec![path];
            assert(entries.deep_view() =~= seq![entries@[0]@]);
            CommandEffect::Buffer {
                buffer: PasteBuffer { entries, mode: PasteMode::Symlink },
                status: text("Added symbolic link to the paste buffer"),
            }
        },
        BrowserCommand::CreateSymlinksHere(source) => {
            let sources = vec![source];
            assert(sources.deep_view() =~= seq![sources@[0]@]);
            CommandEffect::CreateSymlinks {
                sources,
                destination: text(directory),
                status: text("Creating symbolic link..."),
            }
        },
        BrowserCommand::CompressSelection => {
            if selected.len() == 0 {
                CommandEffect::Status(text("Select files or folders first"))
            } else {
                CommandEffect::AskCompression
            }
        },
        BrowserCommand::ExtractSelection => {
            if selected.len() == 0 {
                return CommandEffect::Status(text("Select files or folders first"));
            }
            let paths = sort_paths(copy_paths(selected));
            let status = count_text("Extracting ", selected.len(), " archive(s)...");
            CommandEffect::Extract { paths, destination: text(directory), status }
        },
    }
}

pub struct PasteBufferView {
    pub entries: Seq<Seq<char>>,
    pub mode: PasteMode,
}

impl DeepView for PasteBuffer {
    type V = PasteBufferView;

    open spec fn deep_view(&self) -> PasteBufferView {
        PasteBufferView { entries: self.entries.deep_view(), mode: self.mode }
    }
}

/// The entries flagged as fitting the picker (an existing folder when
/// folders are picked, an existing file otherwise), in order.
pub open spec fn fitting_entries(selected: Seq<Seq<char>>, fits: Seq<bool>) -> Seq<Seq<char>>
    decreases selected.len(),
{
    if selected.len() == 0 || fits.len() != selected.len() {
        Seq::empty()
    } else {
        let prev = fitting_entries(selected.drop_last(), fits.drop_last());
        if fits.last() {
            prev.push(selected.last())
        } else {
            prev
        }
    }
}

/// What a confirmed picker prints, given the fitting entries in path
/// order: the current folder when a folder picker has none, only the first
/// unless several may be picked, each joined with the name to save under.
pub open spec fn picked_paths(
    sorted: Seq<Seq<char>>,
    kind: PickerKind,
    multiple: bool,
    save_name: Option<Seq<char>>,
    directory: Seq<char>,
) -> Seq<Seq<char>> {
    let base = if sorted.len() == 0 {
        seq![directory]
    } else {
        sorted
    };
    let chosen = if multiple {
        base
    } else {
        base.take(1)
    };
    chosen.map_values(
        |p: Seq<char>|
            match save_name {
                Some(n) => join_spec(p, n),
                None => p,
            },
    )
}

/// The paths a confirmed picker prints, or the status shown instead: a
/// name to save under must be a plain file name, and a file picker needs a
/// selected file.
pub fn picker_choice(
    picker: &PickerOptions,
    save_name: Option<&str>,
    selected: &Vec<String>,
    fits: &Vec<bool>,
    directory: &str,
) -> (res: Result<Vec<String>, String>)
    requires
        selected@.len() == fits@.len(),
    ensures
        ({
            let save = match save_name {
                Some(n) => Some(n@),
                None => None,
            };
            let fitting = fitting_entries(selected.deep_view(), fits@);
            if save matches Some(n) && !simple_file_name(n) {
                res matches Err(e) && e@ == "Enter a simple file name"@
            } else if fitting.len() == 0 && picker.kind == PickerKind::File {
                res matches Err(e) && e@ == "Select a file first"@
            } else {
                res matches Ok(out) && exists|sorted: Seq<Seq<char>>|
                    #![auto]
                    sorted_paths(sorted, fitting) && out.deep_view() == picked_paths(
                        sorted,
                        picker.kind,
                        picker.multiple,
                        save,
                        directory@,
                    )
            }
        }),
{
    match save_name {
        Some(n) => {
            if !crate::portal::valid_file_name(n) {
                return Err(text("Enter a simple file name"));
            }
        },
        None => {},
    }
    let ghost sv = selected.deep_view();
    let mut fitting: Vec<String> = Vec::new();
    let mut i: usize = 0;
    while i < selected.len()
        invariant
            sv == selected.deep_view(),
            selected@.len() == fits@.len(),
            i <= sv.len(),
            fitting.deep_view() == fitting_entries(sv.subrange(0, i as int), fits@.subrange(0, i as int)),
        decreases sv.len() - i,
    {
        assert(sv.subrange(0, i + 1).drop_last() =~= sv.subrange(0, i as int));
        assert(fits@.subrange(0, i + 1).drop_last() =~= fits@.subrange(0, i as int));
        if fits[i] {
            let ghost before = fitting.deep_view();
            fitting.push(text(selected[i].as_str()));
            assert(fitting.deep_view() =~= before.push(sv[i as int]));
        }
        i = i + 1;
    }
    assert(sv.subrange(0, sv.len() as int) =~= sv);
    assert(fits@.subrange(0, fits@.len() as int) =~= fits@);
    let ghost fv = fitting.deep_view();
    let sorted = sort_paths(fitting);
    let ghost sorted_view = sorted.deep_view();
    assert(sorted_paths(sorted_view, fv));
    assert(sorted_view.len() == fv.len());
    let mut base: Vec<String> = sorted;
    if base.len() == 0 {
        match picker.kind {
            PickerKind::Folder => {
                base.push(text(directory));
                assert(base.deep_view() =~= seq![directory@]);
            },
            PickerKind::File => {
                return Err(text("Select a file first"));
            },
        }
    }
    let ghost bv = base.deep_view();
    let count = if picker.multiple {
        base.len()
    } else {
        1
    };
    let mut out: Vec<String> = Vec::new();
    let mut k: usize = 0;
    while k < count
        invariant
            bv == base.deep_view(),
            bv.len() > 0,
            count == (if picker.multiple {
                bv.len() as int
            } else {
                1int
            }),
            k <= count,
            out@.len() == k,
            forall|j: int|
                0 <= j < k ==> #[trigger] out@[j]@ == match save_name {
                    Some(n) => join_spec(bv[j], n@),
                    None => bv[j],
                },
        decreases count - k,
    {
        assert(base@[k as int]@ == bv[k as int]);
        let path = match save_name {
            Some(n) => join(base[k].as_str(), n),
            None => text(base[k].as_str()),
        };
        out.push(path);
        k = k + 1;
    }
    let ghost save = match save_name {
        Some(n) => Some(n@),
        None => None,
    };
    assert(out.deep_view() =~= picked_paths(sorted_view, picker.kind, picker.multiple, save, directory@));
    assert(sorted_paths(sorted_view, fv) && out.deep_view() == picked_paths(
        sorted_view,
        picker.kind,
        picker.multiple,
        save,
        directory@,
    ));
    Ok(out)
}

/// The name a new or renamed entry gets: the name typed, trimmed; an
/// empty name is refused with the status to show.
pub fn confirmed_entry_name(input: &str) -> (res: Result<String, String>)
    ensures
        crate::text::trim_spec(input@).len() > 0 ==> (res matches Ok(n) && n@ == crate::text::trim_spec(
            input@,
        )),
        crate::text::trim_spec(input@).len() == 0 ==> (res matches Err(e) && e@ == "Enter a name"@),
{
    let name = crate::text::trim(input);
    if name.as_str().is_empty() {
        Err(text("Enter a name"))
    } else {
        Ok(name)
    }
}

/// The name offered when renaming an entry: its file name, or nothing.
pub fn rename_suggestion(path: &str) -> (res: String)
    ensures
        res@ == match crate::paths::file_name_spec(path@) {
            Some(n) => n,
            None => Seq::empty(),
        },
{
    let chars = chars_of(path);
    match crate::paths::file_name_chars(&chars) {
        Some(name) => string_from_chars(&name),
        None => String::new(),
    }
}

/// A request to compress the selection into the current folder.
#[derive(Debug, Clone, PartialEq, Eq)]
pub struct CompressionRequest {
    pub sources: Vec<String>,
    pub destination: String,
    pub level: i32,
    pub compression: String,
    pub status: String,
}

/// What confirming the compression dialog does: compress the selected
/// entries, in path order, with the chosen level and method; with nothing
/// selected, only a status.
pub fn compression_request(
    selected: &Vec<String>,
    directory: &str,
    level: u8,
    compression: ArchiveCompression,
) -> (res: Result<CompressionRequest, String>)
    ensures
        selected@.len() == 0 ==> (res matches Err(e) && e@ == "Select files or folders first"@),
        selected@.len() > 0 ==> (res matches Ok(r) && sorted_paths(
            r.sources.deep_view(),
            selected.deep_view(),
        ) && r.destination@ == directory@ && r.level == level as i32 && r.compression@
            == crate::browser::compression_name(compression) && r.status@ == count_message(
            "Compressing "@,
            selected@.len(),
            " item(s)..."@,
        )),
{
    if selected.len() == 0 {
        return Err(text("Select files or folders first"));
    }
    let sources = sort_paths(copy_paths(selected));
    let status = count_text("Compressing ", selected.len(), " item(s)...");
    Ok(
        CompressionRequest {
            sources,
            destination: text(directory),
            level: level as i32,
            compression: text(compression.value()),
            status,
        },
    )
}

/// An operation of the backend that finished: how many entries it handled,
/// or the path it made, or why it failed.
#[derive(Debug, PartialEq, Eq)]
pub enum Finished {
    Copy(Result<usize, String>),
    Compress(Result<usize, String>),
    Extract(Result<usize, String>),
    Delete(Result<usize, String>),
    Create(Result<String, String>),
    Rename(Result<String, String>),
}

/// What the browser does when an operation finished.
#[derive(Debug, Clone, PartialEq, Eq)]
pub struct FinishedEffect {
    pub status: String,
    /// Whether to load the current folder again.
    pub reload: bool,
    /// Whether to forget the selection.
    pub clear_selection: bool,
}

pub open spec fn counted_status(done: Seq<char>, failed: Seq<char>, result: Result<usize, String>) -> Seq<
    char,
> {
    match result {
        Ok(n) => count_message(done + " "@, n as nat, " item(s)"@),
        Err(e) => failed + " failed: "@ + e@,
    }
}

pub open spec fn made_status(done: Seq<char>, failed: Seq<char>, result: Result<String, String>) -> Seq<
    char,
> {
    match result {
        Ok(p) => done + " "@ + p@,
        Err(e) => failed + " failed: "@ + e@,
    }
}

/// The status shown when an operation finished.
pub open spec fn finished_status(f: Finished) -> Seq<char> {
    match f {
        Finished::Copy(r) => counted_status("Copied"@, "Copy"@, r),
        Finished::Compress(r) => counted_status("Compressed"@, "Compressed"@, r),
        Finished::Extract(r) => counted_status("Extracted"@, "Extracted"@, r),
        Finished::Delete(r) => counted_status("Deleted"@, "Delete"@, r),
        Finished::Create(r) => made_status("Created"@, "Create"@, r),
        Finished::Rename(r) => made_status("Renamed to"@, "Rename"@, r),
    }
}

/// Whether the operation succeeded.
pub open spec fn finished_ok(f: Finished) -> bool {
    match f {
        Finished::Copy(r) => r is Ok,
        Finished::Compress(r) => r is Ok,
        Finished::Extract(r) => r is Ok,
        Finished::Delete(r) => r is Ok,
        Finished::Create(r) => r is Ok,
        Finished::Rename(r) => r is Ok,
    }
}

fn counted_text(done: &str, failed: &str, result: Result<usize, String>) -> (res: String)
    ensures
        res@ == counted_status(done@, failed@, result),
{
    match result {
        Ok(n) => {
            let mut prefix = chars_of(done);
            prefix.push(' ');
            proof {
                reveal_strlit(" ");
                assert(prefix@ =~= done@ + " "@);
            }
            count_text(&string_from_chars(&prefix), n, " item(s)")
        },
        Err(e) => {
            let mut message = chars_of(failed);
            extend_str(&mut message, " failed: ");
            extend_str(&mut message, e.as_str());
            string_from_chars(&message)
        },
    }
}

fn made_text(done: &str, failed: &str, result: Result<String, String>) -> (res: String)
    ensures
        res@ == made_status(done@, failed@, result),
{
    match result {
        Ok(p) => {
            let mut message = chars_of(done);
            message.push(' ');
            proof {
                reveal_strlit(" ");
                assert(message@ =~= done@ + " "@);
            }
            extend_str(&mut message, p.as_str());
            string_from_chars(&message)
        },
        Err(e) => {
            let mut message = chars_of(failed);
            extend_str(&mut message, " failed: ");
            extend_str(&mut message, e.as_str());
            string_from_chars(&message)
        },
    }
}

/// What the browser does when an operation finished: reports it, loads the
/// folder again after a success, and forgets the selection after a delete.
pub fn finished_effect(f: Finished) -> (res: FinishedEffect)
    ensures
        res.status@ == finished_status(f),
        res.reload == finished_ok(f),
        res.clear_selection == (f matches Finished::Delete(r) && r is Ok),
{
    let ok = match &f {
        Finished::Copy(r) => r.is_ok(),
        Finished::Compress(r) => r.is_ok(),
        Finished::Extract(r) => r.is_ok(),
        Finished::Delete(r) => r.is_ok(),
        Finished::Create(r) => r.is_ok(),
        Finished::Rename(r) => r.is_ok(),
    };
    let clear_selection = match &f {
        Finished::Delete(r) => r.is_ok(),
        _ => false,
    };
    let status = match f {
        Finished::Copy(r) => counted_text("Copied", "Copy", r),
        Finished::Compress(r) => counted_text("Compressed", "Compressed", r),
        Finished::Extract(r) => counted_text("Extracted", "Extracted", r),
        Finished::Delete(r) => counted_text("Deleted", "Delete", r),
        Finished::Create(r) => made_text("Created", "Create", r),
        Finished::Rename(r) => made_text("Renamed to", "Rename", r),
    };
    FinishedEffect { status, reload: ok, clear_selection }
}

/// The paths written one per line.
pub open spec fn lines_text(paths: Seq<Seq<char>>) -> Seq<char>
    decreases paths.len(),
{
    if paths.len() == 0 {
        Seq::empty()
    } else {
        lines_text(paths.drop_last()) + paths.last() + seq!['\n']
    }
}

/// What a picker prints as it closes: each chosen path on a line of its
/// own when the choice was confirmed, nothing when it was cancelled.
pub fn picker_output(chosen: Option<Vec<String>>) -> (res: String)
    ensures
        res@ == match chosen {
            Some(paths) => lines_text(paths.deep_view()),
            None => Seq::empty(),
        },
{
    let paths = match chosen {
        Some(paths) => paths,
        None => {
            return String::new();
        },
    };
    let ghost all = paths.deep_view();
    let mut out: Vec<char> = Vec::new();
    let mut i: usize = 0;
    while i < paths.len()
        invariant
            all == paths.deep_view(),
            i <= paths@.len(),
            out@ == lines_text(all.subrange(0, i as int)),
        decreases paths@.len() - i,
    {
        assert(all.subrange(0, i + 1).drop_last() =~= all.subrange(0, i as int));
        assert(all[i as int] == paths@[i as int]@);
        extend_str(&mut out, paths[i].as_str());
        out.push('\n');
        assert(out@ =~= lines_text(all.subrange(0, i as int)) + all[i as int] + seq!['\n']);
        i = i + 1;
    }
    assert(all.subrange(0, all.len() as int) =~= all);
    string_from_chars(&out)
}

/// The question asked before deleting entries.
pub fn delete_prompt(count: usize) -> (res: String)
    ensures
        res@ == count_message("Delete "@, count as nat, " item(s)?"@),
{
    count_text("Delete ", count, " item(s)?")
}

/// The title of the dialog that creates an entry.
pub fn create_prompt(is_directory: bool) -> (res: String)
    ensures
        res@ == (if is_directory {
            "Create folder"@
        } else {
            "Create file"@
        }),
{
    if is_directory {
        text("Create folder")
    } else {
        text("Create file")
    }
}

/// The label of the context menu's open action: with the application
/// that opens the file, once it is known.
pub fn open_label(opener: &Option<Result<String, String>>) -> (res: String)
    ensures
        res@ == match opener {
            Some(Ok(application)) => "Open (with "@ + application@ + ")"@,
            _ => "Open"@,
        },
{
    match opener {
        Some(Ok(application)) => {
            let mut label = chars_of("Open (with ");
            extend_str(&mut label, application.as_str());
            extend_str(&mut label, ")");
            string_from_chars(&label)
        },
        _ => text("Open"),
    }
}

/// A confirmed picker saves into the selection: when an entry that fits
/// is selected, the current folder plays no part; one path is printed per
/// selected fitting entry (only the first unless several may be picked),
/// each a selected fitting entry joined with the name to save under.
pub proof fn lemma_picked_from_selection(
    sorted: Seq<Seq<char>>,
    fitting: Seq<Seq<char>>,
    kind: PickerKind,
    multiple: bool,
    name: Seq<char>,
    directory: Seq<char>,
)
    requires
        sorted_paths(sorted, fitting),
        fitting.len() > 0,
    ensures
        ({
            let out = picked_paths(sorted, kind, multiple, Some(name), directory);
            &&& out.len() == (if multiple {
                fitting.len() as int
            } else {
                1
            })
            &&& forall|i: int|
                0 <= i < out.len() ==> #[trigger] out[i] == join_spec(sorted[i], name)
                    && fitting.contains(sorted[i])
        }),
{
    let keys = fitting.map_values(|p: Seq<char>| path_sort_key(p));
    let perm = choose|perm: Seq<int>|
        {
            &&& crate::sorting::is_stable_order(perm, keys, false)
            &&& sorted.len() == perm.len()
            &&& forall|a: int| 0 <= a < sorted.len() ==> #[trigger] sorted[a] == fitting[perm[a]]
        };
    assert(sorted.len() == fitting.len());
    let out = picked_paths(sorted, kind, multiple, Some(name), directory);
    assert forall|i: int| 0 <= i < out.len() implies #[trigger] out[i] == join_spec(sorted[i], name)
        && fitting.contains(sorted[i]) by {
        assert(0 <= perm[i] < keys.len());
        assert(sorted[i] == fitting[perm[i]]);
    }
}

/// A confirmed folder picker with no fitting entry selected chooses the
/// folder being shown.
pub proof fn lemma_picked_without_selection(
    multiple: bool,
    save_name: Option<Seq<char>>,
    directory: Seq<char>,
)
    ensures
        picked_paths(Seq::empty(), PickerKind::Folder, multiple, save_name, directory) == seq![
            match save_name {
                Some(n) => join_spec(directory, n),
                None => directory,
            },
        ],
{
    assert(picked_paths(Seq::empty(), PickerKind::Folder, multiple, save_name, directory) =~= seq![
        match save_name {
            Some(n) => join_spec(directory, n),
            None => directory,
        },
    ]);
}

} // verus!

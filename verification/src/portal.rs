//! The XDG desktop portal backend's decisions: which names a save request
//! may use, how the picker is started and read back, and how chosen paths
//! become `file://` URIs.
use vstd::prelude::*;
use vstd::utf8::{decode_utf8, valid_utf8};
use crate::text::{
    chars_of, lines, lines_spec, lossy_utf8, string_from_chars, string_from_utf8,
    string_from_utf8_lossy, strip_end, CharClass,
};
use crate::paths::{is_simple_file_name, join, join_spec, simple_file_name};

verus! {

#[verifier::external_type_specification]
#[verifier::external_body]
pub struct ExUrl(url::Url);

/// The serialization of the URL that `url::Url::parse` makes of a text,
/// when it accepts the text as an absolute URL; the WHATWG URL grammar it
/// follows is not restated here.
pub uninterp spec fn parsed_url(text: Seq<char>) -> Option<Seq<char>>;

/// The path that `url::Url::to_file_path` gives for a URL, named by the
/// URL's serialization (which determines the URL), as text when the path
/// is UTF-8.
pub uninterp spec fn url_file_path(url: Seq<char>) -> Option<Seq<char>>;

/// The `file://` URI that `url::Url::from_file_path` makes of a path.
pub uninterp spec fn file_url_of(path: Seq<char>) -> Option<Seq<char>>;

/// A URL that `url::Url::parse` accepted, kept with its serialization.
/// Only `parse_url` makes one, so the two always belong together.
struct ParsedUrl {
    url: url::Url,
    serialization: String,
}

impl View for ParsedUrl {
    type V = Seq<char>;

    closed spec fn view(&self) -> Seq<char> {
        self.serialization@
    }
}

/// `url::Url::parse`: `Some` exactly when the text parses as an absolute
/// URL, holding the URL and its serialization (`Url::as_str`).
#[verifier::external_body]
fn parse_url(text: &str) -> (res: Option<ParsedUrl>)
    ensures
        match res {
            Some(u) => parsed_url(text@) == Some(u@),
            None => parsed_url(text@) is None,
        },
{
    match url::Url::parse(text) {
        Ok(url) => {
            let serialization = String::from(url.as_str());
            Some(ParsedUrl { url, serialization })
        },
        Err(_) => None,
    }
}

/// `url::Url::to_file_path`, as text. Its result depends on the URL alone;
/// its source builds the path from `/` and each percent-decoded path
/// segment, so a path it returns starts with `/`; it fails for a host other
/// than `localhost`. A path that is not UTF-8 is dropped.
#[verifier::external_body]
fn url_to_file_path(url: &ParsedUrl) -> (res: Option<String>)
    ensures
        res.deep_view() == url_file_path(url@),
        res matches Some(p) ==> p@.len() > 0 && p@[0] == '/',
{
    url.url.to_file_path().ok().and_then(|path| path.into_os_string().into_string().ok())
}

/// `url::Url::from_file_path`, serialized. As its documentation says, a
/// path that is not absolute has no URI; its source starts every URI with
/// `file://`.
#[verifier::external_body]
fn url_from_file_path(path: &str) -> (res: Option<String>)
    ensures
        res.deep_view() == file_url_of(path@),
        !(path@.len() > 0 && path@[0] == '/') ==> res is None,
        res matches Some(u) ==> crate::text::has_prefix(u@, "file://"@),
{
    url::Url::from_file_path(path).ok().map(String::from)
}

/// Whether a name may be used to save into a chosen folder: a simple file
/// name, with no directory separator and no traversal name, so that it
/// cannot leave the folder.
pub fn valid_file_name(name: &str) -> (res: bool)
    ensures
        res == simple_file_name(name@),
{
    let chars = chars_of(name);
    is_simple_file_name(&chars)
}

/// The name a `SaveFile` request saves under: its `current_name`, if valid.
pub fn save_file_name(current_name: Option<String>) -> (res: Result<String, String>)
    ensures
        match current_name {
            Some(n) => simple_file_name(n@) ==> res == Ok::<String, String>(n),
            None => true,
        },
        !(current_name matches Some(n) && simple_file_name(n@)) ==> (res matches Err(e) && e@
            == "SaveFile requires a current_name"@),
{
    match current_name {
        Some(name) => if valid_file_name(name.as_str()) {
            Ok(name)
        } else {
            Err(string_from_chars(&chars_of("SaveFile requires a current_name")))
        },
        None => Err(string_from_chars(&chars_of("SaveFile requires a current_name"))),
    }
}

/// Whether every name in a `SaveFiles` request is UTF-8.
pub open spec fn all_utf8(files: Seq<Seq<u8>>) -> bool {
    forall|i: int| 0 <= i < files.len() ==> valid_utf8(#[trigger] files[i])
}

/// The names in a `SaveFiles` request, each decoded and without trailing
/// NUL characters, in order.
pub open spec fn decoded_names(files: Seq<Seq<u8>>) -> Seq<Seq<char>>
    decreases files.len(),
{
    if files.len() == 0 {
        Seq::empty()
    } else {
        decoded_names(files.drop_last()).push(
            strip_end(decode_utf8(files.last()), CharClass::Exactly('\0')),
        )
    }
}

fn strip_trailing_nul(s: String) -> (res: String)
    ensures
        res@ == strip_end(s@, CharClass::Exactly('\0')),
{
    let chars = chars_of(s.as_str());
    let mut end = chars.len();
    proof {
        assert(chars@.subrange(0, end as int) =~= chars@);
    }
    while end > 0 && chars[end - 1] == '\0'
        invariant
            end <= chars@.len(),
            strip_end(chars@, CharClass::Exactly('\0')) == strip_end(
                chars@.subrange(0, end as int),
                CharClass::Exactly('\0'),
            ),
        decreases end,
    {
        assert(chars@.subrange(0, end as int).drop_last() =~= chars@.subrange(0, end - 1));
        end = end - 1;
    }
    let kept = crate::paths::slice_chars(&chars, 0, end);
    proof {
        if end > 0 {
            assert(kept@.last() == chars@[end - 1]);
        }
    }
    string_from_chars(&kept)
}

/// The names a `SaveFiles` request saves under, when they are acceptable:
/// at least one, each UTF-8 and a simple file name.
pub open spec fn save_names_spec(files: Option<Seq<Seq<u8>>>) -> Option<Seq<Seq<char>>> {
    match files {
        Some(f) => {
            let names = decoded_names(f);
            if all_utf8(f) && names.len() > 0 && forall|i: int| 0 <= i < names.len() ==> simple_file_name(
                #[trigger] names[i],
            ) {
                Some(names)
            } else {
                None
            }
        },
        None => None,
    }
}

/// The names a `SaveFiles` request saves under: all of them, in order,
/// when there is at least one and each is UTF-8 and a valid file name; else
/// an error, so that no name is left out.
pub fn save_file_names(files: Option<Vec<Vec<u8>>>) -> (res: Result<Vec<String>, String>)
    ensures
        match files {
            Some(f) => {
                let names = decoded_names(f.deep_view());
                if all_utf8(f.deep_view()) && names.len() > 0 && forall|i: int| 0 <= i < names.len() ==> simple_file_name(
                    #[trigger] names[i],
                ) {
                    res matches Ok(v) && v.deep_view() == names
                } else {
                    res matches Err(e) && e@ == "SaveFiles requires valid file names"@
                }
            },
            None => res matches Err(e) && e@ == "SaveFiles requires valid file names"@,
        },
    match save_names_spec(files.deep_view()) {
            Some(names) => res matches Ok(v) && v.deep_view() == names,
            None => res matches Err(e) && e@ == "SaveFiles requires valid file names"@,
        },
{
    let list = match files {
        Some(f) => f,
        None => {
            return Err(string_from_chars(&chars_of("SaveFiles requires valid file names")));
        },
    };
    let ghost all = list.deep_view();
    let n = list.len();
    let mut names: Vec<String> = Vec::new();
    let mut all_valid = true;
    let mut rest = list;
    let mut i: usize = 0;
    while rest.len() > 0
        invariant
            files matches Some(f) && f.deep_view() == all,
            all.len() == n,
            i + rest@.len() == n,
            rest.deep_view() == all.subrange(i as int, n as int),
            names.deep_view() == decoded_names(all.subrange(0, i as int)),
            all_utf8(all.subrange(0, i as int)),
            all_valid == forall|k: int|
                0 <= k < names.deep_view().len() ==> simple_file_name(
                    #[trigger] names.deep_view()[k],
                ),
        decreases rest@.len(),
    {
        let ghost before = rest.deep_view();
        let ghost old_names = names.deep_view();
        let bytes = rest.remove(0);
        assert(bytes@ == all[i as int]) by {
            assert(before[0] == all[i as int]);
        }
        assert(all.subrange(0, i + 1).drop_last() =~= all.subrange(0, i as int));
        match string_from_utf8(bytes) {
            Some(text) => {
                let name = strip_trailing_nul(text);
                let ok = valid_file_name(name.as_str());
                names.push(name);
                assert(names.deep_view() =~= old_names.push(
                    strip_end(decode_utf8(all[i as int]), CharClass::Exactly('\0')),
                ));
                proof {
                    if all_valid && ok {
                        assert forall|k: int| 0 <= k < names.deep_view().len() implies simple_file_name(
                            #[trigger] names.deep_view()[k],
                        ) by {
                            if k < old_names.len() {
                                assert(names.deep_view()[k] == old_names[k]);
                            }
                        }
                    }
                    if !ok {
                        assert(!simple_file_name(names.deep_view()[old_names.len() as int]));
                    }
                    if !all_valid {
                        let k = choose|k: int|
                            0 <= k < old_names.len() && !simple_file_name(#[trigger] old_names[k]);
                        assert(names.deep_view()[k] == old_names[k]);
                    }
                }
                all_valid = all_valid && ok;
            },
            None => {
                assert(!all_utf8(all)) by {
                    assert(!valid_utf8(all[i as int]));
                }
                return Err(string_from_chars(&chars_of("SaveFiles requires valid file names")));
            },
        }
        proof {
            assert forall|k: int| 0 <= k < i + 1 implies valid_utf8(
                #[trigger] all.subrange(0, i + 1)[k],
            ) by {
                if k < i {
                    assert(all.subrange(0, i + 1)[k] == all.subrange(0, i as int)[k]);
                }
            }
        }
        i = i + 1;
        assert(rest.deep_view() =~= all.subrange(i as int, n as int)) by {
            assert forall|k: int| 0 <= k < rest@.len() implies rest.deep_view()[k] == all.subrange(
                i as int,
                n as int,
            )[k] by {
                assert(before[k + 1] == all[i + k]);
            }
        }
    }
    assert(all.subrange(0, n as int) =~= all);
    if names.len() > 0 && all_valid {
        Ok(names)
    } else {
        Err(string_from_chars(&chars_of("SaveFiles requires valid file names")))
    }
}

/// The arguments that start the browser as a picker.
pub open spec fn picker_arguments_spec(directory: bool, multiple: bool, save_name: Option<Seq<char>>) -> Seq<
    Seq<char>,
> {
    let base = seq![
        "--mode"@,
        "picker"@,
        if directory {
            "--folder"@
        } else {
            "--file"@
        },
        if multiple {
            "--multiple"@
        } else {
            "--single"@
        },
    ];
    match save_name {
        Some(name) => base + seq!["--save-name"@, name],
        None => base,
    }
}

fn owned(text: &str) -> (res: String)
    ensures
        res@ == text@,
{
    string_from_chars(&chars_of(text))
}

/// The arguments that start the browser as a picker of folders or files,
/// of one or several, with an optional name to save under.
pub fn picker_arguments(directory: bool, multiple: bool, save_name: Option<&str>) -> (res: Vec<String>)
    ensures
        res.deep_view() == picker_arguments_spec(
            directory,
            multiple,
            match save_name {
                Some(n) => Some(n@),
                None => None,
            },
        ),
{
    let mut args: Vec<String> = Vec::new();
    args.push(owned("--mode"));
    args.push(owned("picker"));
    args.push(
        if directory {
            owned("--folder")
        } else {
            owned("--file")
        },
    );
    args.push(
        if multiple {
            owned("--multiple")
        } else {
            owned("--single")
        },
    );
    match save_name {
        Some(name) => {
            args.push(owned("--save-name"));
            args.push(owned(name));
        },
        None => {},
    }
    assert(args.deep_view() =~= picker_arguments_spec(
        directory,
        multiple,
        match save_name {
            Some(n) => Some(n@),
            None => None,
        },
    ));
    args
}

/// The locations a picker printed: one per line of its output. A picker
/// that failed chose nothing.
pub fn picker_output_paths(success: bool, stdout: &[u8]) -> (res: Vec<String>)
    ensures
        !success ==> res@.len() == 0,
        success ==> res.deep_view() == lines_spec(lossy_utf8(stdout@)),
{
    if !success {
        return Vec::new();
    }
    let text = string_from_utf8_lossy(stdout);
    lines(text.as_str())
}

/// The chosen paths as `file://` URIs, in order; an error when there are
/// none or one has no URI.
pub fn response_uris(paths: &Vec<String>) -> (res: Result<Vec<String>, String>)
    ensures
        (paths@.len() > 0 && forall|i: int| 0 <= i < paths@.len() ==> #[trigger] file_url_of(
            paths@[i]@,
        ) is Some) ==> (res matches Ok(v) && v@.len() == paths@.len() && forall|i: int|
            0 <= i < paths@.len() ==> Some(#[trigger] v@[i]@) == file_url_of(paths@[i]@)),
        !(paths@.len() > 0 && forall|i: int| 0 <= i < paths@.len() ==> #[trigger] file_url_of(
            paths@[i]@,
        ) is Some) ==> (res matches Err(e) && e@ == "could not convert selected paths to file URIs"@),
{
    let mut uris: Vec<String> = Vec::new();
    let mut i: usize = 0;
    while i < paths.len()
        invariant
            i <= paths@.len(),
            uris@.len() == i,
            forall|k: int| 0 <= k < i ==> Some(#[trigger] uris@[k]@) == file_url_of(paths@[k]@),
        decreases paths@.len() - i,
    {
        match url_from_file_path(paths[i].as_str()) {
            Some(uri) => {
                uris.push(uri);
            },
            None => {
                assert(file_url_of(paths@[i as int]@) is None);
                return Err(owned("could not convert selected paths to file URIs"));
            },
        }
        i = i + 1;
    }
    assert forall|k: int| 0 <= k < paths@.len() implies #[trigger] file_url_of(paths@[k]@) is Some by {
        assert(Some(uris@[k]@) == file_url_of(paths@[k]@));
    }
    if uris.len() == 0 {
        return Err(owned("could not convert selected paths to file URIs"));
    }
    Ok(uris)
}

/// How the portal answers a file chooser request.
#[derive(Debug, Clone, PartialEq, Eq)]
pub enum ChooserReply {
    /// Nothing was chosen (response code 1).
    Cancelled,
    /// These URIs were chosen (response code 0).
    Chosen(Vec<String>),
}

/// The answer to a request once the picker printed its choice: cancelled
/// when nothing was chosen, else the chosen paths as `file://` URIs.
pub fn chooser_reply(paths: &Vec<String>) -> (res: Result<ChooserReply, String>)
    ensures
        paths@.len() == 0 ==> res == Ok::<ChooserReply, String>(ChooserReply::Cancelled),
        paths@.len() > 0 && (forall|i: int| 0 <= i < paths@.len() ==> #[trigger] file_url_of(paths@[i]@) is Some)
            ==> (res matches Ok(ChooserReply::Chosen(v)) && v@.len() == paths@.len() && forall|i: int|
            0 <= i < paths@.len() ==> Some(#[trigger] v@[i]@) == file_url_of(paths@[i]@)),
        paths@.len() > 0 && !(forall|i: int| 0 <= i < paths@.len() ==> #[trigger] file_url_of(paths@[i]@) is Some)
            ==> (res matches Err(e) && e@ == "could not convert selected paths to file URIs"@),
{
    if paths.len() == 0 {
        return Ok(ChooserReply::Cancelled);
    }
    match response_uris(paths) {
        Ok(uris) => Ok(ChooserReply::Chosen(uris)),
        Err(e) => Err(e),
    }
}

/// The local path a URI names: the path of the URL it parses as, if any.
pub open spec fn uri_path(uri: Seq<char>) -> Option<Seq<char>> {
    match parsed_url(uri) {
        Some(url) => url_file_path(url),
        None => None,
    }
}

/// The local paths that the URIs name, in order; the others are skipped.
pub open spec fn paths_from_uris_spec(uris: Seq<Seq<char>>) -> Seq<Seq<char>>
    decreases uris.len(),
{
    if uris.len() == 0 {
        Seq::empty()
    } else {
        let prev = paths_from_uris_spec(uris.drop_last());
        match uri_path(uris.last()) {
            Some(p) => prev.push(p),
            None => prev,
        }
    }
}

/// The local paths that `file://` URIs name; other URIs are skipped.
pub fn paths_from_uris(uris: &Vec<String>) -> (res: Vec<String>)
    ensures
        res.deep_view() == paths_from_uris_spec(uris.deep_view()),
        forall|i: int| 0 <= i < res@.len() ==> #[trigger] res@[i]@.len() > 0 && res@[i]@[0] == '/',
{
    let ghost all = uris.deep_view();
    let mut res: Vec<String> = Vec::new();
    let mut i: usize = 0;
    while i < uris.len()
        invariant
            i <= uris@.len(),
            all == uris.deep_view(),
            res.deep_view() == paths_from_uris_spec(all.subrange(0, i as int)),
            forall|k: int| 0 <= k < res@.len() ==> #[trigger] res@[k]@.len() > 0 && res@[k]@[0] == '/',
        decreases uris@.len() - i,
    {
        assert(all.subrange(0, i + 1).drop_last() =~= all.subrange(0, i as int));
        assert(all.subrange(0, i + 1).last() == uris@[i as int]@);
        let ghost before = res.deep_view();
        match parse_url(uris[i].as_str()) {
            Some(url) => match url_to_file_path(&url) {
                Some(path) => {
                    res.push(path);
                    assert(res.deep_view() =~= before.push(res@[res@.len() - 1]@));
                },
                None => {},
            },
            None => {},
        }
        i = i + 1;
    }
    assert(all.subrange(0, uris@.len() as int) =~= all);
    res
}

/// The paths a `SaveFiles` request answers with: each name in the chosen
/// folder, in order.
pub fn save_files_paths(folder: &str, names: &Vec<String>) -> (res: Vec<String>)
    ensures
        res@.len() == names@.len(),
        forall|i: int| 0 <= i < names@.len() ==> #[trigger] res@[i]@ == join_spec(folder@, names@[i]@),
{
    let mut res: Vec<String> = Vec::new();
    let mut i: usize = 0;
    while i < names.len()
        invariant
            i <= names@.len(),
            res@.len() == i,
            forall|k: int| 0 <= k < i ==> #[trigger] res@[k]@ == join_spec(folder@, names@[k]@),
        decreases names@.len() - i,
    {
        res.push(join(folder, names[i].as_str()));
        i = i + 1;
    }
    res
}

/// The folder that shows a path: the path itself when it is a folder,
/// else its parent, or the path again when it has none.
pub fn parent_directory(path: &str, is_directory: bool) -> (res: String)
    ensures
        res@ == (if is_directory {
            path@
        } else {
            match crate::paths::parent_spec(path@) {
                Some(p) => p,
                None => path@,
            }
        }),
{
    if is_directory {
        return owned(path);
    }
    match crate::paths::parent(path) {
        Some(p) => p,
        None => owned(path),
    }
}

/// The folder an `OpenDirectory` request opens: the path when it is a
/// folder, else its parent; a file without a parent is an error.
pub fn directory_to_open(path: &str, is_directory: bool) -> (res: Result<String, String>)
    ensures
        is_directory ==> (res matches Ok(d) && d@ == path@),
        !is_directory ==> match crate::paths::parent_spec(path@) {
            Some(p) => res matches Ok(d) && d@ == p,
            None => res matches Err(e) && e@ == "file has no parent directory"@,
        },
{
    if is_directory {
        return Ok(owned(path));
    }
    match crate::paths::parent(path) {
        Some(p) => Ok(p),
        None => Err(owned("file has no parent directory")),
    }
}

/// The folders a `ShowItems` request opens: the folder of each item (the
/// item when it is a folder), each folder once, in order.
pub fn item_directories(paths: &Vec<String>, is_directory: &Vec<bool>) -> (res: Vec<String>)
    requires
        paths@.len() == is_directory@.len(),
    ensures
        res.deep_view() == crate::paths::first_occurrences(
            Seq::new(
                paths@.len(),
                |i: int|
                    if is_directory@[i] {
                        paths@[i]@
                    } else {
                        match crate::paths::parent_spec(paths@[i]@) {
                            Some(p) => p,
                            None => paths@[i]@,
                        }
                    },
            ),
        ),
{
    let mut folders: Vec<String> = Vec::new();
    let mut i: usize = 0;
    while i < paths.len()
        invariant
            paths@.len() == is_directory@.len(),
            i <= paths@.len(),
            folders@.len() == i,
            forall|k: int|
                0 <= k < i ==> #[trigger] folders@[k]@ == (if is_directory@[k] {
                    paths@[k]@
                } else {
                    match crate::paths::parent_spec(paths@[k]@) {
                        Some(p) => p,
                        None => paths@[k]@,
                    }
                }),
        decreases paths@.len() - i,
    {
        folders.push(parent_directory(paths[i].as_str(), is_directory[i]));
        i = i + 1;
    }
    let ghost expected = Seq::new(
        paths@.len(),
        |i: int|
            if is_directory@[i] {
                paths@[i]@
            } else {
                match crate::paths::parent_spec(paths@[i]@) {
                    Some(p) => p,
                    None => paths@[i]@,
                }
            },
    );
    assert(folders.deep_view() =~= expected);
    crate::paths::unique(folders)
}

/// A name accepted for saving lands in the chosen folder, whatever the
/// folder: the path saved to starts with the folder's components and has
/// more components than the folder; the name is appended to the folder
/// (it is not absolute, so it does not replace it) and has no `..`
/// component that could climb out of it.
pub proof fn lemma_save_name_stays_in_folder(folder: Seq<char>, name: Seq<char>)
    requires
        simple_file_name(name),
    ensures
        join_spec(folder, name) == folder + (if folder.len() == 0 || folder.last() == '/' {
            Seq::<char>::empty()
        } else {
            seq!['/']
        }) + name,
        crate::text::has_prefix(join_spec(folder, name), folder),
        crate::text::has_prefix(
            crate::paths::path_key_spec(join_spec(folder, name)),
            crate::paths::path_key_spec(folder),
        ),
        crate::paths::component_count_spec(join_spec(folder, name))
            > crate::paths::component_count_spec(folder),
        forall|i: int| !crate::paths::parent_component_at(name, i),
{
    let p = join_spec(folder, name);
    let sep: Seq<char> = if folder.len() == 0 || folder.last() == '/' {
        Seq::empty()
    } else {
        seq!['/']
    };
    assert(p =~= folder + sep + name);
    assert(p.subrange(0, folder.len() as int) =~= folder);
    crate::paths::lemma_simple_name_is_plain(name);
    crate::paths::lemma_join_extends_folder(folder, name);
}

/// The picker's start-up arguments read back by the browser give exactly
/// the picker that the portal asked for.
pub proof fn lemma_picker_arguments_read_back(directory: bool, multiple: bool, save_name: Option<Seq<char>>)
    ensures
        crate::browser::startup_options_spec(picker_arguments_spec(directory, multiple, save_name))
            == (crate::browser::StartupOptionsView {
            follow_logs: false,
            initial_path: None,
            picker: Some(
                crate::browser::PickerOptionsView {
                    kind: if directory {
                        crate::browser::PickerKind::Folder
                    } else {
                        crate::browser::PickerKind::File
                    },
                    multiple: multiple,
                    save_file_name: save_name,
                },
            ),
        }),
{
    reveal_strlit("--mode");
    reveal_strlit("picker");
    reveal_strlit("--folder");
    reveal_strlit("--file");
    reveal_strlit("--multiple");
    reveal_strlit("--single");
    reveal_strlit("--save-name");
    reveal_strlit("-f");
    reveal_strlit("--follow");
    reveal_strlit("--picker");
    reveal_strlit("--multi");
    let args = picker_arguments_spec(directory, multiple, save_name);
    let s0 = crate::browser::initial_arg_state();
    assert(args[0] == "--mode"@);
    assert(args.drop_first()[0] == "picker"@);
    let r1 = args.drop_first().drop_first();
    let s1 = crate::browser::ArgState { requested: true, ..s0 };
    let kind = if directory {
        crate::browser::PickerKind::Folder
    } else {
        crate::browser::PickerKind::File
    };
    let s2 = crate::browser::ArgState { kind: kind, ..s1 };
    let s3 = crate::browser::ArgState { multiple: multiple, ..s2 };
    let r2 = r1.drop_first();
    let r3 = r2.drop_first();
    assert(crate::browser::read_args(args, s0) == crate::browser::read_args(r1, s1));
    assert(r1.len() > 0 && r1[0] == args[2]);
    assert(r2.len() > 0 && r2[0] == args[3]);
    assert(r1.drop_first() == r2);
    assert(r2.drop_first() == r3);
    assert("-f"@.len() == 2 && "--follow"@.len() == 8 && "--mode"@.len() == 6);
    assert("--picker"@.len() == 8 && "--file"@.len() == 6 && "--folder"@.len() == 8);
    assert("--multiple"@.len() == 10 && "--multi"@.len() == 7 && "--single"@.len() == 8);
    assert("--save-name"@.len() == 11);
    assert("--file"@[2] != "--mode"@[2] && "--folder"@[2] != "--picker"@[2]);
    assert("--folder"@[5] != "--follow"@[5]);
    assert("--single"@[2] != "--follow"@[2] && "--single"@[2] != "--picker"@[2]);
    assert("--single"@[2] != "--folder"@[2]);
    assert(crate::browser::read_args(r1, s1) == crate::browser::read_args(r2, s2));
    assert(crate::browser::read_args(r2, s2) == crate::browser::read_args(r3, s3));
    match save_name {
        Some(name) => {
            assert(args.len() == 6 && r3.len() == 2 && r3[0] == args[4] && r3[1] == args[5]);
            assert(r3[0] == "--save-name"@);
            assert(r3.drop_first()[0] == name);
            let s4 = crate::browser::ArgState { save_name: Some(name), ..s3 };
            assert(r3.drop_first().drop_first().len() == 0);
            assert(crate::browser::read_args(r3, s3) == crate::browser::read_args(
                r3.drop_first().drop_first(),
                s4,
            ));
        },
        None => {
            assert(r3.len() == 0);
        },
    }
}

/// How a portal request fails: its arguments are invalid, or it could not
/// be carried out.
#[derive(Debug, Clone, PartialEq, Eq)]
pub enum PortalError {
    InvalidArgs(String),
    Failed(String),
}

/// The reply to a `SaveFile` request once the picker printed its choice:
/// cancelled when it chose nothing, else the first path printed as a
/// `file://` URI.
pub fn save_file_reply(picked: &Vec<String>) -> (res: Result<ChooserReply, String>)
    ensures
        picked@.len() == 0 ==> res matches Ok(ChooserReply::Cancelled),
        picked@.len() > 0 && file_url_of(picked@[0]@) is Some ==> (res matches Ok(
            ChooserReply::Chosen(v),
        ) && v@.len() == 1 && Some(v@[0]@) == file_url_of(picked@[0]@)),
        picked@.len() > 0 && file_url_of(picked@[0]@) is None ==> (res matches Err(e) && e@
            == "could not convert selected paths to file URIs"@),
{
    if picked.len() == 0 {
        return Ok(ChooserReply::Cancelled);
    }
    let mut first: Vec<String> = Vec::new();
    first.push(picked[0].clone());
    assert(first@[0]@ == picked@[0]@);
    chooser_reply(&first)
}

/// The paths a `SaveFiles` request answers with, given its names.
pub open spec fn save_files_paths_spec(folder: Seq<char>, names: Seq<Seq<char>>) -> Seq<Seq<char>> {
    names.map_values(|n: Seq<char>| join_spec(folder, n))
}

/// The reply to a `SaveFiles` request once the folder picker printed its
/// choice: cancelled (response code 1) when no folder was chosen, whatever
/// the names; else invalid arguments when the names are missing or not
/// acceptable; else each name joined to the first folder printed, in the
/// order of the names, as `file://` URIs.
pub fn save_files_reply(picked: &Vec<String>, files: Option<Vec<Vec<u8>>>) -> (res: Result<
    ChooserReply,
    PortalError,
>)
    ensures
        picked@.len() == 0 ==> res matches Ok(ChooserReply::Cancelled),
        picked@.len() > 0 ==> match save_names_spec(files.deep_view()) {
            None => res matches Err(PortalError::InvalidArgs(e)) && e@
                == "SaveFiles requires valid file names"@,
            Some(names) => {
                let paths = save_files_paths_spec(picked@[0]@, names);
                if forall|i: int| 0 <= i < paths.len() ==> #[trigger] file_url_of(paths[i]) is Some {
                    res matches Ok(ChooserReply::Chosen(v)) && v@.len() == paths.len() && forall|i: int|
                        0 <= i < paths.len() ==> Some(#[trigger] v@[i]@) == file_url_of(paths[i])
                } else {
                    res matches Err(PortalError::Failed(e)) && e@
                        == "could not convert selected paths to file URIs"@
                }
            },
        },
{
    if picked.len() == 0 {
        return Ok(ChooserReply::Cancelled);
    }
    let names = match save_file_names(files) {
        Ok(names) => names,
        Err(e) => {
            return Err(PortalError::InvalidArgs(e));
        },
    };
    let paths = save_files_paths(picked[0].as_str(), &names);
    let ghost expected = save_files_paths_spec(picked@[0]@, names.deep_view());
    assert(paths.deep_view() =~= expected);
    proof {
        assert forall|i: int| 0 <= i < paths@.len() implies #[trigger] paths@[i]@ == expected[i] by {
            assert(paths.deep_view()[i] == paths@[i]@);
        }
    }
    match chooser_reply(&paths) {
        Ok(reply) => Ok(reply),
        Err(e) => Err(PortalError::Failed(e)),
    }
}

} // verus!

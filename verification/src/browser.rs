//! Decisions of the graphical browser that do not depend on the toolkit:
//! startup options, entry order, labels, navigation history, selection
//! movement and sidebar editing.
use vstd::prelude::*;
use crate::text::{chars_of, extend_chars, extend_str, string_from_chars};
use crate::paths::{is_simple_file_name, simple_file_name};
use crate::config::{
    BrowserLayout, EntrySortOrder, KeyboardShortcut, KeyboardShortcutAction, KeyboardShortcutView,
    SidebarLocation, SidebarLocationView,
};
use crate::sorting::{is_stable_sort_of, lowercase_chars, stable_sort, SortKey};

verus! {

/// An entry of a folder as the backend lists it.
#[derive(Debug, Clone, PartialEq, Eq)]
pub struct FileEntry {
    pub name: String,
    pub path: String,
    pub is_directory: bool,
    pub thumbnail_path: String,
}

pub struct FileEntryView {
    pub name: Seq<char>,
    pub path: Seq<char>,
    pub is_directory: bool,
    pub thumbnail_path: Seq<char>,
}

impl DeepView for FileEntry {
    type V = FileEntryView;

    open spec fn deep_view(&self) -> FileEntryView {
        FileEntryView {
            name: self.name@,
            path: self.path@,
            is_directory: self.is_directory,
            thumbnail_path: self.thumbnail_path@,
        }
    }
}

/// The group an entry is listed in: folders before files, and within each,
/// visible entries before hidden (dot) entries.
pub open spec fn entry_group(e: FileEntryView) -> u8 {
    let file: u8 = if e.is_directory {
        0
    } else {
        2
    };
    let hidden: u8 = if e.name.len() > 0 && e.name[0] == '.' {
        1
    } else {
        0
    };
    (file + hidden) as u8
}

/// The key an entry is ordered by in the browser.
pub open spec fn entry_sort_key(e: FileEntryView) -> (u8, Seq<char>) {
    (entry_group(e), crate::text::lowercase(e.name))
}

fn group_of(e: &FileEntry) -> (res: u8)
    ensures
        res == entry_group(e.deep_view()),
{
    let name = chars_of(e.name.as_str());
    let file: u8 = if e.is_directory {
        0
    } else {
        2
    };
    let hidden: u8 = if name.len() > 0 && name[0] == '.' {
        1
    } else {
        0
    };
    file + hidden
}

/// Orders entries for display: by group, then by lowercase name in the
/// chosen direction; entries that compare equal keep their order.
pub fn sort_entries(entries: &mut Vec<FileEntry>, order: EntrySortOrder)
    ensures
        is_stable_sort_of(
            final(entries)@,
            old(entries)@,
            old(entries).deep_view().map_values(|e: FileEntryView| entry_sort_key(e)),
            order == EntrySortOrder::NameDescending,
        ),
{
    let mut items: Vec<FileEntry> = Vec::new();
    std::mem::swap(entries, &mut items);
    let mut keys: Vec<SortKey> = Vec::new();
    let mut i: usize = 0;
    while i < items.len()
        invariant
            i <= items@.len(),
            keys@.len() == i,
            forall|k: int|
                0 <= k < i ==> #[trigger] keys@[k].deep_view() == entry_sort_key(
                    items@[k].deep_view(),
                ),
        decreases items@.len() - i,
    {
        keys.push(SortKey { rank: group_of(&items[i]), text: lowercase_chars(items[i].name.as_str()) });
        i = i + 1;
    }
    assert(keys.deep_view() =~= items.deep_view().map_values(
        |e: FileEntryView| entry_sort_key(e),
    ));
    let descending = match order {
        EntrySortOrder::NameAscending => false,
        EntrySortOrder::NameDescending => true,
    };
    let sorted = stable_sort(items, &keys, descending);
    *entries = sorted;
}

/// A label cut to at most `max_characters` characters, ending in `...`
/// when it had to be cut.
pub open spec fn truncated_spec(value: Seq<char>, max_characters: nat) -> Seq<char> {
    if value.len() <= max_characters {
        value
    } else {
        let visible: int = if max_characters >= 3 {
            max_characters - 3
        } else {
            0
        };
        value.subrange(0, visible) + "..."@
    }
}

/// Cuts a label to at most `max_characters` characters.
pub fn truncate_label(value: &str, max_characters: usize) -> (res: String)
    ensures
        res@ == truncated_spec(value@, max_characters as nat),
{
    let chars = chars_of(value);
    if chars.len() <= max_characters {
        return string_from_chars(&chars);
    }
    let visible = max_characters.saturating_sub(3);
    let mut out = crate::paths::slice_chars(&chars, 0, visible);
    extend_str(&mut out, "...");
    string_from_chars(&out)
}

/// The lines of a label of `width` characters each (the last may be
/// shorter).
pub open spec fn chunks_spec(s: Seq<char>, width: nat) -> Seq<Seq<char>>
    recommends
        width > 0,
    decreases s.len(),
{
    if s.len() == 0 || width == 0 {
        Seq::empty()
    } else if s.len() <= width {
        seq![s]
    } else {
        seq![s.subrange(0, width as int)] + chunks_spec(s.subrange(width as int, s.len() as int), width)
    }
}

/// The label of an entry name in the tile view: cut to fit `max_lines`
/// lines of `line_characters` characters, then broken into lines.
pub open spec fn name_label_lines_spec(name: Seq<char>, line_characters: nat, max_lines: nat) -> Seq<
    Seq<char>,
> {
    let capacity = if line_characters * max_lines > usize::MAX {
        usize::MAX as nat
    } else {
        line_characters * max_lines
    };
    let width = if line_characters == 0 {
        1
    } else {
        line_characters
    };
    chunks_spec(truncated_spec(name, capacity), width)
}

fn chunk_lines(s: &Vec<char>, width: usize) -> (res: Vec<String>)
    requires
        width > 0,
    ensures
        res.deep_view() == chunks_spec(s@, width as nat),
{
    let mut res: Vec<String> = Vec::new();
    let mut start: usize = 0;
    let n = s.len();
    assert(s@.subrange(0, n as int) =~= s@);
    assert(res.deep_view() + chunks_spec(s@, width as nat) =~= chunks_spec(s@, width as nat));
    while start < n
        invariant
            width > 0,
            n == s@.len(),
            start <= n,
            res.deep_view() + chunks_spec(s@.subrange(start as int, n as int), width as nat)
                == chunks_spec(s@, width as nat),
        decreases n - start,
    {
        let ghost rest = s@.subrange(start as int, n as int);
        let end = if n - start <= width {
            n
        } else {
            start + width
        };
        let line = crate::paths::slice_chars(s, start, end);
        let ghost old_res = res.deep_view();
        res.push(string_from_chars(&line));
        proof {
            assert(res.deep_view() =~= old_res.push(line@));
            if n - start <= width {
                assert(line@ =~= rest);
                assert(chunks_spec(rest, width as nat) == seq![rest]);
                assert(s@.subrange(n as int, n as int).len() == 0);
                assert(chunks_spec(s@.subrange(n as int, n as int), width as nat) =~= Seq::<
                    Seq<char>,
                >::empty());
                assert(old_res + seq![rest] =~= res.deep_view() + Seq::<Seq<char>>::empty());
            } else {
                assert(rest.subrange(0, width as int) =~= line@);
                assert(rest.subrange(width as int, rest.len() as int) =~= s@.subrange(
                    end as int,
                    n as int,
                ));
                assert(old_res + (seq![line@] + chunks_spec(s@.subrange(end as int, n as int), width as nat))
                    =~= res.deep_view() + chunks_spec(s@.subrange(end as int, n as int), width as nat));
            }
        }
        start = end;
    }
    assert(chunks_spec(s@.subrange(n as int, n as int), width as nat) =~= Seq::<Seq<char>>::empty());
    assert(res.deep_view() + Seq::<Seq<char>>::empty() =~= res.deep_view());
    res
}

/// Breaks an entry name into the lines of its tile label.
pub fn name_label_lines(name: &str, line_characters: usize, max_lines: usize) -> (res: Vec<String>)
    ensures
        res.deep_view() == name_label_lines_spec(name@, line_characters as nat, max_lines as nat),
{
    let capacity = match line_characters.checked_mul(max_lines) {
        Some(c) => c,
        None => usize::MAX,
    };
    let label = truncate_label(name, capacity);
    let chars = chars_of(label.as_str());
    let width = if line_characters == 0 {
        1
    } else {
        line_characters
    };
    chunk_lines(&chars, width)
}

/// Whether a save name is a simple file name: one plain component, with no
/// directory separator and no traversal name.
pub fn valid_save_file_name(name: &str) -> (res: bool)
    ensures
        res == simple_file_name(name@),
{
    let chars = chars_of(name);
    is_simple_file_name(&chars)
}

} // verus!

verus! {

/// Whether the picker chooses files or folders.
#[derive(Debug, Clone, Copy, PartialEq, Eq, Structural)]
pub enum PickerKind {
    File,
    Folder,
}

/// How the browser runs as a picker.
#[derive(Debug, Clone, PartialEq, Eq)]
pub struct PickerOptions {
    pub kind: PickerKind,
    pub multiple: bool,
    pub save_file_name: Option<String>,
}

/// What the command line asks of the browser.
#[derive(Debug, Clone, PartialEq, Eq)]
pub struct StartupOptions {
    pub follow_logs: bool,
    pub initial_path: Option<String>,
    pub picker: Option<PickerOptions>,
}

/// The state of reading the command line.
pub struct ArgState {
    pub follow_logs: bool,
    pub initial_path: Option<Seq<char>>,
    pub kind: PickerKind,
    pub multiple: bool,
    pub requested: bool,
    pub save_name: Option<Seq<char>>,
}

pub open spec fn initial_arg_state() -> ArgState {
    ArgState {
        follow_logs: false,
        initial_path: None,
        kind: PickerKind::File,
        multiple: false,
        requested: false,
        save_name: None,
    }
}

/// Reads the arguments in order: flags set options, `--mode` and
/// `--save-name` take the next argument as their value, and the first
/// argument that does not start with `-` names the initial location.
pub open spec fn read_args(args: Seq<Seq<char>>, st: ArgState) -> ArgState
    decreases args.len(),
{
    if args.len() == 0 {
        st
    } else {
        let a = args[0];
        let rest = args.drop_first();
        if a == "-f"@ || a == "--follow"@ {
            read_args(rest, ArgState { follow_logs: true, ..st })
        } else if a == "--mode"@ {
            if rest.len() > 0 {
                read_args(rest.drop_first(), ArgState { requested: rest[0] == "picker"@, ..st })
            } else {
                read_args(rest, ArgState { requested: false, ..st })
            }
        } else if a == "--picker"@ {
            read_args(rest, ArgState { requested: true, ..st })
        } else if a == "--file"@ {
            read_args(rest, ArgState { kind: PickerKind::File, ..st })
        } else if a == "--folder"@ {
            read_args(rest, ArgState { kind: PickerKind::Folder, ..st })
        } else if a == "--multiple"@ || a == "--multi"@ {
            read_args(rest, ArgState { multiple: true, ..st })
        } else if a == "--single"@ {
            read_args(rest, ArgState { multiple: false, ..st })
        } else if a == "--save-name"@ {
            if rest.len() > 0 {
                read_args(rest.drop_first(), ArgState { save_name: Some(rest[0]), ..st })
            } else {
                read_args(rest, ArgState { save_name: None, ..st })
            }
        } else if !(a.len() > 0 && a[0] == '-') && st.initial_path is None {
            read_args(rest, ArgState { initial_path: Some(a), ..st })
        } else {
            read_args(rest, st)
        }
    }
}

/// Whether, after reading `args`, the next argument would be taken as the
/// value of `--mode` or `--save-name`.
pub open spec fn ends_expecting_value(args: Seq<Seq<char>>) -> bool
    decreases args.len(),
{
    if args.len() == 0 {
        false
    } else if args[0] == "--mode"@ || args[0] == "--save-name"@ {
        if args.len() == 1 {
            true
        } else {
            ends_expecting_value(args.drop_first().drop_first())
        }
    } else {
        ends_expecting_value(args.drop_first())
    }
}

proof fn lemma_read_args_concat(a: Seq<Seq<char>>, b: Seq<Seq<char>>, st: ArgState)
    requires
        !ends_expecting_value(a),
    ensures
        read_args(a + b, st) == read_args(b, read_args(a, st)),
    decreases a.len(),
{
    lemma_option_words();
    if a.len() == 0 {
        assert(a + b =~= b);
    } else {
        let x = a[0];
        assert((a + b)[0] == x);
        assert((a + b).drop_first() =~= a.drop_first() + b);
        if x == "--mode"@ || x == "--save-name"@ {
            assert(a.len() >= 2);
            assert((a + b).drop_first()[0] == a.drop_first()[0]);
            assert((a + b).drop_first().drop_first() =~= a.drop_first().drop_first() + b);
        }
        let next = if x == "-f"@ || x == "--follow"@ {
            ArgState { follow_logs: true, ..st }
        } else if x == "--mode"@ {
            ArgState { requested: a.drop_first()[0] == "picker"@, ..st }
        } else if x == "--picker"@ {
            ArgState { requested: true, ..st }
        } else if x == "--file"@ {
            ArgState { kind: PickerKind::File, ..st }
        } else if x == "--folder"@ {
            ArgState { kind: PickerKind::Folder, ..st }
        } else if x == "--multiple"@ || x == "--multi"@ {
            ArgState { multiple: true, ..st }
        } else if x == "--single"@ {
            ArgState { multiple: false, ..st }
        } else if x == "--save-name"@ {
            ArgState { save_name: Some(a.drop_first()[0]), ..st }
        } else if !(x.len() > 0 && x[0] == '-') && st.initial_path is None {
            ArgState { initial_path: Some(x), ..st }
        } else {
            st
        };
        if x == "--mode"@ || (x == "--save-name"@ && !(x == "-f"@ || x == "--follow"@)) {
            lemma_read_args_concat(a.drop_first().drop_first(), b, next);
        } else {
            lemma_read_args_concat(a.drop_first(), b, next);
        }
    }
}

proof fn lemma_requested_kept(b: Seq<Seq<char>>, st: ArgState)
    requires
        forall|i: int| 0 <= i < b.len() ==> b[i] != "--mode"@ && b[i] != "--picker"@,
    ensures
        read_args(b, st).requested == st.requested,
    decreases b.len(),
{
    if b.len() > 0 {
        let x = b[0];
        let rest = b.drop_first();
        assert forall|i: int| 0 <= i < rest.len() implies rest[i] != "--mode"@ && rest[i] != "--picker"@ by {
            assert(rest[i] == b[i + 1]);
        }
        if rest.len() > 0 {
            assert forall|i: int| 0 <= i < rest.drop_first().len() implies rest.drop_first()[i]
                != "--mode"@ && rest.drop_first()[i] != "--picker"@ by {
                assert(rest.drop_first()[i] == b[i + 2]);
            }
        }
        if x == "-f"@ || x == "--follow"@ {
            lemma_requested_kept(rest, ArgState { follow_logs: true, ..st });
        } else if x == "--file"@ {
            lemma_requested_kept(rest, ArgState { kind: PickerKind::File, ..st });
        } else if x == "--folder"@ {
            lemma_requested_kept(rest, ArgState { kind: PickerKind::Folder, ..st });
        } else if x == "--multiple"@ || x == "--multi"@ {
            lemma_requested_kept(rest, ArgState { multiple: true, ..st });
        } else if x == "--single"@ {
            lemma_requested_kept(rest, ArgState { multiple: false, ..st });
        } else if x == "--save-name"@ {
            if rest.len() > 0 {
                lemma_requested_kept(rest.drop_first(), ArgState { save_name: Some(rest[0]), ..st });
            } else {
                lemma_requested_kept(rest, ArgState { save_name: None, ..st });
            }
        } else if !(x.len() > 0 && x[0] == '-') && st.initial_path is None {
            lemma_requested_kept(rest, ArgState { initial_path: Some(x), ..st });
        } else {
            lemma_requested_kept(rest, st);
        }
    }
}

proof fn lemma_path_kept(b: Seq<Seq<char>>, st: ArgState)
    requires
        st.initial_path is Some,
    ensures
        read_args(b, st).initial_path == st.initial_path,
    decreases b.len(),
{
    if b.len() > 0 {
        let x = b[0];
        let rest = b.drop_first();
        if x == "-f"@ || x == "--follow"@ {
            lemma_path_kept(rest, ArgState { follow_logs: true, ..st });
        } else if x == "--mode"@ {
            if rest.len() > 0 {
                lemma_path_kept(rest.drop_first(), ArgState { requested: rest[0] == "picker"@, ..st });
            } else {
                lemma_path_kept(rest, ArgState { requested: false, ..st });
            }
        } else if x == "--picker"@ {
            lemma_path_kept(rest, ArgState { requested: true, ..st });
        } else if x == "--file"@ {
            lemma_path_kept(rest, ArgState { kind: PickerKind::File, ..st });
        } else if x == "--folder"@ {
            lemma_path_kept(rest, ArgState { kind: PickerKind::Folder, ..st });
        } else if x == "--multiple"@ || x == "--multi"@ {
            lemma_path_kept(rest, ArgState { multiple: true, ..st });
        } else if x == "--single"@ {
            lemma_path_kept(rest, ArgState { multiple: false, ..st });
        } else if x == "--save-name"@ {
            if rest.len() > 0 {
                lemma_path_kept(rest.drop_first(), ArgState { save_name: Some(rest[0]), ..st });
            } else {
                lemma_path_kept(rest, ArgState { save_name: None, ..st });
            }
        } else {
            lemma_path_kept(rest, st);
        }
    }
}

proof fn lemma_option_words()
    ensures
        "-f"@ == seq!['-', 'f'],
        "--follow"@ == seq!['-', '-', 'f', 'o', 'l', 'l', 'o', 'w'],
        "--mode"@ == seq!['-', '-', 'm', 'o', 'd', 'e'],
        "--picker"@ == seq!['-', '-', 'p', 'i', 'c', 'k', 'e', 'r'],
        "--file"@ == seq!['-', '-', 'f', 'i', 'l', 'e'],
        "--folder"@ == seq!['-', '-', 'f', 'o', 'l', 'd', 'e', 'r'],
        "--multiple"@ == seq!['-', '-', 'm', 'u', 'l', 't', 'i', 'p', 'l', 'e'],
        "--multi"@ == seq!['-', '-', 'm', 'u', 'l', 't', 'i'],
        "--single"@ == seq!['-', '-', 's', 'i', 'n', 'g', 'l', 'e'],
        "--save-name"@ == seq!['-', '-', 's', 'a', 'v', 'e', '-', 'n', 'a', 'm', 'e'],
        "picker"@ == seq!['p', 'i', 'c', 'k', 'e', 'r'],
{
    reveal_strlit("-f");
    reveal_strlit("--follow");
    reveal_strlit("--mode");
    reveal_strlit("--picker");
    reveal_strlit("--file");
    reveal_strlit("--folder");
    reveal_strlit("--multiple");
    reveal_strlit("--multi");
    reveal_strlit("--single");
    reveal_strlit("--save-name");
    reveal_strlit("picker");
    assert("-f"@ =~= seq!['-', 'f']);
    assert("--follow"@ =~= seq!['-', '-', 'f', 'o', 'l', 'l', 'o', 'w']);
    assert("--mode"@ =~= seq!['-', '-', 'm', 'o', 'd', 'e']);
    assert("--picker"@ =~= seq!['-', '-', 'p', 'i', 'c', 'k', 'e', 'r']);
    assert("--file"@ =~= seq!['-', '-', 'f', 'i', 'l', 'e']);
    assert("--folder"@ =~= seq!['-', '-', 'f', 'o', 'l', 'd', 'e', 'r']);
    assert("--multiple"@ =~= seq!['-', '-', 'm', 'u', 'l', 't', 'i', 'p', 'l', 'e']);
    assert("--multi"@ =~= seq!['-', '-', 'm', 'u', 'l', 't', 'i']);
    assert("--single"@ =~= seq!['-', '-', 's', 'i', 'n', 'g', 'l', 'e']);
    assert("--save-name"@ =~= seq!['-', '-', 's', 'a', 'v', 'e', '-', 'n', 'a', 'm', 'e']);
    assert("picker"@ =~= seq!['p', 'i', 'c', 'k', 'e', 'r']);
}

/// The last mode option decides whether the browser runs as a picker:
/// after any arguments that leave no option waiting for its value, a
/// `--picker`, or a `--mode` with the value `picker`, makes it a picker,
/// and a `--mode` with another value makes it the browser, whatever
/// follows that holds no other mode option.
pub proof fn lemma_last_mode_wins(a: Seq<Seq<char>>, b: Seq<Seq<char>>, mode: Seq<char>)
    requires
        !ends_expecting_value(a),
        forall|i: int| 0 <= i < b.len() ==> b[i] != "--mode"@ && b[i] != "--picker"@,
    ensures
        startup_options_spec(a + seq!["--picker"@] + b).picker is Some,
        (startup_options_spec(a + seq!["--mode"@, mode] + b).picker is Some) == (mode == "picker"@),
{
    lemma_option_words();
    let st = read_args(a, initial_arg_state());
    lemma_read_args_concat(a, seq!["--picker"@] + b, initial_arg_state());
    assert(a + seq!["--picker"@] + b =~= a + (seq!["--picker"@] + b));
    assert((seq!["--picker"@] + b).drop_first() =~= b);
    lemma_requested_kept(b, ArgState { requested: true, ..st });
    lemma_read_args_concat(a, seq!["--mode"@, mode] + b, initial_arg_state());
    assert(a + seq!["--mode"@, mode] + b =~= a + (seq!["--mode"@, mode] + b));
    assert((seq!["--mode"@, mode] + b).drop_first().drop_first() =~= b);
    assert((seq!["--mode"@, mode] + b).drop_first()[0] == mode);
    lemma_requested_kept(b, ArgState { requested: mode == "picker"@, ..st });
}

/// The first argument that is not an option, and is not taken as an
/// option's value, names the initial location; later ones are ignored.
pub proof fn lemma_first_location_wins(a: Seq<Seq<char>>, location: Seq<char>, b: Seq<Seq<char>>)
    requires
        !ends_expecting_value(a),
        read_args(a, initial_arg_state()).initial_path is None,
        !(location.len() > 0 && location[0] == '-'),
    ensures
        startup_options_spec(a + seq![location] + b).initial_path == Some(location),
{
    lemma_option_words();
    let st = read_args(a, initial_arg_state());
    lemma_read_args_concat(a, seq![location] + b, initial_arg_state());
    assert(a + seq![location] + b =~= a + (seq![location] + b));
    assert((seq![location] + b).drop_first() =~= b);
    assert(location != "-f"@ && location != "--follow"@ && location != "--mode"@ && location
        != "--picker"@ && location != "--file"@ && location != "--folder"@ && location
        != "--multiple"@ && location != "--multi"@ && location != "--single"@ && location
        != "--save-name"@) by {
        if location.len() > 0 {
            assert(location[0] != '-');
        }
    }
    lemma_path_kept(b, ArgState { initial_path: Some(location), ..st });
}

proof fn lemma_multiple_kept(b: Seq<Seq<char>>, st: ArgState)
    requires
        forall|i: int| 0 <= i < b.len() ==> b[i] != "--single"@,
        st.multiple,
    ensures
        read_args(b, st).multiple,
    decreases b.len(),
{
    if b.len() > 0 {
        let x = b[0];
        let rest = b.drop_first();
        assert forall|i: int| 0 <= i < rest.len() implies rest[i] != "--single"@ by {
            assert(rest[i] == b[i + 1]);
        }
        if rest.len() > 0 {
            assert forall|i: int| 0 <= i < rest.drop_first().len() implies rest.drop_first()[i]
                != "--single"@ by {
                assert(rest.drop_first()[i] == b[i + 2]);
            }
        }
        if x == "-f"@ || x == "--follow"@ {
            lemma_multiple_kept(rest, ArgState { follow_logs: true, ..st });
        } else if x == "--mode"@ {
            if rest.len() > 0 {
                lemma_multiple_kept(rest.drop_first(), ArgState { requested: rest[0] == "picker"@, ..st });
            } else {
                lemma_multiple_kept(rest, ArgState { requested: false, ..st });
            }
        } else if x == "--picker"@ {
            lemma_multiple_kept(rest, ArgState { requested: true, ..st });
        } else if x == "--file"@ {
            lemma_multiple_kept(rest, ArgState { kind: PickerKind::File, ..st });
        } else if x == "--folder"@ {
            lemma_multiple_kept(rest, ArgState { kind: PickerKind::Folder, ..st });
        } else if x == "--multiple"@ || x == "--multi"@ {
            lemma_multiple_kept(rest, ArgState { multiple: true, ..st });
        } else if x == "--save-name"@ {
            if rest.len() > 0 {
                lemma_multiple_kept(rest.drop_first(), ArgState { save_name: Some(rest[0]), ..st });
            } else {
                lemma_multiple_kept(rest, ArgState { save_name: None, ..st });
            }
        } else if !(x.len() > 0 && x[0] == '-') && st.initial_path is None {
            lemma_multiple_kept(rest, ArgState { initial_path: Some(x), ..st });
        } else {
            lemma_multiple_kept(rest, st);
        }
    }
}

/// `--multiple` and its alias `--multi` make a picker accept several
/// locations, whatever came before them and whatever follows that holds no
/// `--single`.
pub proof fn lemma_multiple_flags(a: Seq<Seq<char>>, flag: Seq<char>, b: Seq<Seq<char>>)
    requires
        flag == "--multiple"@ || flag == "--multi"@,
        !ends_expecting_value(a),
        forall|i: int| 0 <= i < b.len() ==> b[i] != "--single"@,
    ensures
        startup_options_spec(a + seq![flag] + b).picker matches Some(p) ==> p.multiple,
{
    lemma_option_words();
    let st = read_args(a, initial_arg_state());
    lemma_read_args_concat(a, seq![flag] + b, initial_arg_state());
    assert(a + seq![flag] + b =~= a + (seq![flag] + b));
    assert((seq![flag] + b).drop_first() =~= b);
    lemma_multiple_kept(b, ArgState { multiple: true, ..st });
}

pub struct PickerOptionsView {
    pub kind: PickerKind,
    pub multiple: bool,
    pub save_file_name: Option<Seq<char>>,
}

pub struct StartupOptionsView {
    pub follow_logs: bool,
    pub initial_path: Option<Seq<char>>,
    pub picker: Option<PickerOptionsView>,
}

impl DeepView for StartupOptions {
    type V = StartupOptionsView;

    open spec fn deep_view(&self) -> StartupOptionsView {
        StartupOptionsView {
            follow_logs: self.follow_logs,
            initial_path: self.initial_path.deep_view(),
            picker: match self.picker {
                Some(p) => Some(
                    PickerOptionsView {
                        kind: p.kind,
                        multiple: p.multiple,
                        save_file_name: p.save_file_name.deep_view(),
                    },
                ),
                None => None,
            },
        }
    }
}

/// The options the arguments ask for.
pub open spec fn startup_options_spec(args: Seq<Seq<char>>) -> StartupOptionsView {
    let st = read_args(args, initial_arg_state());
    StartupOptionsView {
        follow_logs: st.follow_logs,
        initial_path: st.initial_path,
        picker: if st.requested {
            Some(PickerOptionsView { kind: st.kind, multiple: st.multiple, save_file_name: st.save_name })
        } else {
            None
        },
    }
}

fn is_arg(a: &Vec<char>, text: &str) -> (res: bool)
    ensures
        res == (a@ == text@),
{
    let t = chars_of(text);
    crate::text::chars_equal(a, &t)
}

/// Reads the command line arguments (without the program name).
pub fn parse_startup_options(arguments: Vec<String>) -> (res: StartupOptions)
    ensures
        res.deep_view() == startup_options_spec(arguments.deep_view()),
{
    let ghost all = arguments.deep_view();
    let n = arguments.len();
    let mut follow_logs = false;
    let mut initial_path: Option<String> = None;
    let mut kind = PickerKind::File;
    let mut multiple = false;
    let mut requested = false;
    let mut save_name: Option<String> = None;
    let mut i: usize = 0;
    assert(all.subrange(0, n as int) =~= all);
    while i < n
        invariant
            n == arguments@.len(),
            all == arguments.deep_view(),
            i <= n,
            read_args(all, initial_arg_state()) == read_args(
                all.subrange(i as int, n as int),
                ArgState {
                    follow_logs,
                    initial_path: initial_path.deep_view(),
                    kind,
                    multiple,
                    requested,
                    save_name: save_name.deep_view(),
                },
            ),
        decreases n - i,
    {
        let ghost rest = all.subrange(i as int, n as int);
        assert(rest[0] == arguments@[i as int]@);
        assert(rest.drop_first() =~= all.subrange(i + 1, n as int));
        let a = chars_of(arguments[i].as_str());
        if is_arg(&a, "-f") || is_arg(&a, "--follow") {
            follow_logs = true;
            i = i + 1;
        } else if is_arg(&a, "--mode") {
            if i + 1 < n {
                assert(rest.drop_first()[0] == arguments@[i + 1]@);
                assert(rest.drop_first().drop_first() =~= all.subrange(i + 2, n as int));
                let next = chars_of(arguments[i + 1].as_str());
                requested = is_arg(&next, "picker");
                i = i + 2;
            } else {
                requested = false;
                i = i + 1;
            }
        } else if is_arg(&a, "--picker") {
            requested = true;
            i = i + 1;
        } else if is_arg(&a, "--file") {
            kind = PickerKind::File;
            i = i + 1;
        } else if is_arg(&a, "--folder") {
            kind = PickerKind::Folder;
            i = i + 1;
        } else if is_arg(&a, "--multiple") || is_arg(&a, "--multi") {
            multiple = true;
            i = i + 1;
        } else if is_arg(&a, "--single") {
            multiple = false;
            i = i + 1;
        } else if is_arg(&a, "--save-name") {
            if i + 1 < n {
                assert(rest.drop_first()[0] == arguments@[i + 1]@);
                assert(rest.drop_first().drop_first() =~= all.subrange(i + 2, n as int));
                save_name = Some(arguments[i + 1].clone());
                i = i + 2;
            } else {
                save_name = None;
                i = i + 1;
            }
        } else {
            if !(a.len() > 0 && a[0] == '-') && initial_path.is_none() {
                initial_path = Some(arguments[i].clone());
            }
            i = i + 1;
        }
    }
    assert(all.subrange(n as int, n as int).len() == 0);
    let picker = if requested {
        Some(PickerOptions { kind, multiple, save_file_name: save_name })
    } else {
        None
    };
    StartupOptions { follow_logs, initial_path, picker }
}

} // verus!

verus! {

/// How a location that finished loading enters the navigation history.
#[derive(Debug, Clone, Copy, PartialEq, Eq, Structural)]
pub enum HistoryRequest {
    Initial,
    New,
    Existing(usize),
}

/// The locations visited, with the position of the current one.
pub struct NavigationHistory {
    entries: Vec<String>,
    index: Option<usize>,
}

pub struct HistoryView {
    pub entries: Seq<Seq<char>>,
    pub index: Option<int>,
}

impl DeepView for NavigationHistory {
    type V = HistoryView;

    closed spec fn deep_view(&self) -> HistoryView {
        HistoryView {
            entries: self.entries.deep_view(),
            index: match self.index {
                Some(i) => Some(i as int),
                None => None,
            },
        }
    }
}

/// The history is well formed: the current position is an entry.
pub open spec fn history_wf(h: HistoryView) -> bool {
    h.index matches Some(i) ==> 0 <= i < h.entries.len()
}

/// Records a newly opened location: a history without a position starts
/// over; reopening the current entry (the same path, component by
/// component) changes nothing; otherwise the entries after the current one
/// are dropped and the location appended.
pub open spec fn record_new_spec(h: HistoryView, path: Seq<char>) -> HistoryView {
    match h.index {
        None => HistoryView { entries: seq![path], index: Some(0) },
        Some(i) => if crate::paths::same_path(h.entries[i], path) {
            h
        } else {
            HistoryView { entries: h.entries.subrange(0, i + 1).push(path), index: Some(i + 1) }
        },
    }
}

pub open spec fn record_spec(h: HistoryView, path: Seq<char>, request: HistoryRequest) -> HistoryView {
    match request {
        HistoryRequest::Initial => HistoryView { entries: seq![path], index: Some(0) },
        HistoryRequest::New => record_new_spec(h, path),
        HistoryRequest::Existing(i) => if i < h.entries.len() && crate::paths::same_path(
            h.entries[i as int],
            path,
        ) {
            HistoryView { entries: h.entries, index: Some(i as int) }
        } else {
            record_new_spec(h, path)
        },
    }
}

/// The entry `direction` steps from the current one, if there is one.
pub open spec fn navigate_spec(h: HistoryView, direction: int) -> Option<(Seq<char>, int)> {
    match h.index {
        None => None,
        Some(i) => if 0 <= i + direction < h.entries.len() {
            Some((h.entries[i + direction], i + direction))
        } else {
            None
        },
    }
}

impl NavigationHistory {
    #[verifier::type_invariant]
    spec fn well_formed(self) -> bool {
        self.index matches Some(i) ==> i < self.entries@.len()
    }

    /// An empty history.
    pub fn new() -> (res: Self)
        ensures
            res.deep_view().entries.len() == 0,
            res.deep_view().index is None,
    {
        NavigationHistory { entries: Vec::new(), index: None }
    }

    /// The visited locations and the current position.
    pub fn view_of(&self) -> (res: (Vec<String>, Option<usize>))
        ensures
            res.0.deep_view() == self.deep_view().entries,
            res.1 matches Some(i) ==> self.deep_view().index == Some(i as int),
            res.1 is None ==> self.deep_view().index is None,
    {
        let mut copy: Vec<String> = Vec::new();
        let mut k: usize = 0;
        while k < self.entries.len()
            invariant
                k <= self.entries@.len(),
                copy@.len() == k,
                forall|j: int| 0 <= j < k ==> #[trigger] copy@[j]@ == self.entries@[j]@,
            decreases self.entries@.len() - k,
        {
            copy.push(self.entries[k].clone());
            k = k + 1;
        }
        assert(copy.deep_view() =~= self.entries.deep_view());
        (copy, self.index)
    }

    /// Records a location that finished loading.
    pub fn record(&mut self, path: String, request: HistoryRequest)
        ensures
            final(self).deep_view() == record_spec(old(self).deep_view(), path@, request),
            history_wf(final(self).deep_view()),
    {
        let mut current = NavigationHistory::new();
        std::mem::swap(self, &mut current);
        *self = Self::recorded(current, path, request);
    }

    fn recorded(h: Self, path: String, request: HistoryRequest) -> (res: Self)
        ensures
            res.deep_view() == record_spec(h.deep_view(), path@, request),
            history_wf(res.deep_view()),
    {
        proof {
            use_type_invariant(&h);
        }
        let ghost hv = h.deep_view();
        let NavigationHistory { entries, index } = h;
        match request {
            HistoryRequest::Initial => Self::started(path),
            HistoryRequest::New => Self::recorded_new(entries, index, path),
            HistoryRequest::Existing(i) => {
                if i < entries.len() && crate::paths::paths_equal(entries[i].as_str(), path.as_str()) {
                    assert(hv.entries[i as int] == entries@[i as int]@);
                    NavigationHistory { entries, index: Some(i) }
                } else {
                    proof {
                        if i < entries@.len() {
                            assert(hv.entries[i as int] == entries@[i as int]@);
                        }
                    }
                    Self::recorded_new(entries, index, path)
                }
            },
        }
    }

    fn started(path: String) -> (res: Self)
        ensures
            res.deep_view() == (HistoryView { entries: seq![path@], index: Some(0) }),
    {
        let mut entries: Vec<String> = Vec::new();
        entries.push(path);
        assert(entries.deep_view() =~= seq![path@]);
        NavigationHistory { entries, index: Some(0) }
    }

    fn recorded_new(entries: Vec<String>, index: Option<usize>, path: String) -> (res: Self)
        requires
            index matches Some(i) ==> i < entries@.len(),
        ensures
            res.deep_view() == record_new_spec(
                HistoryView {
                    entries: entries.deep_view(),
                    index: match index {
                        Some(i) => Some(i as int),
                        None => None,
                    },
                },
                path@,
            ),
    {
        let ghost ev = entries.deep_view();
        match index {
            None => Self::started(path),
            Some(i) => {
                assert(ev[i as int] == entries@[i as int]@);
                if crate::paths::paths_equal(entries[i].as_str(), path.as_str()) {
                    return NavigationHistory { entries, index: Some(i) };
                }
                let len = entries.len();
                assert(i < len);
                let mut entries = entries;
                entries.truncate(i + 1);
                entries.push(path);
                assert(entries.deep_view() =~= ev.subrange(0, i + 1).push(path@));
                NavigationHistory { entries, index: Some(i + 1) }
            },
        }
    }

    /// The location `direction` steps from the current one (back for
    /// negative steps), with its position, to be requested as `Existing`.
    pub fn navigate(&self, direction: isize) -> (res: Option<(String, usize)>)
        ensures
            res is None <==> navigate_spec(self.deep_view(), direction as int) is None,
            res matches Some((p, i)) ==> navigate_spec(self.deep_view(), direction as int) == Some(
                (p@, i as int),
            ),
    {
        proof {
            use_type_invariant(self);
        }
        let len = self.entries.len();
        let index = match self.index {
            Some(i) => i,
            None => {
                return None;
            },
        };
        let target = match index.checked_add_signed(direction) {
            Some(t) => t,
            None => {
                return None;
            },
        };
        if target < self.entries.len() {
            assert(self.deep_view().entries[target as int] == self.entries@[target as int]@);
            Some((self.entries[target].clone(), target))
        } else {
            None
        }
    }
}

/// Going back one step and then forward one step returns to where one was,
/// and recording the entry reached by going back keeps every entry.
pub proof fn lemma_back_then_forward(h: HistoryView)
    requires
        history_wf(h),
        h.entries.len() <= usize::MAX,
        navigate_spec(h, -1) is Some,
    ensures
        ({
            let (path, target) = navigate_spec(h, -1).unwrap();
            let back = record_spec(h, path, HistoryRequest::Existing(target as usize));
            &&& back.entries == h.entries
            &&& back.index == Some(target)
            &&& navigate_spec(back, 1) == Some((h.entries[h.index.unwrap()], h.index.unwrap()))
        }),
{
}

/// Opening a new location after going back drops the entries that were
/// ahead, and going back from it returns to where it was opened from.
pub proof fn lemma_new_location_truncates(h: HistoryView, path: Seq<char>)
    requires
        history_wf(h),
        h.index is Some,
        !crate::paths::same_path(h.entries[h.index.unwrap()], path),
    ensures
        ({
            let after = record_spec(h, path, HistoryRequest::New);
            let i = h.index.unwrap();
            &&& after.entries.len() == i + 2
            &&& after.entries[i + 1] == path
            &&& navigate_spec(after, 1) is None
            &&& navigate_spec(after, -1) == Some((h.entries[i], i))
        }),
{
}

} // verus!

verus! {

/// The first position of a sidebar location with the given path
/// (compared component by component), or -1.
pub open spec fn first_position(ls: Seq<SidebarLocationView>, path: Seq<char>) -> int
    decreases ls.len(),
{
    if ls.len() == 0 {
        -1
    } else if crate::paths::same_path(ls[0].path, path) {
        0
    } else {
        let r = first_position(ls.drop_first(), path);
        if r < 0 {
            -1
        } else {
            r + 1
        }
    }
}

pub proof fn lemma_first_position(ls: Seq<SidebarLocationView>, path: Seq<char>)
    ensures
        -1 <= first_position(ls, path) < ls.len(),
        first_position(ls, path) >= 0 ==> crate::paths::same_path(ls[first_position(ls, path)].path, path),
        forall|k: int|
            0 <= k < ls.len() && (first_position(ls, path) < 0 || k < first_position(ls, path))
                ==> !crate::paths::same_path(#[trigger] ls[k].path, path),
    decreases ls.len(),
{
    if ls.len() > 0 && !crate::paths::same_path(ls[0].path, path) {
        lemma_first_position(ls.drop_first(), path);
        assert forall|k: int|
            0 <= k < ls.len() && (first_position(ls, path) < 0 || k < first_position(ls, path))
                implies !crate::paths::same_path(#[trigger] ls[k].path, path) by {
            if k > 0 {
                assert(ls[k] == ls.drop_first()[k - 1]);
            }
        }
    }
}

/// The position of the first sidebar location with the given path.
pub fn position_of(locations: &Vec<SidebarLocation>, path: &str) -> (res: Option<usize>)
    ensures
        match res {
            Some(i) => i as int == first_position(locations.deep_view(), path@),
            None => first_position(locations.deep_view(), path@) == -1,
        },
{
    let ghost ls = locations.deep_view();
    let mut i: usize = 0;
    assert(ls.subrange(0, ls.len() as int) =~= ls);
    while i < locations.len()
        invariant
            ls == locations.deep_view(),
            i <= locations@.len(),
            first_position(ls, path@) == if first_position(ls.subrange(i as int, ls.len() as int), path@) < 0 {
                -1
            } else {
                first_position(ls.subrange(i as int, ls.len() as int), path@) + i
            },
        decreases locations@.len() - i,
    {
        let ghost rest = ls.subrange(i as int, ls.len() as int);
        assert(rest[0] == ls[i as int]);
        assert(rest.drop_first() =~= ls.subrange(i + 1, ls.len() as int));
        if crate::paths::paths_equal(locations[i].path.as_str(), path) {
            return Some(i);
        }
        i = i + 1;
    }
    None
}

/// What releasing a dragged sidebar location on another one does.
pub enum SidebarDrop {
    /// The location was dropped on itself: open it.
    OpenTarget,
    /// Nothing changes.
    Keep,
    /// The reordered sidebar to save.
    Save(Vec<SidebarLocation>),
}

/// The sidebar after moving the location with path `source` onto the
/// position of the location with path `target`.
pub open spec fn moved_spec(ls: Seq<SidebarLocationView>, source: Seq<char>, target: Seq<char>) -> Option<
    Seq<SidebarLocationView>,
> {
    let s = first_position(ls, source);
    if s < 0 {
        None
    } else {
        let removed = ls.remove(s);
        let t = first_position(removed, target);
        if t < 0 {
            None
        } else {
            Some(removed.insert(t, ls[s]))
        }
    }
}

/// Moves the dragged location `source` to where `target` is.
pub fn drop_sidebar_location(locations: Vec<SidebarLocation>, source: &str, target: &str) -> (res:
    SidebarDrop)
    ensures
        crate::paths::same_path(source@, target@) ==> res is OpenTarget,
        !crate::paths::same_path(source@, target@) ==> match moved_spec(locations.deep_view(), source@, target@) {
            None => res is Keep,
            Some(moved) => res matches SidebarDrop::Save(v) && v.deep_view() == moved,
        },
{
    if crate::paths::paths_equal(source, target) {
        return SidebarDrop::OpenTarget;
    }
    let ghost ls = locations.deep_view();
    let source_index = match position_of(&locations, source) {
        Some(i) => i,
        None => {
            return SidebarDrop::Keep;
        },
    };
    proof {
        lemma_first_position(ls, source@);
    }
    let mut locations = locations;
    let location = locations.remove(source_index);
    assert(locations.deep_view() =~= ls.remove(source_index as int));
    let target_index = match position_of(&locations, target) {
        Some(i) => i,
        None => {
            return SidebarDrop::Keep;
        },
    };
    proof {
        lemma_first_position(locations.deep_view(), target@);
    }
    let ghost removed = locations.deep_view();
    locations.insert(target_index, location);
    assert(locations.deep_view() =~= removed.insert(target_index as int, ls[source_index as int]));
    SidebarDrop::Save(locations)
}

/// Moves the dragged location `source` to the end of the sidebar; `None`
/// when there is no such location.
pub fn drop_sidebar_location_at_end(locations: Vec<SidebarLocation>, source: &str) -> (res: Option<
    Vec<SidebarLocation>,
>)
    ensures
        ({
            let ls = locations.deep_view();
            let s = first_position(ls, source@);
            &&& s < 0 ==> res is None
            &&& s >= 0 ==> (res matches Some(v) && v.deep_view() == ls.remove(s).push(ls[s]))
        }),
{
    let ghost ls = locations.deep_view();
    let source_index = match position_of(&locations, source) {
        Some(i) => i,
        None => {
            return None;
        },
    };
    proof {
        lemma_first_position(ls, source@);
    }
    let mut locations = locations;
    let location = locations.remove(source_index);
    assert(locations.deep_view() =~= ls.remove(source_index as int));
    locations.push(location);
    assert(locations.deep_view() =~= ls.remove(source_index as int).push(ls[source_index as int]));
    Some(locations)
}

/// Pins a folder to the sidebar under its own name (its whole path when it
/// has no name); `None` when it is already pinned.
pub fn add_sidebar_location(locations: Vec<SidebarLocation>, path: &str) -> (res: Option<
    Vec<SidebarLocation>,
>)
    ensures
        ({
            let ls = locations.deep_view();
            let label = match crate::paths::file_name_spec(path@) {
                Some(n) => n,
                None => path@,
            };
            &&& first_position(ls, path@) >= 0 ==> res is None
            &&& first_position(ls, path@) < 0 ==> (res matches Some(v) && v.deep_view() == ls.push(
                SidebarLocationView { label: label, path: path@ },
            ))
        }),
{
    let ghost ls = locations.deep_view();
    if position_of(&locations, path).is_some() {
        return None;
    }
    let chars = chars_of(path);
    let label = match crate::paths::file_name_chars(&chars) {
        Some(name) => string_from_chars(&name),
        None => string_from_chars(&chars),
    };
    let mut locations = locations;
    locations.push(SidebarLocation { label, path: string_from_chars(&chars) });
    assert(locations.deep_view() =~= ls.push(
        SidebarLocationView {
            label: match crate::paths::file_name_spec(path@) {
                Some(n) => n,
                None => path@,
            },
            path: path@,
        },
    ));
    Some(locations)
}

/// Dragging a sidebar location onto another keeps the same locations, and
/// the dragged one takes the place the target had.
pub proof fn lemma_sidebar_move_keeps_locations(
    ls: Seq<SidebarLocationView>,
    source: Seq<char>,
    target: Seq<char>,
)
    ensures
        moved_spec(ls, source, target) matches Some(m) ==> {
            &&& m.len() == ls.len()
            &&& m.to_multiset() == ls.to_multiset()
            &&& m[first_position(ls.remove(first_position(ls, source)), target)] == ls[first_position(
                ls,
                source,
            )]
            &&& crate::paths::same_path(
                m[first_position(ls.remove(first_position(ls, source)), target)].path,
                source,
            )
        },
{
    broadcast use vstd::seq_lib::to_multiset_remove, vstd::seq_lib::to_multiset_insert;
    broadcast use vstd::multiset::group_multiset_axioms;

    lemma_first_position(ls, source);
    let s = first_position(ls, source);
    if s >= 0 {
        let removed = ls.remove(s);
        lemma_first_position(removed, target);
        let t = first_position(removed, target);
        if t >= 0 {
            let m = removed.insert(t, ls[s]);
            assert(removed.to_multiset() == ls.to_multiset().remove(ls[s]));
            assert(m.to_multiset() == removed.to_multiset().insert(ls[s]));
            assert(ls.to_multiset().count(ls[s]) > 0) by {
                vstd::seq_lib::to_multiset_contains(ls, ls[s]);
            }
            assert(m.to_multiset() =~= ls.to_multiset());
        }
    }
}

/// Dropping a sidebar location after the last one keeps the same
/// locations and puts the dragged one last.
pub proof fn lemma_sidebar_move_to_end_keeps_locations(ls: Seq<SidebarLocationView>, source: Seq<char>)
    requires
        first_position(ls, source) >= 0,
    ensures
        ({
            let s = first_position(ls, source);
            let m = ls.remove(s).push(ls[s]);
            &&& m.len() == ls.len()
            &&& m.to_multiset() == ls.to_multiset()
            &&& crate::paths::same_path(m.last().path, source)
        }),
{
    broadcast use vstd::seq_lib::to_multiset_remove, vstd::seq_lib::to_multiset_build;
    broadcast use vstd::multiset::group_multiset_axioms;

    lemma_first_position(ls, source);
    let s = first_position(ls, source);
    let removed = ls.remove(s);
    assert(removed.to_multiset() == ls.to_multiset().remove(ls[s]));
    assert(ls.to_multiset().count(ls[s]) > 0) by {
        vstd::seq_lib::to_multiset_contains(ls, ls[s]);
    }
    assert(removed.push(ls[s]).to_multiset() =~= ls.to_multiset());
}

/// The sidebar without the locations that have the given path.
pub open spec fn without_path(ls: Seq<SidebarLocationView>, path: Seq<char>) -> Seq<SidebarLocationView>
    decreases ls.len(),
{
    if ls.len() == 0 {
        ls
    } else {
        let prev = without_path(ls.drop_last(), path);
        if crate::paths::same_path(ls.last().path, path) {
            prev
        } else {
            prev.push(ls.last())
        }
    }
}

/// Unpins a folder from the sidebar.
pub fn remove_sidebar_location(locations: Vec<SidebarLocation>, path: &str) -> (res: Vec<
    SidebarLocation,
>)
    ensures
        res.deep_view() == without_path(locations.deep_view(), path@),
{
    let ghost ls = locations.deep_view();
    let n = locations.len();
    let mut kept: Vec<SidebarLocation> = Vec::new();
    let mut rest = locations;
    let mut i: usize = 0;
    while rest.len() > 0
        invariant
            ls.len() == n,
            i + rest@.len() == n,
            rest.deep_view() == ls.subrange(i as int, n as int),
            kept.deep_view() == without_path(ls.subrange(0, i as int), path@),
        decreases rest@.len(),
    {
        let ghost before = rest.deep_view();
        let location = rest.remove(0);
        assert(location.deep_view() == ls[i as int]) by {
            assert(before[0] == ls[i as int]);
        }
        assert(ls.subrange(0, i + 1).drop_last() =~= ls.subrange(0, i as int));
        if !crate::paths::paths_equal(location.path.as_str(), path) {
            kept.push(location);
            assert(kept.deep_view() =~= without_path(ls.subrange(0, i as int), path@).push(
                ls[i as int],
            ));
        }
        i = i + 1;
        assert(rest.deep_view() =~= ls.subrange(i as int, n as int)) by {
            assert forall|k: int| 0 <= k < rest@.len() implies rest.deep_view()[k] == ls.subrange(
                i as int,
                n as int,
            )[k] by {
                assert(before[k + 1] == ls[i + k]);
            }
        }
    }
    assert(ls.subrange(0, n as int) =~= ls);
    kept
}

/// A direction in which the arrow keys move the selection.
#[derive(Debug, Clone, Copy, PartialEq, Eq, Structural)]
pub enum SelectionDirection {
    Left,
    Right,
    Up,
    Down,
}

/// The position the selection moves to from `index` among `len` visible
/// entries: in a list every arrow moves by one; among tiles up and down
/// move by a row of `columns` (at least one).
pub open spec fn move_target_spec(
    index: int,
    len: int,
    layout: BrowserLayout,
    direction: SelectionDirection,
    columns: int,
) -> Option<int> {
    let step: int = if layout == BrowserLayout::Tiles && (direction == SelectionDirection::Up
        || direction == SelectionDirection::Down) {
        if columns < 1 {
            1
        } else {
            columns
        }
    } else {
        1
    };
    let backward = direction == SelectionDirection::Left || direction == SelectionDirection::Up;
    if backward {
        if index - step >= 0 {
            Some(index - step)
        } else {
            None
        }
    } else {
        if index + step < len {
            Some(index + step)
        } else {
            None
        }
    }
}

/// Where the arrow keys move a single selection.
pub fn selection_move_target(
    index: usize,
    len: usize,
    layout: BrowserLayout,
    direction: SelectionDirection,
    columns: usize,
) -> (res: Option<usize>)
    requires
        index < len,
    ensures
        match res {
            Some(t) => move_target_spec(index as int, len as int, layout, direction, columns as int)
                == Some(t as int),
            None => move_target_spec(index as int, len as int, layout, direction, columns as int)
                is None,
        },
{
    let vertical = match direction {
        SelectionDirection::Up | SelectionDirection::Down => true,
        _ => false,
    };
    let step: usize = if layout == BrowserLayout::Tiles && vertical {
        if columns < 1 {
            1
        } else {
            columns
        }
    } else {
        1
    };
    match direction {
        SelectionDirection::Left | SelectionDirection::Up => index.checked_sub(step),
        _ => {
            if step < len - index {
                Some(index + step)
            } else {
                None
            }
        },
    }
}

/// The shortcuts with `action` bound to the trimmed `key`, or unbound when
/// the key is empty.
pub open spec fn shortcuts_with(
    shortcuts: Seq<KeyboardShortcutView>,
    action: KeyboardShortcutAction,
    key: Seq<char>,
) -> Seq<KeyboardShortcutView> {
    let kept = shortcuts.filter(|s: KeyboardShortcutView| s.action != action);
    let trimmed = crate::text::trim_spec(key);
    if trimmed.len() == 0 {
        kept
    } else {
        kept.push(KeyboardShortcutView { action: action, key: trimmed })
    }
}

/// Binds `action` to `key` (trimmed); an empty key unbinds it.
pub fn set_keyboard_shortcut(
    shortcuts: Vec<KeyboardShortcut>,
    action: KeyboardShortcutAction,
    key: &str,
) -> (res: Vec<KeyboardShortcut>)
    ensures
        res.deep_view() == shortcuts_with(shortcuts.deep_view(), action, key@),
{
    let ghost all = shortcuts.deep_view();
    let n = shortcuts.len();
    let mut kept: Vec<KeyboardShortcut> = Vec::new();
    let mut rest = shortcuts;
    let mut i: usize = 0;
    while rest.len() > 0
        invariant
            all.len() == n,
            i + rest@.len() == n,
            rest.deep_view() == all.subrange(i as int, n as int),
            kept.deep_view() == all.subrange(0, i as int).filter(
                |s: KeyboardShortcutView| s.action != action,
            ),
        decreases rest@.len(),
    {
        let ghost before = rest.deep_view();
        let shortcut = rest.remove(0);
        assert(shortcut.deep_view() == all[i as int]) by {
            assert(before[0] == all[i as int]);
        }
        assert(all.subrange(0, i + 1).drop_last() =~= all.subrange(0, i as int));
        reveal_with_fuel(Seq::filter, 1);
        if shortcut.action != action {
            kept.push(shortcut);
            assert(kept.deep_view() =~= all.subrange(0, i as int).filter(
                |s: KeyboardShortcutView| s.action != action,
            ).push(all[i as int]));
        }
        i = i + 1;
        assert(rest.deep_view() =~= all.subrange(i as int, n as int)) by {
            assert forall|k: int| 0 <= k < rest@.len() implies rest.deep_view()[k] == all.subrange(
                i as int,
                n as int,
            )[k] by {
                assert(before[k + 1] == all[i + k]);
            }
        }
    }
    assert(all.subrange(0, n as int) =~= all);
    let trimmed = crate::text::trim(key);
    if !trimmed.as_str().is_empty() {
        kept.push(KeyboardShortcut { action, key: trimmed });
    }
    kept
}

} // verus!

verus! {

/// What a click on an entry opens.
#[derive(Debug, Clone, Copy, PartialEq, Eq, Structural)]
pub enum ClickOpen {
    Nothing,
    /// Browse to the entry (list a folder, preview a file).
    Browse,
    /// Open the file with its associated application.
    Launch,
}

/// What a click on an entry does.
#[derive(Debug, Clone, Copy, PartialEq, Eq, Structural)]
pub struct ClickDecision {
    /// The entry becomes selected.
    pub select: bool,
    pub open: ClickOpen,
    /// The click is remembered, so that a second one can make a double click.
    pub remember_click: bool,
}

/// The effect of a click. In a picker, a double click enters a folder and a
/// single click selects an entry of the kind being picked. In the browser a
/// click selects; it enters a folder on a double click, or on a single one
/// when so configured; a double click launches a file, a single one
/// previews it.
pub open spec fn click_spec(
    picker: Option<PickerKind>,
    is_directory: bool,
    is_double_click: bool,
    single_click_opens_folders: bool,
) -> ClickDecision {
    match picker {
        Some(kind) => if is_directory && is_double_click {
            ClickDecision { select: false, open: ClickOpen::Browse, remember_click: false }
        } else {
            ClickDecision {
                select: (kind == PickerKind::Folder) == is_directory,
                open: ClickOpen::Nothing,
                remember_click: true,
            }
        },
        None => if is_directory {
            if single_click_opens_folders || is_double_click {
                ClickDecision { select: true, open: ClickOpen::Browse, remember_click: false }
            } else {
                ClickDecision { select: true, open: ClickOpen::Nothing, remember_click: true }
            }
        } else if is_double_click {
            ClickDecision { select: true, open: ClickOpen::Launch, remember_click: false }
        } else {
            ClickDecision { select: true, open: ClickOpen::Browse, remember_click: true }
        },
    }
}

/// Decides what a click on an entry does.
pub fn entry_click(
    picker: Option<PickerKind>,
    is_directory: bool,
    is_double_click: bool,
    single_click_opens_folders: bool,
) -> (res: ClickDecision)
    ensures
        res == click_spec(picker, is_directory, is_double_click, single_click_opens_folders),
{
    match picker {
        Some(kind) => {
            if is_directory && is_double_click {
                ClickDecision { select: false, open: ClickOpen::Browse, remember_click: false }
            } else {
                let folder = match kind {
                    PickerKind::Folder => true,
                    PickerKind::File => false,
                };
                ClickDecision { select: folder == is_directory, open: ClickOpen::Nothing, remember_click: true }
            }
        },
        None => {
            if is_directory {
                if single_click_opens_folders || is_double_click {
                    ClickDecision { select: true, open: ClickOpen::Browse, remember_click: false }
                } else {
                    ClickDecision { select: true, open: ClickOpen::Nothing, remember_click: true }
                }
            } else if is_double_click {
                ClickDecision { select: true, open: ClickOpen::Launch, remember_click: false }
            } else {
                ClickDecision { select: true, open: ClickOpen::Browse, remember_click: true }
            }
        },
    }
}

/// The icon of a sidebar location, chosen by its label.
pub fn sidebar_icon(label: &str) -> (res: &'static str)
    ensures
        label@ == "Home"@ ==> res@ == "house"@,
        label@ == "Downloads"@ ==> res@ == "download"@,
        label@ == "Pictures"@ ==> res@ == "image"@,
        label@ != "Home"@ && label@ != "Downloads"@ && label@ != "Pictures"@ ==> res@ == "folder"@,
{
    proof {
        reveal_strlit("Home");
        reveal_strlit("Downloads");
        reveal_strlit("Pictures");
        assert("Home"@.len() == 4 && "Downloads"@.len() == 9 && "Pictures"@.len() == 8);
        assert("Home"@ != "Downloads"@ && "Home"@ != "Pictures"@ && "Downloads"@ != "Pictures"@);
    }
    if crate::text::str_equal(label, "Home") {
        "house"
    } else if crate::text::str_equal(label, "Downloads") {
        "download"
    } else if crate::text::str_equal(label, "Pictures") {
        "image"
    } else {
        "folder"
    }
}

/// How archives are compressed.
#[derive(Debug, Clone, Copy, PartialEq, Eq, Structural)]
pub enum ArchiveCompression {
    Store,
    Deflate,
    Bzip2,
    Zstd,
}

/// The name the backend knows a compression method by.
pub open spec fn compression_name(c: ArchiveCompression) -> Seq<char> {
    match c {
        ArchiveCompression::Store => "store"@,
        ArchiveCompression::Deflate => "deflate"@,
        ArchiveCompression::Bzip2 => "bzip2"@,
        ArchiveCompression::Zstd => "zstd"@,
    }
}

impl ArchiveCompression {
    /// The name the backend knows the method by.
    pub fn value(self) -> (res: &'static str)
        ensures
            res@ == compression_name(self),
    {
        match self {
            ArchiveCompression::Store => "store",
            ArchiveCompression::Deflate => "deflate",
            ArchiveCompression::Bzip2 => "bzip2",
            ArchiveCompression::Zstd => "zstd",
        }
    }
}

/// The choice shown for the configured terminal command.
pub open spec fn terminal_choice_spec(command: Seq<char>, recommendations: Seq<Seq<char>>) -> Seq<char> {
    if command == "default"@ {
        "System default"@
    } else if recommendations.contains(command) {
        command
    } else {
        "Custom command"@
    }
}

/// The terminal choice that the settings select.
pub fn selected_terminal_choice(command: &str, recommendations: &Vec<String>) -> (res: String)
    ensures
        res@ == terminal_choice_spec(command@, recommendations.deep_view()),
{
    if crate::text::str_equal(command, "default") {
        string_from_chars(&chars_of("System default"))
    } else if crate::paths::contains_path(recommendations, command) {
        string_from_chars(&chars_of(command))
    } else {
        string_from_chars(&chars_of("Custom command"))
    }
}

/// Appends copies of `src` to `dst`.
pub fn append_strings(dst: &mut Vec<String>, src: &Vec<String>)
    ensures
        final(dst).deep_view() == old(dst).deep_view() + src.deep_view(),
{
    let ghost start = dst.deep_view();
    let mut i: usize = 0;
    while i < src.len()
        invariant
            i <= src@.len(),
            dst@.len() == start.len() + i,
            forall|k: int| 0 <= k < start.len() ==> #[trigger] dst@[k]@ == start[k],
            forall|k: int| 0 <= k < i ==> #[trigger] dst@[start.len() + k]@ == src@[k]@,
        decreases src@.len() - i,
    {
        dst.push(src[i].clone());
        i = i + 1;
    }
    assert forall|k: int| 0 <= k < dst@.len() implies #[trigger] dst.deep_view()[k] == (start
        + src.deep_view())[k] by {
        if k >= start.len() {
            assert(dst@[start.len() + (k - start.len())]@ == src@[k - start.len()]@);
        }
    }
    assert(dst.deep_view() =~= start + src.deep_view());
}

/// The terminal choices offered: the system default, the recommended
/// commands found, and a custom command.
pub fn terminal_choices(recommendations: &Vec<String>) -> (res: Vec<String>)
    ensures
        res.deep_view() == seq!["System default"@] + recommendations.deep_view() + seq![
            "Custom command"@,
        ],
{
    let mut res: Vec<String> = Vec::new();
    res.push(string_from_chars(&chars_of("System default")));
    assert(res.deep_view() =~= seq!["System default"@]);
    append_strings(&mut res, recommendations);
    let ghost middle = res.deep_view();
    res.push(string_from_chars(&chars_of("Custom command")));
    assert(res.deep_view() =~= middle.push("Custom command"@));
    assert(res.deep_view() =~= seq!["System default"@] + recommendations.deep_view() + seq![
        "Custom command"@,
    ]);
    res
}

/// The icon themes offered: those found, plus the configured one when it
/// is not among them.
pub fn icon_theme_choices(themes: &Vec<String>, current: &str) -> (res: Vec<String>)
    ensures
        themes.deep_view().contains(current@) ==> res.deep_view() == themes.deep_view(),
        !themes.deep_view().contains(current@) ==> res.deep_view() == themes.deep_view().push(
            current@,
        ),
{
    let mut res: Vec<String> = Vec::new();
    append_strings(&mut res, themes);
    assert(res.deep_view() =~= themes.deep_view());
    if !crate::paths::contains_path(themes, current) {
        res.push(string_from_chars(&chars_of(current)));
        assert(res.deep_view() =~= themes.deep_view().push(current@));
    }
    res
}

} // verus!

verus! {

/// The first position of `x` in `s`, or -1.
pub open spec fn index_in(s: Seq<Seq<char>>, x: Seq<char>) -> int
    decreases s.len(),
{
    if s.len() == 0 {
        -1
    } else if s[0] == x {
        0
    } else {
        let r = index_in(s.drop_first(), x);
        if r < 0 {
            -1
        } else {
            r + 1
        }
    }
}

pub proof fn lemma_index_in(s: Seq<Seq<char>>, x: Seq<char>)
    ensures
        -1 <= index_in(s, x) < s.len(),
        index_in(s, x) >= 0 ==> s[index_in(s, x)] == x,
        index_in(s, x) < 0 ==> !s.contains(x),
    decreases s.len(),
{
    if s.len() > 0 && s[0] != x {
        lemma_index_in(s.drop_first(), x);
        if index_in(s, x) < 0 {
            assert forall|k: int| 0 <= k < s.len() implies s[k] != x by {
                if k > 0 {
                    assert(s[k] == s.drop_first()[k - 1]);
                }
            }
        }
    }
}

/// The component keys of paths: two paths are the same `Path` exactly when
/// their keys are equal.
pub open spec fn path_keys(s: Seq<Seq<char>>) -> Seq<Seq<char>> {
    s.map_values(|p: Seq<char>| crate::paths::path_key_spec(p))
}

/// The component key of a path that may be absent.
pub open spec fn opt_key(a: Option<Seq<char>>) -> Option<Seq<char>> {
    match a {
        Some(x) => Some(crate::paths::path_key_spec(x)),
        None => None,
    }
}

proof fn lemma_keys_push(s: Seq<Seq<char>>, x: Seq<char>)
    ensures
        path_keys(s.push(x)) == path_keys(s).push(crate::paths::path_key_spec(x)),
{
    assert(path_keys(s.push(x)) =~= path_keys(s).push(crate::paths::path_key_spec(x)));
}

fn index_of(entries: &Vec<String>, x: &str) -> (res: Option<usize>)
    ensures
        match res {
            Some(i) => i as int == index_in(path_keys(entries.deep_view()), crate::paths::path_key_spec(x@)),
            None => index_in(path_keys(entries.deep_view()), crate::paths::path_key_spec(x@)) == -1,
        },
{
    let ghost es = path_keys(entries.deep_view());
    let ghost kx = crate::paths::path_key_spec(x@);
    let mut i: usize = 0;
    assert(es.subrange(0, es.len() as int) =~= es);
    while i < entries.len()
        invariant
            es == path_keys(entries.deep_view()),
            kx == crate::paths::path_key_spec(x@),
            i <= entries@.len(),
            index_in(es, kx) == if index_in(es.subrange(i as int, es.len() as int), kx) < 0 {
                -1
            } else {
                index_in(es.subrange(i as int, es.len() as int), kx) + i
            },
        decreases entries@.len() - i,
    {
        let ghost rest = es.subrange(i as int, es.len() as int);
        assert(rest[0] == es[i as int]);
        assert(es[i as int] == crate::paths::path_key_spec(entries@[i as int]@));
        assert(rest.drop_first() =~= es.subrange(i + 1, es.len() as int));
        if crate::paths::paths_equal(entries[i].as_str(), x) {
            return Some(i);
        }
        i = i + 1;
    }
    None
}

/// Whether a path is among `paths`, compared component by component.
fn holds_path(paths: &Vec<String>, x: &str) -> (res: bool)
    ensures
        res == path_keys(paths.deep_view()).contains(crate::paths::path_key_spec(x@)),
{
    proof {
        lemma_index_in(path_keys(paths.deep_view()), crate::paths::path_key_spec(x@));
    }
    index_of(paths, x).is_some()
}

/// Whether `p` is selected after a click on `path`. A picker of a single
/// location selects just the clicked entry. With shift the entries from
/// the anchor (or the clicked entry) to the clicked entry are selected,
/// added to the selection with the command key, replacing it otherwise;
/// when either end is not listed the selection stays. With the command key
/// alone the clicked entry is toggled. A plain click selects just it.
pub open spec fn selected_after(
    selected: Seq<Seq<char>>,
    anchor: Option<Seq<char>>,
    entries: Seq<Seq<char>>,
    path: Seq<char>,
    single_only: bool,
    command: bool,
    shift: bool,
    p: Seq<char>,
) -> bool {
    if single_only {
        p == path
    } else if shift {
        let a = match anchor {
            Some(x) => x,
            None => path,
        };
        let ai = index_in(entries, a);
        let ti = index_in(entries, path);
        if ai >= 0 && ti >= 0 {
            let lo = if ai <= ti {
                ai
            } else {
                ti
            };
            let hi = if ai <= ti {
                ti
            } else {
                ai
            };
            (command && selected.contains(p)) || exists|k: int| lo <= k <= hi && entries[k] == p
        } else {
            selected.contains(p)
        }
    } else if command {
        if selected.contains(path) {
            selected.contains(p) && p != path
        } else {
            selected.contains(p) || p == path
        }
    } else {
        p == path
    }
}

/// The selection anchor after a click on `path`: the clicked entry, except
/// that unselecting the anchor with the command key leaves no anchor.
pub open spec fn anchor_after(
    selected: Seq<Seq<char>>,
    anchor: Option<Seq<char>>,
    path: Seq<char>,
    single_only: bool,
    command: bool,
    shift: bool,
) -> Option<Seq<char>> {
    if !single_only && !shift && command && selected.contains(path) {
        if anchor == Some(path) {
            None
        } else {
            anchor
        }
    } else {
        Some(path)
    }
}

proof fn lemma_push_contains(s: Seq<Seq<char>>, x: Seq<char>, p: Seq<char>)
    ensures
        s.push(x).contains(p) <==> s.contains(p) || x == p,
{
    if s.push(x).contains(p) {
        let m = choose|m: int| 0 <= m < s.push(x).len() && s.push(x)[m] == p;
        if m < s.len() {
            assert(s[m] == p);
        }
    }
    if s.contains(p) {
        let m = choose|m: int| 0 <= m < s.len() && s[m] == p;
        assert(s.push(x)[m] == p);
    }
    if x == p {
        assert(s.push(x)[s.len() as int] == p);
    }
}

proof fn lemma_push_distinct(s: Seq<Seq<char>>, x: Seq<char>)
    requires
        s.no_duplicates(),
        !s.contains(x),
    ensures
        s.push(x).no_duplicates(),
{
    let t = s.push(x);
    assert forall|i: int, j: int| 0 <= i < t.len() && 0 <= j < t.len() && i != j implies t[i] != t[j] by {
        if i == s.len() as int {
            assert(t[j] == s[j]);
        } else if j == s.len() as int {
            assert(t[i] == s[i]);
        } else {
            assert(t[i] == s[i] && t[j] == s[j]);
        }
    }
}

fn without_entry(selected: Vec<String>, path: &str) -> (res: Vec<String>)
    ensures
        forall|k: Seq<char>| #[trigger]
            path_keys(res.deep_view()).contains(k) <==> path_keys(selected.deep_view()).contains(k)
                && k != crate::paths::path_key_spec(path@),
        path_keys(selected.deep_view()).no_duplicates() ==> path_keys(res.deep_view()).no_duplicates(),
{
    let ghost all = path_keys(selected.deep_view());
    let ghost kp = crate::paths::path_key_spec(path@);
    let mut kept: Vec<String> = Vec::new();
    let mut i: usize = 0;
    while i < selected.len()
        invariant
            all == path_keys(selected.deep_view()),
            kp == crate::paths::path_key_spec(path@),
            i <= selected@.len(),
            forall|k: Seq<char>| #[trigger]
                path_keys(kept.deep_view()).contains(k) <==> all.subrange(0, i as int).contains(k) && k != kp,
            all.no_duplicates() ==> path_keys(kept.deep_view()).no_duplicates(),
        decreases selected@.len() - i,
    {
        let ghost before = path_keys(kept.deep_view());
        let ghost shorter = all.subrange(0, i as int);
        let ghost longer = all.subrange(0, i + 1);
        let ghost ki = all[i as int];
        assert(ki == crate::paths::path_key_spec(selected@[i as int]@));
        assert(longer =~= shorter.push(ki));
        let keep = !crate::paths::paths_equal(selected[i].as_str(), path);
        if keep {
            let ghost raw = kept.deep_view();
            kept.push(selected[i].clone());
            assert(kept.deep_view() =~= raw.push(selected@[i as int]@));
            proof {
                lemma_keys_push(raw, selected@[i as int]@);
                if all.no_duplicates() {
                    if before.contains(ki) {
                        let m = choose|m: int| 0 <= m < shorter.len() && shorter[m] == ki;
                        assert(shorter[m] == all[m]);
                    }
                    lemma_push_distinct(before, ki);
                }
            }
        }
        proof {
            assert forall|k: Seq<char>| #[trigger] path_keys(kept.deep_view()).contains(k) <==> longer.contains(k)
                && k != kp by {
                lemma_push_contains(shorter, ki, k);
                if keep {
                    lemma_push_contains(before, ki, k);
                }
            }
        }
        i = i + 1;
    }
    assert(all.subrange(0, all.len() as int) =~= all);
    kept
}

fn single_selection(path: &str) -> (res: Vec<String>)
    ensures
        res.deep_view() == seq![path@],
{
    let mut v: Vec<String> = Vec::new();
    v.push(string_from_chars(&chars_of(path)));
    assert(v.deep_view() =~= seq![path@]);
    v
}

fn owned(path: &str) -> (res: String)
    ensures
        res@ == path@,
{
    string_from_chars(&chars_of(path))
}

/// The selection and anchor after a click on the entry at `path`;
/// `entries` are the paths of the listed entries in display order. Paths
/// are compared component by component, as `Path`s are: the selection is
/// stated over the paths' component keys, and holds each path once.
pub fn select_entry(
    selected: Vec<String>,
    anchor: Option<String>,
    entries: &Vec<String>,
    path: &str,
    single_only: bool,
    command: bool,
    shift: bool,
) -> (res: (Vec<String>, Option<String>))
    ensures
        forall|k: Seq<char>| #[trigger]
            path_keys(res.0.deep_view()).contains(k) <==> selected_after(
                path_keys(selected.deep_view()),
                opt_key(anchor.deep_view()),
                path_keys(entries.deep_view()),
                crate::paths::path_key_spec(path@),
                single_only,
                command,
                shift,
                k,
            ),
        opt_key(res.1.deep_view()) == anchor_after(
            path_keys(selected.deep_view()),
            opt_key(anchor.deep_view()),
            crate::paths::path_key_spec(path@),
            single_only,
            command,
            shift,
        ),
        res.1.deep_view() == Some(path@) || res.1.deep_view() == anchor.deep_view() || res.1 is None,
        path_keys(selected.deep_view()).no_duplicates() ==> path_keys(res.0.deep_view()).no_duplicates(),
{
    let ghost sel = path_keys(selected.deep_view());
    let ghost es = path_keys(entries.deep_view());
    let ghost kp = crate::paths::path_key_spec(path@);
    if single_only || (!shift && !command) {
        let v = single_selection(path);
        assert(path_keys(v.deep_view()) =~= seq![kp]);
        assert forall|k: Seq<char>| #[trigger] path_keys(v.deep_view()).contains(k) <==> k == kp by {
            if k == kp {
                assert(path_keys(v.deep_view())[0] == k);
            }
        }
        assert(path_keys(v.deep_view()).no_duplicates());
        return (v, Some(owned(path)));
    }
    if shift {
        let a: String = match &anchor {
            Some(x) => x.clone(),
            None => owned(path),
        };
        assert(crate::paths::path_key_spec(a@) == match opt_key(anchor.deep_view()) {
            Some(x) => x,
            None => kp,
        });
        let ai = index_of(entries, a.as_str());
        let ti = index_of(entries, path);
        match (ai, ti) {
            (Some(ai), Some(ti)) => {
                proof {
                    lemma_index_in(es, crate::paths::path_key_spec(a@));
                    lemma_index_in(es, kp);
                }
                let lo = if ai <= ti {
                    ai
                } else {
                    ti
                };
                let hi = if ai <= ti {
                    ti
                } else {
                    ai
                };
                let mut res: Vec<String> = if command {
                    selected
                } else {
                    Vec::new()
                };
                let ghost base = path_keys(res.deep_view());
                assert(!command ==> base =~= Seq::<Seq<char>>::empty());
                let n = entries.len();
                let mut k: usize = lo;
                while k <= hi
                    invariant
                        es == path_keys(entries.deep_view()),
                        lo <= k <= hi + 1,
                        hi < n,
                        n == es.len(),
                        forall|p: Seq<char>| #[trigger]
                            path_keys(res.deep_view()).contains(p) <==> base.contains(p) || exists|j: int|
                                lo <= j < k && es[j] == p,
                        base.no_duplicates() ==> path_keys(res.deep_view()).no_duplicates(),
                    decreases hi + 1 - k,
                {
                    let ghost before = path_keys(res.deep_view());
                    let ghost raw = res.deep_view();
                    assert(es[k as int] == crate::paths::path_key_spec(entries@[k as int]@));
                    if !holds_path(&res, entries[k].as_str()) {
                        res.push(entries[k].clone());
                        assert(res.deep_view() =~= raw.push(entries@[k as int]@));
                        proof {
                            lemma_keys_push(raw, entries@[k as int]@);
                            if base.no_duplicates() {
                                lemma_push_distinct(before, es[k as int]);
                            }
                        }
                    }
                    proof {
                        assert forall|p: Seq<char>| #[trigger] path_keys(res.deep_view()).contains(p) <==> base.contains(p)
                            || exists|j: int| lo <= j < k + 1 && es[j] == p by {
                            lemma_push_contains(before, es[k as int], p);
                            if exists|j: int| lo <= j < k + 1 && es[j] == p {
                                let j = choose|j: int| lo <= j < k + 1 && es[j] == p;
                                if j < k {
                                    assert(exists|j2: int| lo <= j2 < k && es[j2] == p);
                                }
                            }
                            if exists|j: int| lo <= j < k && es[j] == p {
                                let j = choose|j: int| lo <= j < k && es[j] == p;
                                assert(lo <= j < k + 1 && es[j] == p);
                            }
                            if es[k as int] == p {
                                assert(lo <= k < k + 1 && es[k as int] == p);
                            }
                        }
                    }
                    k = k + 1;
                }
                (res, Some(owned(path)))
            },
            _ => (selected, Some(owned(path))),
        }
    } else {
        let present = holds_path(&selected, path);
        if present {
            let new_anchor = match anchor {
                Some(x) => if crate::paths::paths_equal(x.as_str(), path) {
                    None
                } else {
                    Some(x)
                },
                None => None,
            };
            (without_entry(selected, path), new_anchor)
        } else {
            let mut res = selected;
            let ghost raw = res.deep_view();
            res.push(owned(path));
            assert(res.deep_view() =~= raw.push(path@));
            proof {
                lemma_keys_push(raw, path@);
                assert forall|p: Seq<char>| #[trigger] path_keys(res.deep_view()).contains(p) <==> sel.contains(p)
                    || p == kp by {
                    lemma_push_contains(sel, kp, p);
                }
                if sel.no_duplicates() {
                    lemma_push_distinct(sel, kp);
                }
            }
            (res, Some(owned(path)))
        }
    }
}

/// A key as the toolkit reports a press: a named key (by its name), a
/// character key, or an unidentified key.
#[derive(Debug, Clone, PartialEq, Eq)]
pub enum KeyPress {
    Named(String),
    Character(String),
    Unidentified,
}

/// The name a key is saved under in a keyboard shortcut: a named key by its
/// name, a character key in uppercase; an empty or unidentified key has
/// none. A name is never empty, so a shortcut whose key is empty matches
/// no key: it is disabled.
pub fn shortcut_key_name(key: KeyPress) -> (res: Option<String>)
    ensures
        res matches Some(n) ==> n@.len() > 0,
        match key {
            KeyPress::Named(name) => if name@.len() > 0 {
                res matches Some(n) && n@ == name@
            } else {
                res is None
            },
            KeyPress::Character(c) => if c@.len() > 0 {
                res matches Some(n) && n@ == crate::text::uppercase(c@)
            } else {
                res is None
            },
            KeyPress::Unidentified => res is None,
        },
{
    match key {
        KeyPress::Named(name) => {
            if name.as_str().is_empty() {
                None
            } else {
                Some(name)
            }
        },
        KeyPress::Character(c) => {
            if c.as_str().is_empty() {
                None
            } else {
                Some(crate::text::to_uppercase(c.as_str()))
            }
        },
        KeyPress::Unidentified => None,
    }
}

/// What a key press asks of the browser.
#[derive(Debug, Clone, PartialEq, Eq)]
pub enum KeyAction {
    /// Escape: close what is open.
    Escape,
    /// The command key with C: copy the selection.
    Copy,
    /// The command key with V: paste.
    Paste,
    /// An arrow key: move the selection.
    Move(SelectionDirection),
    /// Enter: confirm the delete dialog.
    Confirm,
    /// Delete: delete the selection.
    Delete,
    /// Any other key, by the name shortcuts use.
    Shortcut(String),
}

/// The direction an arrow key's name stands for.
pub open spec fn arrow_direction(name: Seq<char>) -> Option<SelectionDirection> {
    if name == "ArrowLeft"@ {
        Some(SelectionDirection::Left)
    } else if name == "ArrowRight"@ {
        Some(SelectionDirection::Right)
    } else if name == "ArrowUp"@ {
        Some(SelectionDirection::Up)
    } else if name == "ArrowDown"@ {
        Some(SelectionDirection::Down)
    } else {
        None
    }
}

/// What a key press asks: Escape always closes; with the command key only
/// C and V do something; then arrows, Enter and Delete; any other key is
/// looked up among the shortcuts by its name.
pub open spec fn key_action_spec(key: KeyPress, command: bool) -> Option<KeyAction> {
    match key {
        KeyPress::Named(name) => if name@ == "Escape"@ {
            Some(KeyAction::Escape)
        } else if command {
            None
        } else if arrow_direction(name@) is Some {
            Some(KeyAction::Move(arrow_direction(name@).unwrap()))
        } else if name@ == "Enter"@ {
            Some(KeyAction::Confirm)
        } else if name@ == "Delete"@ {
            Some(KeyAction::Delete)
        } else {
            None
        },
        KeyPress::Character(c) => if command {
            if c@ == "c"@ || c@ == "C"@ {
                Some(KeyAction::Copy)
            } else if c@ == "v"@ || c@ == "V"@ {
                Some(KeyAction::Paste)
            } else {
                None
            }
        } else {
            None
        },
        KeyPress::Unidentified => None,
    }
}

fn direction_of(name: &str) -> (res: Option<SelectionDirection>)
    ensures
        res == arrow_direction(name@),
{
    if crate::text::str_equal(name, "ArrowLeft") {
        Some(SelectionDirection::Left)
    } else if crate::text::str_equal(name, "ArrowRight") {
        Some(SelectionDirection::Right)
    } else if crate::text::str_equal(name, "ArrowUp") {
        Some(SelectionDirection::Up)
    } else if crate::text::str_equal(name, "ArrowDown") {
        Some(SelectionDirection::Down)
    } else {
        None
    }
}

/// What a key press asks of the browser, given whether the command key is
/// held.
pub fn key_action(key: KeyPress, command: bool) -> (res: Option<KeyAction>)
    ensures
        res matches Some(KeyAction::Shortcut(n)) ==> n@.len() > 0,
        match key_action_spec(key, command) {
            Some(KeyAction::Shortcut(_)) => false,
            Some(a) => res == Some(a),
            None => match key {
                KeyPress::Named(name) => if name@ != "Escape"@ && !command && name@.len() > 0 {
                    res matches Some(KeyAction::Shortcut(n)) && n@ == name@
                } else {
                    res is None
                },
                KeyPress::Character(c) => if !command && c@.len() > 0 {
                    res matches Some(KeyAction::Shortcut(n)) && n@ == crate::text::uppercase(c@)
                } else {
                    res is None
                },
                KeyPress::Unidentified => res is None,
            },
        },
{
    let named_escape = match &key {
        KeyPress::Named(name) => crate::text::str_equal(name.as_str(), "Escape"),
        _ => false,
    };
    if named_escape {
        return Some(KeyAction::Escape);
    }
    if command {
        return match &key {
            KeyPress::Character(c) => {
                if crate::text::str_equal(c.as_str(), "c") || crate::text::str_equal(c.as_str(), "C") {
                    Some(KeyAction::Copy)
                } else if crate::text::str_equal(c.as_str(), "v") || crate::text::str_equal(
                    c.as_str(),
                    "V",
                ) {
                    Some(KeyAction::Paste)
                } else {
                    None
                }
            },
            _ => None,
        };
    }
    match &key {
        KeyPress::Named(name) => {
            match direction_of(name.as_str()) {
                Some(direction) => {
                    return Some(KeyAction::Move(direction));
                },
                None => {},
            }
            if crate::text::str_equal(name.as_str(), "Enter") {
                return Some(KeyAction::Confirm);
            }
            if crate::text::str_equal(name.as_str(), "Delete") {
                return Some(KeyAction::Delete);
            }
        },
        _ => {},
    }
    match shortcut_key_name(key) {
        Some(name) => Some(KeyAction::Shortcut(name)),
        None => None,
    }
}

/// A character with ASCII letters lowercased.
pub open spec fn ascii_lower(c: char) -> char {
    if 'A' <= c <= 'Z' {
        ((c as u32) + 32) as char
    } else {
        c
    }
}

/// Whether two texts are equal ignoring the case of ASCII letters
/// (`str::eq_ignore_ascii_case`).
pub open spec fn eq_ignore_ascii_case(a: Seq<char>, b: Seq<char>) -> bool {
    a.len() == b.len() && forall|i: int| 0 <= i < a.len() ==> ascii_lower(#[trigger] a[i]) == ascii_lower(b[i])
}

fn lower_ascii(c: char) -> (res: char)
    ensures
        res == ascii_lower(c),
{
    if 'A' <= c && c <= 'Z' {
        ((c as u8) + 32) as char
    } else {
        c
    }
}

fn same_ignoring_ascii_case(a: &str, b: &str) -> (res: bool)
    ensures
        res == eq_ignore_ascii_case(a@, b@),
{
    let x = chars_of(a);
    let y = chars_of(b);
    if x.len() != y.len() {
        return false;
    }
    let mut i: usize = 0;
    while i < x.len()
        invariant
            x@ == a@,
            y@ == b@,
            x@.len() == y@.len(),
            i <= x@.len(),
            forall|k: int| 0 <= k < i ==> ascii_lower(#[trigger] x@[k]) == ascii_lower(y@[k]),
        decreases x@.len() - i,
    {
        if lower_ascii(x[i]) != lower_ascii(y[i]) {
            return false;
        }
        i = i + 1;
    }
    true
}

/// A shortcut whose key is empty is disabled: it matches no key name, and
/// every name a key press asks a shortcut for is not empty (`key_action`).
pub proof fn lemma_empty_shortcut_disabled(saved: Seq<char>, pressed: Seq<char>)
    requires
        saved.len() == 0,
        pressed.len() > 0,
    ensures
        !eq_ignore_ascii_case(saved, pressed),
{
}

/// The action bound to a pressed key: that of the first shortcut whose key
/// is the pressed one, ignoring the case of ASCII letters.
pub fn shortcut_action(shortcuts: &Vec<KeyboardShortcut>, key: &str) -> (res: Option<
    KeyboardShortcutAction,
>)
    ensures
        match res {
            Some(a) => exists|i: int|
                0 <= i < shortcuts@.len() && eq_ignore_ascii_case(shortcuts@[i].key@, key@)
                    && shortcuts@[i].action == a && forall|k: int|
                    0 <= k < i ==> !eq_ignore_ascii_case(#[trigger] shortcuts@[k].key@, key@),
            None => forall|k: int|
                0 <= k < shortcuts@.len() ==> !eq_ignore_ascii_case(#[trigger] shortcuts@[k].key@, key@),
        },
{
    let mut i: usize = 0;
    while i < shortcuts.len()
        invariant
            i <= shortcuts@.len(),
            forall|k: int| 0 <= k < i ==> !eq_ignore_ascii_case(#[trigger] shortcuts@[k].key@, key@),
        decreases shortcuts@.len() - i,
    {
        if same_ignoring_ascii_case(shortcuts[i].key.as_str(), key) {
            return Some(shortcuts[i].action);
        }
        i = i + 1;
    }
    None
}

/// Whether a launch of the browser starts a detached copy of itself and
/// returns: only a plain browser launch (not following logs, not a
/// picker) that is not already the detached copy.
pub fn should_detach(options: &StartupOptions, detached: bool) -> (res: bool)
    ensures
        res == (!options.follow_logs && options.picker is None && !detached),
{
    !options.follow_logs && options.picker.is_none() && !detached
}

/// The folder the browser opens first: the location given on the command
/// line, resolved from the invoking folder; else, for a picker, the folder
/// the last picker was showing; else the invoking folder.
pub open spec fn initial_location_spec(
    initial_path: Option<Seq<char>>,
    picker: bool,
    remembered: Option<Seq<char>>,
    invoking: Seq<char>,
) -> Seq<char> {
    match initial_path {
        Some(p) => crate::paths::join_spec(invoking, p),
        None => match remembered {
            Some(r) => if picker {
                r
            } else {
                invoking
            },
            None => invoking,
        },
    }
}

/// Chooses the folder the browser opens first.
pub fn initial_location(
    initial_path: Option<&str>,
    picker: bool,
    remembered: Option<&str>,
    invoking: &str,
) -> (res: String)
    ensures
        res@ == initial_location_spec(
            crate::config::opt_view(initial_path),
            picker,
            crate::config::opt_view(remembered),
            invoking@,
        ),
{
    match initial_path {
        Some(p) => crate::paths::join(invoking, p),
        None => match remembered {
            Some(r) => if picker {
                r.to_owned()
            } else {
                invoking.to_owned()
            },
            None => invoking.to_owned(),
        },
    }
}

/// A location given on the command line is opened whatever a picker last
/// showed, and a plain browser never reopens a picker's folder.
pub proof fn lemma_explicit_location_wins(
    path: Seq<char>,
    picker: bool,
    remembered: Option<Seq<char>>,
    invoking: Seq<char>,
)
    ensures
        initial_location_spec(Some(path), picker, remembered, invoking) == crate::paths::join_spec(
            invoking,
            path,
        ),
        initial_location_spec(None, false, remembered, invoking) == invoking,
{
}

/// Whether a context-menu action applies to the entry it was opened on:
/// creating, linking, the sidebar and the terminal need a folder; opening
/// needs a file; copying and deleting the selection need a selection; and
/// pasting needs something to paste.
pub open spec fn action_applies(
    item: crate::config::ContextMenuItem,
    is_directory: bool,
    has_selection: bool,
    can_paste: bool,
) -> bool {
    match item {
        crate::config::ContextMenuItem::CreateFolder | crate::config::ContextMenuItem::CreateFile
        | crate::config::ContextMenuItem::ToggleSidebarLocation
        | crate::config::ContextMenuItem::CreateSymlink
        | crate::config::ContextMenuItem::AddSymlinkToPasteBuffer
        | crate::config::ContextMenuItem::OpenTerminal => is_directory,
        crate::config::ContextMenuItem::Open => !is_directory,
        crate::config::ContextMenuItem::CopySelection
        | crate::config::ContextMenuItem::DeleteSelection => has_selection,
        crate::config::ContextMenuItem::Paste => can_paste,
        crate::config::ContextMenuItem::Rename | crate::config::ContextMenuItem::CopyLocation => true,
    }
}

/// The configured actions that are shown, in their order: those that
/// apply, each once.
pub open spec fn shown_actions(
    items: Seq<crate::config::ContextMenuItem>,
    is_directory: bool,
    has_selection: bool,
    can_paste: bool,
) -> Seq<crate::config::ContextMenuItem>
    decreases items.len(),
{
    if items.len() == 0 {
        Seq::empty()
    } else {
        let prev = shown_actions(items.drop_last(), is_directory, has_selection, can_paste);
        let item = items.last();
        if action_applies(item, is_directory, has_selection, can_paste) && !prev.contains(item) {
            prev.push(item)
        } else {
            prev
        }
    }
}

/// Actions that do not apply are hidden: every action shown applies and is
/// configured, each is shown once, and every configured action that
/// applies is shown.
pub proof fn lemma_shown_actions(
    items: Seq<crate::config::ContextMenuItem>,
    is_directory: bool,
    has_selection: bool,
    can_paste: bool,
)
    ensures
        ({
            let shown = shown_actions(items, is_directory, has_selection, can_paste);
            &&& forall|i: int|
                0 <= i < shown.len() ==> action_applies(
                    #[trigger] shown[i],
                    is_directory,
                    has_selection,
                    can_paste,
                ) && items.contains(shown[i])
            &&& shown.no_duplicates()
            &&& forall|i: int|
                0 <= i < items.len() && action_applies(
                    #[trigger] items[i],
                    is_directory,
                    has_selection,
                    can_paste,
                ) ==> shown.contains(items[i])
        }),
    decreases items.len(),
{
    if items.len() > 0 {
        let rest = items.drop_last();
        lemma_shown_actions(rest, is_directory, has_selection, can_paste);
        let prev = shown_actions(rest, is_directory, has_selection, can_paste);
        let shown = shown_actions(items, is_directory, has_selection, can_paste);
        let item = items.last();
        assert forall|i: int| 0 <= i < shown.len() implies action_applies(
            #[trigger] shown[i],
            is_directory,
            has_selection,
            can_paste,
        ) && items.contains(shown[i]) by {
            if i < prev.len() {
                assert(shown[i] == prev[i]);
                let k = choose|k: int| 0 <= k < rest.len() && rest[k] == prev[i];
                assert(items[k] == rest[k]);
            } else {
                assert(shown[i] == item);
                assert(items[items.len() - 1] == item);
            }
        }
        assert forall|i: int|
            0 <= i < items.len() && action_applies(
                #[trigger] items[i],
                is_directory,
                has_selection,
                can_paste,
            ) implies shown.contains(items[i]) by {
            if i < items.len() - 1 {
                assert(items[i] == rest[i]);
                let k = choose|k: int| 0 <= k < prev.len() && prev[k] == rest[i];
                if action_applies(item, is_directory, has_selection, can_paste) && !prev.contains(item) {
                    assert(shown[k] == prev[k]);
                }
            } else {
                if !prev.contains(item) {
                    assert(shown[prev.len() as int] == item);
                }
            }
        }
        if action_applies(item, is_directory, has_selection, can_paste) && !prev.contains(item) {
            assert forall|i: int, j: int| 0 <= i < shown.len() && 0 <= j < shown.len() && i != j implies shown[i] != shown[j] by {
                if i < prev.len() && j < prev.len() {
                    assert(shown[i] == prev[i] && shown[j] == prev[j]);
                } else if i < prev.len() {
                    assert(shown[i] == prev[i]);
                } else if j < prev.len() {
                    assert(shown[j] == prev[j]);
                }
            }
        }
    }
}

/// The actions of the context menu opened on an entry: none for a sidebar
/// location; else the folder or file menu of the settings, showing only
/// the actions that apply, each once, in the configured order.
pub fn context_menu_actions(
    browser: &crate::config::BrowserSettings,
    is_directory: bool,
    is_sidebar_location: bool,
    has_selection: bool,
    can_paste: bool,
) -> (res: Vec<crate::config::ContextMenuItem>)
    ensures
        is_sidebar_location ==> res@.len() == 0,
        !is_sidebar_location ==> res@ == shown_actions(
            if is_directory {
                browser.folder_context_menu_items@
            } else {
                browser.file_context_menu_items@
            },
            is_directory,
            has_selection,
            can_paste,
        ),
{
    let mut res: Vec<crate::config::ContextMenuItem> = Vec::new();
    if is_sidebar_location {
        return res;
    }
    let items = if is_directory {
        &browser.folder_context_menu_items
    } else {
        &browser.file_context_menu_items
    };
    let mut i: usize = 0;
    while i < items.len()
        invariant
            i <= items@.len(),
            res@ == shown_actions(items@.subrange(0, i as int), is_directory, has_selection, can_paste),
        decreases items@.len() - i,
    {
        let item = items[i];
        assert(items@.subrange(0, i + 1).drop_last() =~= items@.subrange(0, i as int));
        assert(items@.subrange(0, i + 1).last() == item);
        let applies = match item {
            crate::config::ContextMenuItem::CreateFolder | crate::config::ContextMenuItem::CreateFile
            | crate::config::ContextMenuItem::ToggleSidebarLocation
            | crate::config::ContextMenuItem::CreateSymlink
            | crate::config::ContextMenuItem::AddSymlinkToPasteBuffer
            | crate::config::ContextMenuItem::OpenTerminal => is_directory,
            crate::config::ContextMenuItem::Open => !is_directory,
            crate::config::ContextMenuItem::CopySelection
            | crate::config::ContextMenuItem::DeleteSelection => has_selection,
            crate::config::ContextMenuItem::Paste => can_paste,
            crate::config::ContextMenuItem::Rename
            | crate::config::ContextMenuItem::CopyLocation => true,
        };
        if applies {
            let mut seen = false;
            let mut j: usize = 0;
            while j < res.len()
                invariant
                    j <= res@.len(),
                    seen == exists|k: int| 0 <= k < j && res@[k] == item,
                decreases res@.len() - j,
            {
                if res[j] == item {
                    seen = true;
                }
                j = j + 1;
            }
            if !seen {
                res.push(item);
            }
        }
        i = i + 1;
    }
    assert(items@.subrange(0, items@.len() as int) =~= items@);
    res
}

/// The editable name a saving picker offers, with the name it was given.
#[derive(Debug, Clone, PartialEq, Eq)]
pub struct SaveNameField {
    pub original: Option<String>,
    pub current: Option<String>,
}

pub struct SaveNameView {
    pub original: Option<Seq<char>>,
    pub current: Option<Seq<char>>,
}

impl DeepView for SaveNameField {
    type V = SaveNameView;

    open spec fn deep_view(&self) -> SaveNameView {
        SaveNameView { original: self.original.deep_view(), current: self.current.deep_view() }
    }
}

/// The field after the user typed a name.
pub open spec fn edit_spec(f: SaveNameView, name: Seq<char>) -> SaveNameView {
    SaveNameView { current: Some(name), ..f }
}

/// The field after its reset button was pressed.
pub open spec fn reset_spec(f: SaveNameView) -> SaveNameView {
    SaveNameView { current: f.original, ..f }
}

/// Whether the reset button is offered: the name shown differs from the
/// name the picker was given.
pub open spec fn reset_offered_spec(f: SaveNameView) -> bool {
    f.original matches Some(o) && f.current matches Some(c) && o != c
}

/// The field after a sequence of edits.
pub open spec fn after_edits(f: SaveNameView, names: Seq<Seq<char>>) -> SaveNameView
    decreases names.len(),
{
    if names.len() == 0 {
        f
    } else {
        edit_spec(after_edits(f, names.drop_last()), names.last())
    }
}

/// Resetting the name after any sequence of edits restores the name the
/// picker was given, and then no reset is offered.
pub proof fn lemma_reset_after_edits(given: Option<Seq<char>>, names: Seq<Seq<char>>)
    ensures
        reset_spec(after_edits(SaveNameView { original: given, current: given }, names)).current
            == given,
        !reset_offered_spec(reset_spec(after_edits(SaveNameView { original: given, current: given }, names))),
    decreases names.len(),
{
    if names.len() > 0 {
        lemma_reset_after_edits(given, names.drop_last());
    }
}

impl SaveNameField {
    /// The field for a picker started with this name to save under (none
    /// when it does not save).
    pub fn new(save_name: Option<String>) -> (res: Self)
        ensures
            res.deep_view() == (SaveNameView {
                original: save_name.deep_view(),
                current: save_name.deep_view(),
            }),
    {
        let original = match &save_name {
            Some(n) => Some(n.clone()),
            None => None,
        };
        SaveNameField { original, current: save_name }
    }

    /// The name as the user typed it.
    pub fn edit(&mut self, name: String)
        ensures
            final(self).deep_view() == edit_spec(old(self).deep_view(), name@),
    {
        self.current = Some(name);
    }

    /// Restores the name the picker was given.
    pub fn reset(&mut self)
        ensures
            final(self).deep_view() == reset_spec(old(self).deep_view()),
    {
        self.current = match &self.original {
            Some(n) => Some(n.clone()),
            None => None,
        };
    }

    /// Whether the reset button is offered.
    pub fn reset_offered(&self) -> (res: bool)
        ensures
            res == reset_offered_spec(self.deep_view()),
    {
        match (&self.original, &self.current) {
            (Some(o), Some(c)) => !crate::text::str_equal(o.as_str(), c.as_str()),
            _ => false,
        }
    }
}

/// The entries shown: all of them with hidden files shown, else those
/// whose name does not start with `.`, in their order.
pub open spec fn visible_spec(entries: Seq<FileEntryView>, show_hidden: bool) -> Seq<FileEntryView>
    decreases entries.len(),
{
    if entries.len() == 0 {
        Seq::empty()
    } else {
        let prev = visible_spec(entries.drop_last(), show_hidden);
        let e = entries.last();
        if show_hidden || !(e.name.len() > 0 && e.name[0] == '.') {
            prev.push(e)
        } else {
            prev
        }
    }
}

/// The entries of a folder that are shown.
pub fn visible_entries(entries: &Vec<FileEntry>, show_hidden: bool) -> (res: Vec<FileEntry>)
    ensures
        res.deep_view() == visible_spec(entries.deep_view(), show_hidden),
{
    let ghost all = entries.deep_view();
    let mut res: Vec<FileEntry> = Vec::new();
    let mut i: usize = 0;
    while i < entries.len()
        invariant
            all == entries.deep_view(),
            i <= entries@.len(),
            res.deep_view() == visible_spec(all.subrange(0, i as int), show_hidden),
        decreases entries@.len() - i,
    {
        assert(all.subrange(0, i + 1).drop_last() =~= all.subrange(0, i as int));
        let e = &entries[i];
        assert(all.subrange(0, i + 1).last() == e.deep_view());
        let name = chars_of(e.name.as_str());
        let hidden = name.len() > 0 && name[0] == '.';
        if show_hidden || !hidden {
            let ghost before = res.deep_view();
            let copy = FileEntry {
                name: e.name.clone(),
                path: e.path.clone(),
                is_directory: e.is_directory,
                thumbnail_path: e.thumbnail_path.clone(),
            };
            res.push(copy);
            assert(res.deep_view() =~= before.push(e.deep_view()));
        }
        i = i + 1;
    }
    assert(all.subrange(0, all.len() as int) =~= all);
    res
}

/// The word an arrow key's name ends in for each direction.
pub open spec fn direction_word(d: SelectionDirection) -> Seq<char> {
    match d {
        SelectionDirection::Left => "Left"@,
        SelectionDirection::Right => "Right"@,
        SelectionDirection::Up => "Up"@,
        SelectionDirection::Down => "Down"@,
    }
}

/// The arrow keys name their own directions: a key name stands for a
/// direction exactly when it is `Arrow` followed by that direction's word.
pub proof fn lemma_arrow_keys_name_their_direction(name: Seq<char>, d: SelectionDirection)
    ensures
        (arrow_direction(name) == Some(d)) <==> name == "Arrow"@ + direction_word(d),
{
    reveal_strlit("ArrowLeft");
    reveal_strlit("ArrowRight");
    reveal_strlit("ArrowUp");
    reveal_strlit("ArrowDown");
    reveal_strlit("Arrow");
    reveal_strlit("Left");
    reveal_strlit("Right");
    reveal_strlit("Up");
    reveal_strlit("Down");
    assert("ArrowLeft"@ =~= "Arrow"@ + "Left"@);
    assert("ArrowRight"@ =~= "Arrow"@ + "Right"@);
    assert("ArrowUp"@ =~= "Arrow"@ + "Up"@);
    assert("ArrowDown"@ =~= "Arrow"@ + "Down"@);
    assert("ArrowLeft"@ != "ArrowRight"@ && "ArrowLeft"@ != "ArrowUp"@ && "ArrowLeft"@ != "ArrowDown"@
        && "ArrowRight"@ != "ArrowUp"@ && "ArrowRight"@ != "ArrowDown"@ && "ArrowUp"@ != "ArrowDown"@)
        by {
        assert("ArrowLeft"@[5] != "ArrowRight"@[5]);
        assert("ArrowLeft"@[5] != "ArrowUp"@[5]);
        assert("ArrowLeft"@[5] != "ArrowDown"@[5]);
        assert("ArrowRight"@[5] != "ArrowUp"@[5]);
        assert("ArrowRight"@[5] != "ArrowDown"@[5]);
        assert("ArrowUp"@[5] != "ArrowDown"@[5]);
    }
}

/// Left and Right move the selection by exactly one entry in every
/// layout; Up and Down move it by one row: one entry in the list, a row of
/// tiles (at least one) among tiles. A move that would leave the entries
/// goes nowhere.
pub proof fn lemma_moves_by_rows_and_entries(index: int, len: int, columns: int)
    ensures
        forall|layout: BrowserLayout|
            move_target_spec(index, len, layout, SelectionDirection::Right, columns) == (if index + 1
                < len {
                Some(index + 1)
            } else {
                None
            }) && move_target_spec(index, len, layout, SelectionDirection::Left, columns) == (if index
                >= 1 {
                Some(index - 1)
            } else {
                None
            }),
        move_target_spec(index, len, BrowserLayout::List, SelectionDirection::Down, columns) == (if index
            + 1 < len {
            Some(index + 1)
        } else {
            None
        }),
        move_target_spec(index, len, BrowserLayout::List, SelectionDirection::Up, columns) == (if index
            >= 1 {
            Some(index - 1)
        } else {
            None
        }),
        ({
            let row = if columns >= 1 {
                columns
            } else {
                1
            };
            &&& move_target_spec(index, len, BrowserLayout::Tiles, SelectionDirection::Down, columns)
                == (if index + row < len {
                Some(index + row)
            } else {
                None
            })
            &&& move_target_spec(index, len, BrowserLayout::Tiles, SelectionDirection::Up, columns)
                == (if index >= row {
                Some(index - row)
            } else {
                None
            })
        }),
{
}

} // verus!

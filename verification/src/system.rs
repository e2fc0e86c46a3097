//! What the browser makes of the desktop's tools: GNOME settings, GIO icon
//! names, icon theme folders, terminal commands, default applications and
//! mounted filesystems. The tools are run elsewhere; these functions decide
//! what to ask and read what they answered.
use vstd::prelude::*;
use crate::paths::{component_count_spec, has_several_components, join, join_spec};
use crate::text::{
    chars_of, extend_str, has_prefix, lines, lines_spec, lossy_utf8, split, split_spec,
    string_from_chars, string_from_utf8_lossy, strip_both, trim, trim_class, trim_spec, words,
    words_spec, CharClass,
};

verus! {

/// A value printed by `gsettings get`: the output trimmed, then stripped
/// of the quotes around a string.
pub open spec fn setting_value_spec(stdout: Seq<u8>) -> Seq<char> {
    strip_both(trim_spec(lossy_utf8(stdout)), CharClass::Exactly('\''))
}

/// Reads a value printed by `gsettings get`.
pub fn setting_value(stdout: &[u8]) -> (res: String)
    ensures
        res@ == setting_value_spec(stdout@),
{
    let text = string_from_utf8_lossy(stdout);
    let trimmed = trim(text.as_str());
    let chars = chars_of(trimmed.as_str());
    string_from_chars(&trim_class(&chars, CharClass::Exactly('\'')))
}

fn text(s: &str) -> (res: String)
    ensures
        res@ == s@,
{
    s.to_owned()
}

/// The icon themes offered: the bundled icons, and the desktop's icon
/// theme when GNOME reports one (`reported` is what `gsettings` printed,
/// if it succeeded).
pub fn available_icon_themes(reported: Option<Vec<u8>>) -> (res: Vec<String>)
    ensures
        match reported {
            Some(out) => {
                let theme = setting_value_spec(out@);
                if theme.len() > 0 && theme != "bundled"@ {
                    res.deep_view() == seq!["bundled"@, theme]
                } else {
                    res.deep_view() == seq!["bundled"@]
                }
            },
            None => res.deep_view() == seq!["bundled"@],
        },
{
    let mut themes: Vec<String> = Vec::new();
    themes.push(text("bundled"));
    match reported {
        Some(out) => {
            let theme = setting_value(out.as_slice());
            if !theme.as_str().is_empty() && !crate::text::str_equal(theme.as_str(), "bundled") {
                themes.push(theme);
            }
        },
        None => {},
    }
    assert(themes.deep_view() =~= match reported {
        Some(out) => {
            let theme = setting_value_spec(out@);
            if theme.len() > 0 && theme != "bundled"@ {
                seq!["bundled"@, theme]
            } else {
                seq!["bundled"@]
            }
        },
        None => seq!["bundled"@],
    });
    themes
}

/// GNOME's default terminal command, when `gsettings` reported a non-empty
/// one.
pub fn gnome_terminal_command(reported: Option<Vec<u8>>) -> (res: Option<String>)
    ensures
        match reported {
            Some(out) => if setting_value_spec(out@).len() > 0 {
                res matches Some(c) && c@ == setting_value_spec(out@)
            } else {
                res is None
            },
            None => res is None,
        },
{
    match reported {
        Some(out) => {
            let command = setting_value(out.as_slice());
            if !command.as_str().is_empty() {
                Some(command)
            } else {
                None
            }
        },
        None => None,
    }
}

/// The prefix of the line in which `gio info` lists icon names.
pub open spec fn icon_line_prefix() -> Seq<char> {
    "standard::icon:"@
}

/// The icon names listed on the first line that starts (after trimming)
/// with `standard::icon:`, among `lines` from `i` on.
pub open spec fn icon_line(lines: Seq<Seq<char>>, i: int) -> Option<Seq<char>>
    decreases lines.len() - i,
{
    if i < 0 || i >= lines.len() {
        None
    } else if has_prefix(trim_spec(lines[i]), icon_line_prefix()) {
        Some(trim_spec(lines[i]).subrange(icon_line_prefix().len() as int, trim_spec(lines[i]).len() as int))
    } else {
        icon_line(lines, i + 1)
    }
}

/// The non-empty trimmed pieces among `pieces`, in order.
pub open spec fn nonempty_trimmed(pieces: Seq<Seq<char>>) -> Seq<Seq<char>>
    decreases pieces.len(),
{
    if pieces.len() == 0 {
        Seq::empty()
    } else {
        let prev = nonempty_trimmed(pieces.drop_last());
        if trim_spec(pieces.last()).len() > 0 {
            prev.push(trim_spec(pieces.last()))
        } else {
            prev
        }
    }
}

/// The icon names `gio info -a standard::icon` printed for a file: the
/// comma-separated names of its icon line, most specific first.
pub open spec fn gio_icon_names_spec(success: bool, stdout: Seq<u8>) -> Seq<Seq<char>> {
    if !success {
        Seq::empty()
    } else {
        match icon_line(lines_spec(lossy_utf8(stdout)), 0) {
            Some(list) => nonempty_trimmed(split_spec(list, ',')),
            None => Seq::empty(),
        }
    }
}

fn nonempty_trimmed_of(pieces: &Vec<String>) -> (res: Vec<String>)
    ensures
        res.deep_view() == nonempty_trimmed(pieces.deep_view()),
{
    let ghost all = pieces.deep_view();
    let mut res: Vec<String> = Vec::new();
    let mut i: usize = 0;
    while i < pieces.len()
        invariant
            all == pieces.deep_view(),
            i <= all.len(),
            res.deep_view() == nonempty_trimmed(all.subrange(0, i as int)),
        decreases all.len() - i,
    {
        assert(all.subrange(0, i + 1).drop_last() =~= all.subrange(0, i as int));
        assert(all[i as int] == pieces@[i as int]@);
        let piece = trim(pieces[i].as_str());
        if !piece.as_str().is_empty() {
            let ghost before = res.deep_view();
            res.push(piece);
            assert(res.deep_view() =~= before.push(trim_spec(all[i as int])));
        }
        i = i + 1;
    }
    assert(all.subrange(0, all.len() as int) =~= all);
    res
}

/// Reads the icon names of a file from the output of `gio info`.
pub fn gio_icon_names(success: bool, stdout: &[u8]) -> (res: Vec<String>)
    ensures
        res.deep_view() == gio_icon_names_spec(success, stdout@),
{
    if !success {
        return Vec::new();
    }
    let output = string_from_utf8_lossy(stdout);
    let all = lines(output.as_str());
    let ghost lv = all.deep_view();
    let prefix = chars_of("standard::icon:");
    let mut i: usize = 0;
    while i < all.len()
        invariant
            success,
            lv == all.deep_view(),
            lv == lines_spec(lossy_utf8(stdout@)),
            prefix@ == icon_line_prefix(),
            i <= lv.len(),
            icon_line(lv, 0) == icon_line(lv, i as int),
        decreases lv.len() - i,
    {
        let line = trim(all[i].as_str());
        let line_chars = chars_of(line.as_str());
        assert(all@[i as int]@ == lv[i as int]);
        if crate::text::starts_with(&line_chars, &prefix) {
            let rest = crate::paths::slice_chars(&line_chars, prefix.len(), line_chars.len());
            let list = string_from_chars(&rest);
            let pieces = split(list.as_str(), ',');
            return nonempty_trimmed_of(&pieces);
        }
        i = i + 1;
    }
    Vec::new()
}

/// The folders where an icon theme may be installed: under the home
/// folder's Nix profile and local share folder, then the system's.
pub open spec fn icon_theme_directories_spec(theme: Seq<char>, home: Option<Seq<char>>) -> Seq<
    Seq<char>,
> {
    let system = seq![join_spec("/run/current-system/sw/share/icons"@, theme)];
    match home {
        Some(h) => seq![
            join_spec(join_spec(h, ".nix-profile/share/icons"@), theme),
            join_spec(join_spec(h, ".local/share/icons"@), theme),
        ] + system,
        None => system,
    }
}

/// The folders searched for an icon theme.
pub fn icon_theme_directories(theme: &str, home: Option<&str>) -> (res: Vec<String>)
    ensures
        res.deep_view() == icon_theme_directories_spec(
            theme@,
            match home {
                Some(h) => Some(h@),
                None => None,
            },
        ),
{
    let mut directories: Vec<String> = Vec::new();
    match home {
        Some(h) => {
            let nix = join(h, ".nix-profile/share/icons");
            directories.push(join(nix.as_str(), theme));
            let local = join(h, ".local/share/icons");
            directories.push(join(local.as_str(), theme));
        },
        None => {},
    }
    directories.push(join("/run/current-system/sw/share/icons", theme));
    assert(directories.deep_view() =~= icon_theme_directories_spec(
        theme@,
        match home {
            Some(h) => Some(h@),
            None => None,
        },
    ));
    directories
}

/// The icon sizes searched, largest first.
pub open spec fn icon_sizes() -> Seq<Seq<char>> {
    seq!["128x128"@, "96x96"@, "64x64"@, "48x48"@, "scalable"@]
}

/// The icon categories searched.
pub open spec fn icon_categories() -> Seq<Seq<char>> {
    seq!["mimetypes"@, "places"@, "actions"@, "status"@, "apps"@]
}

/// The file an icon of a size and category would be in.
pub open spec fn icon_file(root: Seq<char>, size: Seq<char>, category: Seq<char>, icon: Seq<char>) -> Seq<
    char,
> {
    join_spec(join_spec(join_spec(root, size), category), icon + ".svg"@)
}

pub open spec fn icon_files_in(root: Seq<char>, size: Seq<char>, icon: Seq<char>) -> Seq<Seq<char>> {
    icon_categories().map_values(|category: Seq<char>| icon_file(root, size, category, icon))
}

pub open spec fn icon_files_of_size(root: Seq<char>, size: Seq<char>, icons: Seq<Seq<char>>) -> Seq<
    Seq<char>,
> {
    icons.flat_map(|icon: Seq<char>| icon_files_in(root, size, icon))
}

pub open spec fn icon_files_under(root: Seq<char>, icons: Seq<Seq<char>>) -> Seq<Seq<char>> {
    icon_sizes().flat_map(|size: Seq<char>| icon_files_of_size(root, size, icons))
}

/// The files a themed icon is looked for in, in the order tried: for each
/// theme folder, each size from the largest, each of the file's icon names
/// and each category. The bundled theme has none.
pub open spec fn icon_candidates_spec(theme: Seq<char>, roots: Seq<Seq<char>>, icons: Seq<Seq<char>>) -> Seq<
    Seq<char>,
> {
    if theme == "bundled"@ {
        Seq::empty()
    } else {
        roots.flat_map(|root: Seq<char>| icon_files_under(root, icons))
    }
}

fn strings(values: Vec<&str>) -> (res: Vec<String>)
    ensures
        res@.len() == values@.len(),
        forall|i: int| 0 <= i < values@.len() ==> #[trigger] res@[i]@ == values@[i]@,
{
    let mut res: Vec<String> = Vec::new();
    let mut i: usize = 0;
    while i < values.len()
        invariant
            i <= values@.len(),
            res@.len() == i,
            forall|k: int| 0 <= k < i ==> #[trigger] res@[k]@ == values@[k]@,
        decreases values@.len() - i,
    {
        res.push(text(values[i]));
        i = i + 1;
    }
    res
}

fn icon_size_names() -> (res: Vec<String>)
    ensures
        res.deep_view() == icon_sizes(),
{
    let res = strings(vec!["128x128", "96x96", "64x64", "48x48", "scalable"]);
    assert(res.deep_view() =~= icon_sizes());
    res
}

fn icon_category_names() -> (res: Vec<String>)
    ensures
        res.deep_view() == icon_categories(),
{
    let res = strings(vec!["mimetypes", "places", "actions", "status", "apps"]);
    assert(res.deep_view() =~= icon_categories());
    res
}

fn push_all(out: &mut Vec<String>, items: Vec<String>)
    ensures
        final(out).deep_view() == old(out).deep_view() + items.deep_view(),
{
    let ghost start = out.deep_view();
    let ghost iv = items.deep_view();
    let mut rest = items;
    let mut i: usize = 0;
    let n = rest.len();
    while rest.len() > 0
        invariant
            iv.len() == n,
            i + rest@.len() == n,
            rest.deep_view() == iv.subrange(i as int, n as int),
            out.deep_view() == start + iv.subrange(0, i as int),
        decreases rest@.len(),
    {
        let ghost before = rest@;
        let ghost before_view = rest.deep_view();
        let item = rest.remove(0);
        assert(item@ == iv[i as int]) by {
            assert(before_view[0] == before[0]@);
        }
        let ghost out_before = out@;
        let ghost out_view = out.deep_view();
        out.push(item);
        assert(out.deep_view() =~= out_view.push(iv[i as int])) by {
            assert forall|k: int| 0 <= k < out@.len() implies out.deep_view()[k] == out_view.push(
                iv[i as int],
            )[k] by {
                if k < out_before.len() {
                    assert(out@[k] == out_before[k]);
                }
            }
        }
        assert(iv.subrange(0, i + 1) =~= iv.subrange(0, i as int).push(iv[i as int]));
        i = i + 1;
        assert(out.deep_view() =~= start + iv.subrange(0, i as int));
        assert(rest.deep_view() =~= iv.subrange(i as int, n as int)) by {
            assert forall|k: int| 0 <= k < rest@.len() implies rest.deep_view()[k] == iv.subrange(
                i as int,
                n as int,
            )[k] by {
                assert(rest@[k] == before[k + 1]);
                assert(before_view[k + 1] == before[k + 1]@);
            }
        }
    }
    assert(iv.subrange(0, n as int) =~= iv);
}

fn files_in(root: &str, size: &str, icon: &str, categories: &Vec<String>) -> (res: Vec<String>)
    requires
        categories.deep_view() == icon_categories(),
    ensures
        res.deep_view() == icon_files_in(root@, size@, icon@),
{
    let dir = join(root, size);
    let mut name: Vec<char> = chars_of(icon);
    extend_str(&mut name, ".svg");
    let file = string_from_chars(&name);
    let mut res: Vec<String> = Vec::new();
    let mut i: usize = 0;
    while i < categories.len()
        invariant
            categories.deep_view() == icon_categories(),
            dir@ == join_spec(root@, size@),
            file@ == icon@ + ".svg"@,
            i <= categories@.len(),
            res@.len() == i,
            forall|k: int|
                0 <= k < i ==> #[trigger] res@[k]@ == icon_file(
                    root@,
                    size@,
                    icon_categories()[k],
                    icon@,
                ),
        decreases categories@.len() - i,
    {
        assert(categories@[i as int]@ == icon_categories()[i as int]);
        let category_dir = join(dir.as_str(), categories[i].as_str());
        res.push(join(category_dir.as_str(), file.as_str()));
        i = i + 1;
    }
    assert(res.deep_view() =~= icon_files_in(root@, size@, icon@));
    res
}

fn files_of_size(root: &str, size: &str, icons: &Vec<String>, categories: &Vec<String>) -> (res: Vec<
    String,
>)
    requires
        categories.deep_view() == icon_categories(),
    ensures
        res.deep_view() == icon_files_of_size(root@, size@, icons.deep_view()),
{
    let ghost iv = icons.deep_view();
    let ghost f = |icon: Seq<char>| icon_files_in(root@, size@, icon);
    let mut res: Vec<String> = Vec::new();
    let mut i: usize = 0;
    while i < icons.len()
        invariant
            categories.deep_view() == icon_categories(),
            iv == icons.deep_view(),
            f == (|icon: Seq<char>| icon_files_in(root@, size@, icon)),
            i <= iv.len(),
            res.deep_view() == iv.subrange(0, i as int).map_values(f).flatten(),
        decreases iv.len() - i,
    {
        let files = files_in(root, size, icons[i].as_str(), categories);
        let ghost before = res.deep_view();
        assert(icons@[i as int]@ == iv[i as int]);
        push_all(&mut res, files);
        proof {
            let prefix = iv.subrange(0, i as int).map_values(f);
            prefix.lemma_flatten_push(f(iv[i as int]));
            assert(iv.subrange(0, i + 1).map_values(f) =~= prefix.push(f(iv[i as int])));
        }
        i = i + 1;
    }
    assert(iv.subrange(0, iv.len() as int) =~= iv);
    res
}

fn files_under(root: &str, icons: &Vec<String>, sizes: &Vec<String>, categories: &Vec<String>) -> (res: Vec<
    String,
>)
    requires
        categories.deep_view() == icon_categories(),
        sizes.deep_view() == icon_sizes(),
    ensures
        res.deep_view() == icon_files_under(root@, icons.deep_view()),
{
    let ghost sv = sizes.deep_view();
    let ghost f = |size: Seq<char>| icon_files_of_size(root@, size, icons.deep_view());
    let mut res: Vec<String> = Vec::new();
    let mut i: usize = 0;
    while i < sizes.len()
        invariant
            categories.deep_view() == icon_categories(),
            sv == sizes.deep_view(),
            sv == icon_sizes(),
            f == (|size: Seq<char>| icon_files_of_size(root@, size, icons.deep_view())),
            i <= sv.len(),
            res.deep_view() == sv.subrange(0, i as int).map_values(f).flatten(),
        decreases sv.len() - i,
    {
        let files = files_of_size(root, sizes[i].as_str(), icons, categories);
        assert(sizes@[i as int]@ == sv[i as int]);
        push_all(&mut res, files);
        proof {
            let prefix = sv.subrange(0, i as int).map_values(f);
            prefix.lemma_flatten_push(f(sv[i as int]));
            assert(sv.subrange(0, i + 1).map_values(f) =~= prefix.push(f(sv[i as int])));
        }
        i = i + 1;
    }
    assert(sv.subrange(0, sv.len() as int) =~= sv);
    res
}

/// The files a themed icon for a file with the given icon names is looked
/// for in, in the order tried.
pub fn icon_candidates(theme: &str, roots: &Vec<String>, icons: &Vec<String>) -> (res: Vec<String>)
    ensures
        res.deep_view() == icon_candidates_spec(theme@, roots.deep_view(), icons.deep_view()),
{
    if crate::text::str_equal(theme, "bundled") {
        return Vec::new();
    }
    let sizes = icon_size_names();
    let categories = icon_category_names();
    let ghost rv = roots.deep_view();
    let ghost f = |root: Seq<char>| icon_files_under(root, icons.deep_view());
    let mut res: Vec<String> = Vec::new();
    let mut i: usize = 0;
    while i < roots.len()
        invariant
            categories.deep_view() == icon_categories(),
            sizes.deep_view() == icon_sizes(),
            rv == roots.deep_view(),
            f == (|root: Seq<char>| icon_files_under(root, icons.deep_view())),
            i <= rv.len(),
            res.deep_view() == rv.subrange(0, i as int).map_values(f).flatten(),
        decreases rv.len() - i,
    {
        let files = files_under(roots[i].as_str(), icons, &sizes, &categories);
        assert(roots@[i as int]@ == rv[i as int]);
        push_all(&mut res, files);
        proof {
            let prefix = rv.subrange(0, i as int).map_values(f);
            prefix.lemma_flatten_push(f(rv[i as int]));
            assert(rv.subrange(0, i + 1).map_values(f) =~= prefix.push(f(rv[i as int])));
        }
        i = i + 1;
    }
    assert(rv.subrange(0, rv.len() as int) =~= rv);
    res
}

/// The terminals suggested when installed, in the order offered.
pub open spec fn recommended_terminals() -> Seq<Seq<char>> {
    seq![
        "gnome-terminal"@,
        "konsole"@,
        "xfce4-terminal"@,
        "mate-terminal"@,
        "lxterminal"@,
        "kitty"@,
        "alacritty"@,
        "wezterm"@,
        "foot"@,
        "urxvt"@,
        "xterm"@,
        "tilix"@,
    ]
}

fn recommended_terminal_names() -> (res: Vec<String>)
    ensures
        res.deep_view() == recommended_terminals(),
{
    let res = strings(
        vec![
            "gnome-terminal",
            "konsole",
            "xfce4-terminal",
            "mate-terminal",
            "lxterminal",
            "kitty",
            "alacritty",
            "wezterm",
            "foot",
            "urxvt",
            "xterm",
            "tilix",
        ],
    );
    assert(res.deep_view() =~= recommended_terminals());
    res
}

/// The names joined by single spaces.
pub open spec fn space_joined(names: Seq<Seq<char>>) -> Seq<char>
    decreases names.len(),
{
    if names.len() == 0 {
        Seq::empty()
    } else if names.len() == 1 {
        names[0]
    } else {
        space_joined(names.drop_last()) + " "@ + names.last()
    }
}

/// The shell script that prints the path of each installed recommended
/// terminal.
pub open spec fn terminal_search_script_spec() -> Seq<char> {
    "for app in "@ + space_joined(recommended_terminals())
        + "; do command -v \"$app\" 2>/dev/null; done"@
}

/// The shell script that lists the installed recommended terminals.
pub fn terminal_search_script() -> (res: String)
    ensures
        res@ == terminal_search_script_spec(),
{
    let names = recommended_terminal_names();
    let ghost nv = names.deep_view();
    let mut script: Vec<char> = chars_of("for app in ");
    let ghost start = script@;
    let mut i: usize = 0;
    while i < names.len()
        invariant
            nv == names.deep_view(),
            i <= nv.len(),
            start == "for app in "@,
            script@ == start + space_joined(nv.subrange(0, i as int)),
        decreases nv.len() - i,
    {
        let ghost before = script@;
        assert(names@[i as int]@ == nv[i as int]);
        assert(nv.subrange(0, i + 1).drop_last() =~= nv.subrange(0, i as int));
        if i > 0 {
            extend_str(&mut script, " ");
        }
        extend_str(&mut script, names[i].as_str());
        proof {
            if i == 0 {
                assert(nv.subrange(0, 1)[0] == nv[0]);
                assert(script@ =~= start + space_joined(nv.subrange(0, 1)));
            } else {
                assert(script@ =~= start + space_joined(nv.subrange(0, i + 1)));
            }
        }
        i = i + 1;
    }
    assert(nv.subrange(0, nv.len() as int) =~= nv);
    extend_str(&mut script, "; do command -v \"$app\" 2>/dev/null; done");
    string_from_chars(&script)
}

/// The installed recommended terminals: one path per line the search
/// script printed.
pub fn installed_terminals(stdout: &[u8]) -> (res: Vec<String>)
    ensures
        res.deep_view() == lines_spec(lossy_utf8(stdout@)),
{
    let output = string_from_utf8_lossy(stdout);
    lines(output.as_str())
}

/// How a terminal is chosen: the configured command, or the first
/// available of several.
#[derive(Debug, Clone, PartialEq, Eq)]
pub enum TerminalPlan {
    Configured(String),
    FirstAvailable(Vec<String>),
}

pub enum TerminalPlanView {
    Configured(Seq<char>),
    FirstAvailable(Seq<Seq<char>>),
}

impl DeepView for TerminalPlan {
    type V = TerminalPlanView;

    open spec fn deep_view(&self) -> TerminalPlanView {
        match self {
            TerminalPlan::Configured(c) => TerminalPlanView::Configured(c@),
            TerminalPlan::FirstAvailable(cs) => TerminalPlanView::FirstAvailable(cs.deep_view()),
        }
    }
}

/// The terminal commands tried when none is configured: GNOME's default,
/// the desktop's terminal launchers, then the recommended terminals.
pub open spec fn fallback_terminals(gnome_default: Option<Seq<char>>) -> Seq<Seq<char>> {
    let rest = seq!["xdg-terminal-exec"@, "x-terminal-emulator"@] + recommended_terminals();
    match gnome_default {
        Some(c) => seq![c] + rest,
        None => rest,
    }
}

/// A configured terminal command (trimmed) is used as it is unless it is
/// empty or `default`; otherwise the fallbacks are tried in order.
pub open spec fn terminal_plan_spec(configured: Seq<char>, gnome_default: Option<Seq<char>>) -> TerminalPlanView {
    let command = trim_spec(configured);
    if command.len() > 0 && command != "default"@ {
        TerminalPlanView::Configured(command)
    } else {
        TerminalPlanView::FirstAvailable(fallback_terminals(gnome_default))
    }
}

/// Chooses how a terminal is opened.
pub fn terminal_plan(configured: &str, gnome_default: Option<String>) -> (res: TerminalPlan)
    ensures
        res.deep_view() == terminal_plan_spec(configured@, gnome_default.deep_view()),
{
    let command = trim(configured);
    if !command.as_str().is_empty() && !crate::text::str_equal(command.as_str(), "default") {
        return TerminalPlan::Configured(command);
    }
    let mut candidates: Vec<String> = Vec::new();
    match gnome_default {
        Some(c) => candidates.push(c),
        None => {},
    }
    let ghost first = candidates.deep_view();
    candidates.push(text("xdg-terminal-exec"));
    candidates.push(text("x-terminal-emulator"));
    let ghost launchers = candidates.deep_view();
    assert(launchers =~= first + seq!["xdg-terminal-exec"@, "x-terminal-emulator"@]);
    push_all(&mut candidates, recommended_terminal_names());
    assert(candidates.deep_view() =~= fallback_terminals(gnome_default.deep_view()));
    TerminalPlan::FirstAvailable(candidates)
}

/// How to tell whether a terminal command can run.
#[derive(Debug, Clone, PartialEq, Eq)]
pub enum TerminalCheck {
    /// The command names no program.
    Unavailable,
    /// The program is this file.
    File(String),
    /// The program is whichever of these files exists.
    AnyFile(Vec<String>),
}

pub enum TerminalCheckView {
    Unavailable,
    File(Seq<char>),
    AnyFile(Seq<Seq<char>>),
}

impl DeepView for TerminalCheck {
    type V = TerminalCheckView;

    open spec fn deep_view(&self) -> TerminalCheckView {
        match self {
            TerminalCheck::Unavailable => TerminalCheckView::Unavailable,
            TerminalCheck::File(f) => TerminalCheckView::File(f@),
            TerminalCheck::AnyFile(fs) => TerminalCheckView::AnyFile(fs.deep_view()),
        }
    }
}

/// A terminal command runs if its program (its first word) exists: as
/// the path given when that has several components, else in one of the
/// folders of the search path (`PATH`, if set).
pub open spec fn terminal_check_spec(command: Seq<char>, search_path: Option<Seq<char>>) -> TerminalCheckView {
    let ws = words_spec(command);
    if ws.len() == 0 {
        TerminalCheckView::Unavailable
    } else if component_count_spec(ws[0]) > 1 {
        TerminalCheckView::File(ws[0])
    } else {
        match search_path {
            Some(p) => TerminalCheckView::AnyFile(
                split_spec(p, ':').map_values(|dir: Seq<char>| join_spec(dir, ws[0])),
            ),
            None => TerminalCheckView::Unavailable,
        }
    }
}

/// What to look for to tell whether a terminal command can run.
pub fn terminal_check(command: &str, search_path: Option<&str>) -> (res: TerminalCheck)
    ensures
        res.deep_view() == terminal_check_spec(
            command@,
            match search_path {
                Some(p) => Some(p@),
                None => None,
            },
        ),
{
    let ws = words(command);
    if ws.len() == 0 {
        return TerminalCheck::Unavailable;
    }
    let program = ws[0].as_str();
    assert(ws@[0]@ == words_spec(command@)[0]);
    if has_several_components(program) {
        return TerminalCheck::File(text(program));
    }
    match search_path {
        Some(p) => {
            let dirs = split(p, ':');
            let ghost dv = dirs.deep_view();
            let mut files: Vec<String> = Vec::new();
            let mut i: usize = 0;
            while i < dirs.len()
                invariant
                    dv == dirs.deep_view(),
                    program@ == words_spec(command@)[0],
                    i <= dv.len(),
                    files@.len() == i,
                    forall|k: int| 0 <= k < i ==> #[trigger] files@[k]@ == join_spec(dv[k], program@),
                decreases dv.len() - i,
            {
                assert(dirs@[i as int]@ == dv[i as int]);
                files.push(join(dirs[i].as_str(), program));
                i = i + 1;
            }
            assert(files.deep_view() =~= dv.map_values(|dir: Seq<char>| join_spec(dir, program@)));
            TerminalCheck::AnyFile(files)
        },
        None => TerminalCheck::Unavailable,
    }
}

/// The message given when no terminal can be opened in a folder.
pub fn no_terminal_message(path: &str) -> (res: String)
    ensures
        res@ == "No supported terminal command is available for "@ + path@,
{
    let mut message = chars_of("No supported terminal command is available for ");
    extend_str(&mut message, path);
    string_from_chars(&message)
}

fn message_with(prefix: &str, subject: &str) -> (res: String)
    ensures
        res@ == prefix@ + subject@,
{
    let mut message = chars_of(prefix);
    extend_str(&mut message, subject);
    string_from_chars(&message)
}

/// The MIME type `file --mime-type -b` reported for a path: its trimmed
/// output, or the error to show.
pub fn mime_type_from(path: &str, success: bool, stdout: &[u8]) -> (res: Result<String, String>)
    ensures
        !success ==> (res matches Err(e) && e@ == "Could not determine the type of "@ + path@),
        success && trim_spec(lossy_utf8(stdout@)).len() == 0 ==> (res matches Err(e) && e@
            == "No MIME type was returned for "@ + path@),
        success && trim_spec(lossy_utf8(stdout@)).len() > 0 ==> (res matches Ok(m) && m@
            == trim_spec(lossy_utf8(stdout@))),
{
    if !success {
        return Err(message_with("Could not determine the type of ", path));
    }
    let output = string_from_utf8_lossy(stdout);
    let mime = trim(output.as_str());
    if mime.as_str().is_empty() {
        Err(message_with("No MIME type was returned for ", path))
    } else {
        Ok(mime)
    }
}

/// The default application `xdg-mime query default` reported for a MIME
/// type: its trimmed output, or the error to show.
pub fn default_application_from(mime: &str, success: bool, stdout: &[u8]) -> (res: Result<
    String,
    String,
>)
    ensures
        !success ==> (res matches Err(e) && e@ == "Could not find an application for "@ + mime@),
        success && trim_spec(lossy_utf8(stdout@)).len() == 0 ==> (res matches Err(e) && e@
            == "No default application is configured for "@ + mime@),
        success && trim_spec(lossy_utf8(stdout@)).len() > 0 ==> (res matches Ok(a) && a@
            == trim_spec(lossy_utf8(stdout@))),
{
    if !success {
        return Err(message_with("Could not find an application for ", mime));
    }
    let output = string_from_utf8_lossy(stdout);
    let application = trim(output.as_str());
    if application.as_str().is_empty() {
        Err(message_with("No default application is configured for ", mime))
    } else {
        Ok(application)
    }
}

/// The arguments of the `find` command that prints the `Name=` of an
/// application's desktop entry, searching the user's, the Nix profile's and
/// the system's application folders.
pub open spec fn desktop_entry_search_spec(home: Seq<char>, user: Seq<char>, application: Seq<char>) -> Seq<
    Seq<char>,
> {
    seq![
        join_spec(home, ".local/share/applications"@),
        join_spec(home, ".nix-profile/share/applications"@),
        join_spec(join_spec("/etc/profiles/per-user"@, user), "share/applications"@),
        "/run/current-system/sw/share/applications"@,
        "-name"@,
        application,
        "-exec"@,
        "awk"@,
        "-F="@,
        "/^Name=/{print substr($0,6); exit}"@,
        "{}"@,
        ";"@,
        "-quit"@,
    ]
}

/// The arguments that look up the display name of an application.
pub fn desktop_entry_search(home: &str, user: &str, application: &str) -> (res: Vec<String>)
    ensures
        res.deep_view() == desktop_entry_search_spec(home@, user@, application@),
{
    let mut args: Vec<String> = Vec::new();
    args.push(join(home, ".local/share/applications"));
    args.push(join(home, ".nix-profile/share/applications"));
    let per_user = join("/etc/profiles/per-user", user);
    args.push(join(per_user.as_str(), "share/applications"));
    args.push(text("/run/current-system/sw/share/applications"));
    args.push(text("-name"));
    args.push(text(application));
    args.push(text("-exec"));
    args.push(text("awk"));
    args.push(text("-F="));
    args.push(text("/^Name=/{print substr($0,6); exit}"));
    args.push(text("{}"));
    args.push(text(";"));
    args.push(text("-quit"));
    assert(args.deep_view() =~= desktop_entry_search_spec(home@, user@, application@));
    args
}

/// The name shown for an application: the name its desktop entry gave
/// (the search's trimmed output), or else the application as reported.
pub fn application_display_name(application: String, search_output: Option<Vec<u8>>) -> (res: String)
    ensures
        match search_output {
            Some(out) => if trim_spec(lossy_utf8(out@)).len() > 0 {
                res@ == trim_spec(lossy_utf8(out@))
            } else {
                res@ == application@
            },
            None => res@ == application@,
        },
{
    match search_output {
        Some(out) => {
            let output = string_from_utf8_lossy(out.as_slice());
            let name = trim(output.as_str());
            if name.as_str().is_empty() {
                application
            } else {
                name
            }
        },
        None => application,
    }
}

/// The message given when `xdg-open` failed to open a path.
pub fn open_failed_message(path: &str) -> (res: String)
    ensures
        res@ == "xdg-open could not open "@ + path@,
{
    message_with("xdg-open could not open ", path)
}

/// A mounted filesystem.
#[derive(Debug, Clone, PartialEq, Eq)]
pub struct SystemMount {
    pub path: String,
    pub filesystem: String,
}

pub struct SystemMountView {
    pub path: Seq<char>,
    pub filesystem: Seq<char>,
}

impl DeepView for SystemMount {
    type V = SystemMountView;

    open spec fn deep_view(&self) -> SystemMountView {
        SystemMountView { path: self.path@, filesystem: self.filesystem@ }
    }
}

/// A mount point as `/proc/self/mountinfo` writes it, with the octal
/// escapes for space, tab, newline and backslash undone in that order.
pub open spec fn unescape_mount_path_spec(path: Seq<char>) -> Seq<char> {
    let spaces = crate::text::replace_from(path, "\\040"@, " "@, 0);
    let tabs = crate::text::replace_from(spaces, "\\011"@, "\t"@, 0);
    let newlines = crate::text::replace_from(tabs, "\\012"@, "\n"@, 0);
    crate::text::replace_from(newlines, "\\134"@, "\\"@, 0)
}

/// Undoes the escapes of a mount point.
pub fn unescape_mount_path(path: &str) -> (res: String)
    ensures
        res@ == unescape_mount_path_spec(path@),
{
    proof {
        reveal_strlit("\\040");
        reveal_strlit("\\011");
        reveal_strlit("\\012");
        reveal_strlit("\\134");
    }
    let spaces = crate::text::replace(path, "\\040", " ");
    let tabs = crate::text::replace(spaces.as_str(), "\\011", "\t");
    let newlines = crate::text::replace(tabs.as_str(), "\\012", "\n");
    crate::text::replace(newlines.as_str(), "\\134", "\\")
}

/// The filesystem type of remote folders mounted with rclone.
pub open spec fn rclone_filesystem() -> Seq<char> {
    "fuse.rclone"@
}

/// The rclone mount a line of `/proc/self/mountinfo` describes, if any:
/// the mount point is the fifth field before the ` - ` separator, the
/// filesystem type the first after it, and a source must follow.
pub open spec fn remote_mount_of_line(line: Seq<char>) -> Option<SystemMountView> {
    match crate::text::split_once_spec(line, " - "@) {
        None => None,
        Some((left, right)) => {
            let fields = words_spec(left);
            let rest = words_spec(right);
            if fields.len() < 5 || rest.len() < 2 || rest[0] != rclone_filesystem() {
                None
            } else {
                Some(SystemMountView { path: unescape_mount_path_spec(fields[4]), filesystem: rest[0] })
            }
        },
    }
}

/// The rclone mounts among lines of `/proc/self/mountinfo`, in order.
pub open spec fn remote_mounts_in(lines: Seq<Seq<char>>) -> Seq<SystemMountView>
    decreases lines.len(),
{
    if lines.len() == 0 {
        Seq::empty()
    } else {
        let prev = remote_mounts_in(lines.drop_last());
        match remote_mount_of_line(lines.last()) {
            Some(m) => prev.push(m),
            None => prev,
        }
    }
}

fn remote_mount_of(line: &str) -> (res: Option<SystemMount>)
    ensures
        res.deep_view() == remote_mount_of_line(line@),
{
    match crate::text::split_once(line, " - ") {
        None => None,
        Some((left, right)) => {
            let fields = words(left.as_str());
            let rest = words(right.as_str());
            if fields.len() < 5 || rest.len() < 2 {
                return None;
            }
            assert(rest@[0]@ == words_spec(right@)[0]);
            assert(fields@[4]@ == words_spec(left@)[4]);
            if !crate::text::str_equal(rest[0].as_str(), "fuse.rclone") {
                return None;
            }
            Some(
                SystemMount {
                    path: unescape_mount_path(fields[4].as_str()),
                    filesystem: text(rest[0].as_str()),
                },
            )
        },
    }
}

/// The remote (rclone) mounts listed in `/proc/self/mountinfo`.
pub fn remote_mounts(mountinfo: &str) -> (res: Vec<SystemMount>)
    ensures
        res.deep_view() == remote_mounts_in(lines_spec(mountinfo@)),
{
    let all = lines(mountinfo);
    let ghost lv = all.deep_view();
    let mut mounts: Vec<SystemMount> = Vec::new();
    let mut i: usize = 0;
    while i < all.len()
        invariant
            lv == all.deep_view(),
            i <= lv.len(),
            mounts.deep_view() == remote_mounts_in(lv.subrange(0, i as int)),
        decreases lv.len() - i,
    {
        assert(lv.subrange(0, i + 1).drop_last() =~= lv.subrange(0, i as int));
        assert(all@[i as int]@ == lv[i as int]);
        match remote_mount_of(all[i].as_str()) {
            Some(m) => {
                let ghost before = mounts.deep_view();
                mounts.push(m);
                assert(mounts.deep_view() =~= before.push(
                    remote_mount_of_line(lv[i as int]).unwrap(),
                ));
            },
            None => {},
        }
        i = i + 1;
    }
    assert(lv.subrange(0, lv.len() as int) =~= lv);
    mounts
}

/// A block device as `lsblk --json --output NAME,PATH,LABEL,MOUNTPOINTS,TYPE`
/// describes it, with the devices it contains (its partitions).
#[derive(Debug)]
pub struct BlockDevice {
    pub name: String,
    pub path: Option<String>,
    pub label: Option<String>,
    pub mountpoints: Vec<Option<String>>,
    pub children: Vec<BlockDevice>,
    pub device_type: String,
}

/// A drive the sidebar offers: a partition, or a disk without partitions.
#[derive(Debug, Clone, PartialEq, Eq)]
pub struct Drive {
    pub path: String,
    pub name: String,
    pub mount_points: Vec<String>,
}

pub struct DriveView {
    pub path: Seq<char>,
    pub name: Seq<char>,
    pub mount_points: Seq<Seq<char>>,
}

impl DeepView for Drive {
    type V = DriveView;

    open spec fn deep_view(&self) -> DriveView {
        DriveView { path: self.path@, name: self.name@, mount_points: self.mount_points.deep_view() }
    }
}

/// The mount points that are given, in order.
pub open spec fn present_mount_points(points: Seq<Option<String>>) -> Seq<Seq<char>>
    decreases points.len(),
{
    if points.len() == 0 {
        Seq::empty()
    } else {
        let prev = present_mount_points(points.drop_last());
        match points.last() {
            Some(p) => prev.push(p@),
            None => prev,
        }
    }
}

/// Whether a device is a drive: a partition, or a disk without children.
pub open spec fn is_volume(d: BlockDevice) -> bool {
    d.device_type@ == "part"@ || (d.device_type@ == "disk"@ && d.children@.len() == 0)
}

/// The drive a device is, if it is a volume with a path: named by its
/// label, else by its device name.
pub open spec fn drive_of(d: BlockDevice) -> Option<DriveView> {
    if is_volume(d) && d.path is Some {
        Some(
            DriveView {
                path: d.path.unwrap()@,
                name: match d.label {
                    Some(l) => l@,
                    None => d.name@,
                },
                mount_points: present_mount_points(d.mountpoints@),
            },
        )
    } else {
        None
    }
}

/// The drives of a device and its descendants, the device before its
/// children.
pub open spec fn drives_of(d: BlockDevice) -> Seq<DriveView>
    decreases d, 1int,
{
    let own = match drive_of(d) {
        Some(v) => seq![v],
        None => Seq::empty(),
    };
    own + drives_of_all(d.children@)
}

/// The drives of devices in order.
pub open spec fn drives_of_all(ds: Seq<BlockDevice>) -> Seq<DriveView>
    decreases ds, 0int,
{
    if ds.len() == 0 {
        Seq::empty()
    } else {
        drives_of_all(ds.subrange(0, ds.len() - 1)) + drives_of(ds[ds.len() - 1])
    }
}

fn present_points(points: &Vec<Option<String>>) -> (res: Vec<String>)
    ensures
        res.deep_view() == present_mount_points(points@),
{
    let mut res: Vec<String> = Vec::new();
    let mut i: usize = 0;
    while i < points.len()
        invariant
            i <= points@.len(),
            res.deep_view() == present_mount_points(points@.subrange(0, i as int)),
        decreases points@.len() - i,
    {
        assert(points@.subrange(0, i + 1).drop_last() =~= points@.subrange(0, i as int));
        match &points[i] {
            Some(p) => {
                let ghost before = res.deep_view();
                res.push(text(p.as_str()));
                assert(res.deep_view() =~= before.push(p@));
            },
            None => {},
        }
        i = i + 1;
    }
    assert(points@.subrange(0, points@.len() as int) =~= points@);
    res
}

fn push_drive(drives: &mut Vec<Drive>, drive: Drive)
    ensures
        final(drives).deep_view() == old(drives).deep_view().push(drive.deep_view()),
{
    let ghost before = drives@;
    let ghost before_view = drives.deep_view();
    let ghost dv = drive.deep_view();
    drives.push(drive);
    assert forall|k: int| 0 <= k < drives@.len() implies drives.deep_view()[k] == before_view.push(
        dv,
    )[k] by {
        if k < before.len() {
            assert(drives@[k] == before[k]);
        }
    }
    assert(drives.deep_view() =~= before_view.push(dv));
}

/// Adds the drives of a device and its descendants, the device first.
pub fn collect_drives(device: &BlockDevice, drives: &mut Vec<Drive>)
    ensures
        final(drives).deep_view() == old(drives).deep_view() + drives_of(*device),
    decreases device,
{
    let ghost start = drives.deep_view();
    let is_part = crate::text::str_equal(device.device_type.as_str(), "part");
    let is_disk = crate::text::str_equal(device.device_type.as_str(), "disk");
    if is_part || (is_disk && device.children.len() == 0) {
        match &device.path {
            Some(path) => {
                let name = match &device.label {
                    Some(label) => text(label.as_str()),
                    None => text(device.name.as_str()),
                };
                push_drive(
                    drives,
                    Drive {
                        path: text(path.as_str()),
                        name,
                        mount_points: present_points(&device.mountpoints),
                    },
                );
            },
            None => {},
        }
    }
    let ghost own = drives.deep_view();
    assert(own == start + match drive_of(*device) {
        Some(v) => seq![v],
        None => Seq::<DriveView>::empty(),
    });
    let ghost cv = device.children@;
    let mut i: usize = 0;
    while i < device.children.len()
        invariant
            cv == device.children@,
            i <= cv.len(),
            drives.deep_view() == own + drives_of_all(cv.subrange(0, i as int)),
        decreases cv.len() - i,
    {
        assert(decreases_to!(*device => device.children@[i as int]));
        collect_drives(&device.children[i], drives);
        assert(cv.subrange(0, i + 1).subrange(0, i as int) =~= cv.subrange(0, i as int));
        assert(cv.subrange(0, i + 1)[i as int] == cv[i as int]);
        i = i + 1;
    }
    assert(cv.subrange(0, cv.len() as int) =~= cv);
}

/// The drives of all devices `lsblk` listed.
pub fn drives_of_devices(devices: &Vec<BlockDevice>) -> (res: Vec<Drive>)
    ensures
        res.deep_view() == drives_of_all(devices@),
{
    let ghost dv = devices@;
    let mut drives: Vec<Drive> = Vec::new();
    let mut i: usize = 0;
    while i < devices.len()
        invariant
            dv == devices@,
            i <= dv.len(),
            drives.deep_view() == drives_of_all(dv.subrange(0, i as int)),
        decreases dv.len() - i,
    {
        collect_drives(&devices[i], &mut drives);
        assert(dv.subrange(0, i + 1).subrange(0, i as int) =~= dv.subrange(0, i as int));
        assert(dv.subrange(0, i + 1)[i as int] == dv[i as int]);
        i = i + 1;
    }
    assert(dv.subrange(0, dv.len() as int) =~= dv);
    drives
}

/// The mounts of the drives, each marked as a block filesystem.
pub open spec fn block_mounts(drives: Seq<DriveView>) -> Seq<SystemMountView> {
    drives.flat_map(
        |d: DriveView|
            d.mount_points.map_values(
                |p: Seq<char>| SystemMountView { path: p, filesystem: "block"@ },
            ),
    )
}

/// The key mounts are ordered by: their path, component by component.
pub open spec fn mount_key(m: SystemMountView) -> (u8, Seq<char>) {
    (0, crate::paths::path_key_spec(m.path))
}

/// The mounts without those that repeat the path of the mount kept just
/// before them (`Vec::dedup_by` on the path).
pub open spec fn dedup_mounts(s: Seq<SystemMountView>) -> Seq<SystemMountView>
    decreases s.len(),
{
    if s.len() == 0 {
        Seq::empty()
    } else {
        let prev = dedup_mounts(s.drop_last());
        if prev.len() > 0 && crate::paths::same_path(prev.last().path, s.last().path) {
            prev
        } else {
            prev.push(s.last())
        }
    }
}

fn push_mount(mounts: &mut Vec<SystemMount>, mount: SystemMount)
    ensures
        final(mounts).deep_view() == old(mounts).deep_view().push(mount.deep_view()),
{
    let ghost before = mounts@;
    let ghost before_view = mounts.deep_view();
    let ghost mv = mount.deep_view();
    mounts.push(mount);
    assert forall|k: int| 0 <= k < mounts@.len() implies mounts.deep_view()[k] == before_view.push(
        mv,
    )[k] by {
        if k < before.len() {
            assert(mounts@[k] == before[k]);
        }
    }
    assert(mounts.deep_view() =~= before_view.push(mv));
}

fn drive_mounts(drives: &Vec<Drive>) -> (res: Vec<SystemMount>)
    ensures
        res.deep_view() == block_mounts(drives.deep_view()),
{
    let ghost dv = drives.deep_view();
    let ghost f = |d: DriveView|
        d.mount_points.map_values(|p: Seq<char>| SystemMountView { path: p, filesystem: "block"@ });
    let mut mounts: Vec<SystemMount> = Vec::new();
    let mut i: usize = 0;
    while i < drives.len()
        invariant
            dv == drives.deep_view(),
            f == (|d: DriveView|
                d.mount_points.map_values(
                    |p: Seq<char>| SystemMountView { path: p, filesystem: "block"@ },
                )),
            i <= dv.len(),
            mounts.deep_view() == dv.subrange(0, i as int).map_values(f).flatten(),
        decreases dv.len() - i,
    {
        let points = &drives[i].mount_points;
        assert(drives@[i as int].deep_view() == dv[i as int]);
        let ghost start = mounts.deep_view();
        let mut j: usize = 0;
        while j < points.len()
            invariant
                i < dv.len(),
                f == (|d: DriveView|
                    d.mount_points.map_values(
                        |p: Seq<char>| SystemMountView { path: p, filesystem: "block"@ },
                    )),
                start == dv.subrange(0, i as int).map_values(f).flatten(),
                points.deep_view() == dv[i as int].mount_points,
                j <= points@.len(),
                mounts.deep_view() == start + f(dv[i as int]).subrange(0, j as int),
            decreases points@.len() - j,
        {
            assert(points@[j as int]@ == dv[i as int].mount_points[j as int]);
            push_mount(&mut mounts, SystemMount { path: text(points[j].as_str()), filesystem: text("block") });
            assert(f(dv[i as int]).subrange(0, j + 1) =~= f(dv[i as int]).subrange(0, j as int).push(
                f(dv[i as int])[j as int],
            ));
            j = j + 1;
        }
        assert(f(dv[i as int]).subrange(0, j as int) =~= f(dv[i as int]));
        proof {
            let prefix = dv.subrange(0, i as int).map_values(f);
            prefix.lemma_flatten_push(f(dv[i as int]));
            assert(dv.subrange(0, i + 1).map_values(f) =~= prefix.push(f(dv[i as int])));
        }
        i = i + 1;
    }
    assert(dv.subrange(0, dv.len() as int) =~= dv);
    mounts
}

/// All mounts: the drives' mount points and the remote mounts, ordered by
/// path (equal paths keeping their order) with repeated paths dropped.
pub open spec fn is_mount_list(res: Seq<SystemMountView>, drives: Seq<DriveView>, remote: Seq<SystemMountView>) -> bool {
    let all = block_mounts(drives) + remote;
    exists|sorted: Seq<SystemMountView>|
        {
            &&& crate::sorting::is_stable_sort_of(
                sorted,
                all,
                all.map_values(|m: SystemMountView| mount_key(m)),
                false,
            )
            &&& res == dedup_mounts(sorted)
        }
}

/// The mounts in an order where no mount's path sorts before that of a
/// mount ahead of it.
pub open spec fn mounts_in_path_order(s: Seq<SystemMountView>) -> bool {
    forall|a: int, b: int|
        0 <= a < b < s.len() ==> !crate::text::text_less(
            crate::paths::path_key_spec(#[trigger] s[b].path),
            crate::paths::path_key_spec(#[trigger] s[a].path),
        )
}

proof fn lemma_dedup_mounts_increasing(s: Seq<SystemMountView>)
    requires
        mounts_in_path_order(s),
    ensures
        forall|i: int, j: int|
            0 <= i < j < dedup_mounts(s).len() ==> crate::text::text_less(
                crate::paths::path_key_spec(#[trigger] dedup_mounts(s)[i].path),
                crate::paths::path_key_spec(#[trigger] dedup_mounts(s)[j].path),
            ),
        forall|i: int| 0 <= i < dedup_mounts(s).len() ==> s.contains(#[trigger] dedup_mounts(s)[i]),
    decreases s.len(),
{
    if s.len() > 0 {
        let init = s.drop_last();
        assert(mounts_in_path_order(init)) by {
            assert forall|a: int, b: int| 0 <= a < b < init.len() implies !crate::text::text_less(
                crate::paths::path_key_spec(#[trigger] init[b].path),
                crate::paths::path_key_spec(#[trigger] init[a].path),
            ) by {
                assert(init[a] == s[a] && init[b] == s[b]);
            }
        }
        lemma_dedup_mounts_increasing(init);
        let prev = dedup_mounts(init);
        let r = dedup_mounts(s);
        let last = s.last();
        let key = |m: SystemMountView| crate::paths::path_key_spec(m.path);
        if !(prev.len() > 0 && crate::paths::same_path(prev.last().path, last.path)) {
            if prev.len() > 0 {
                let p = prev.last();
                assert(prev[prev.len() - 1] == p);
                assert(init.contains(p));
                let k = choose|k: int| 0 <= k < init.len() && init[k] == p;
                assert(s[k] == p);
                assert(!crate::text::text_less(key(s[s.len() - 1]), key(s[k])));
                crate::text::lemma_text_less_total(key(p), key(last));
                assert(crate::text::text_less(key(p), key(last)));
                assert forall|i: int, j: int| 0 <= i < j < r.len() implies crate::text::text_less(
                    crate::paths::path_key_spec(#[trigger] r[i].path),
                    crate::paths::path_key_spec(#[trigger] r[j].path),
                ) by {
                    if j == r.len() - 1 {
                        assert(r[j] == last);
                        if i < prev.len() - 1 {
                            assert(r[i] == prev[i]);
                            assert(crate::text::text_less(key(prev[i]), key(prev[prev.len() - 1])));
                            crate::text::lemma_text_less_transitive(key(prev[i]), key(p), key(last));
                        } else {
                            assert(r[i] == p);
                        }
                    } else {
                        assert(r[i] == prev[i] && r[j] == prev[j]);
                    }
                }
            }
            assert forall|i: int| 0 <= i < r.len() implies s.contains(#[trigger] r[i]) by {
                if i < prev.len() {
                    assert(r[i] == prev[i]);
                    let k = choose|k: int| 0 <= k < init.len() && init[k] == prev[i];
                    assert(s[k] == r[i]);
                } else {
                    assert(s[s.len() - 1] == r[i]);
                }
            }
        } else {
            assert forall|i: int| 0 <= i < r.len() implies s.contains(#[trigger] r[i]) by {
                let k = choose|k: int| 0 <= k < init.len() && init[k] == prev[i];
                assert(s[k] == r[i]);
            }
        }
    }
}

/// The mounts listed have different paths: sorting brings mounts with the
/// same path together, and of those only the first is kept.
pub proof fn lemma_mount_list_distinct(
    res: Seq<SystemMountView>,
    drives: Seq<DriveView>,
    remote: Seq<SystemMountView>,
)
    requires
        is_mount_list(res, drives, remote),
    ensures
        forall|i: int, j: int|
            0 <= i < j < res.len() ==> !crate::paths::same_path(#[trigger] res[i].path, #[trigger] res[j].path),
{
    let all = block_mounts(drives) + remote;
    let keys = all.map_values(|m: SystemMountView| mount_key(m));
    let sorted = choose|sorted: Seq<SystemMountView>|
        {
            &&& crate::sorting::is_stable_sort_of(sorted, all, keys, false)
            &&& res == dedup_mounts(sorted)
        };
    let perm = choose|perm: Seq<int>|
        {
            &&& crate::sorting::is_stable_order(perm, keys, false)
            &&& sorted.len() == perm.len()
            &&& forall|a: int| 0 <= a < sorted.len() ==> #[trigger] sorted[a] == all[perm[a]]
        };
    assert(mounts_in_path_order(sorted)) by {
        assert forall|a: int, b: int| 0 <= a < b < sorted.len() implies !crate::text::text_less(
            crate::paths::path_key_spec(#[trigger] sorted[b].path),
            crate::paths::path_key_spec(#[trigger] sorted[a].path),
        ) by {
            crate::sorting::lemma_stable_order_sorted(perm, keys, false, a, b);
            assert(sorted[a] == all[perm[a]] && sorted[b] == all[perm[b]]);
            assert(keys[perm[a]] == mount_key(sorted[a]));
            assert(keys[perm[b]] == mount_key(sorted[b]));
        }
    }
    lemma_dedup_mounts_increasing(sorted);
    assert forall|i: int, j: int| 0 <= i < j < res.len() implies !crate::paths::same_path(
        #[trigger] res[i].path,
        #[trigger] res[j].path,
    ) by {
        assert(crate::text::text_less(
            crate::paths::path_key_spec(res[i].path),
            crate::paths::path_key_spec(res[j].path),
        ));
        crate::text::lemma_text_less_irreflexive(crate::paths::path_key_spec(res[i].path));
    }
}

/// The mounts the sidebar lists.
pub fn mount_list(drives: &Vec<Drive>, remote: Vec<SystemMount>) -> (res: Vec<SystemMount>)
    ensures
        is_mount_list(res.deep_view(), drives.deep_view(), remote.deep_view()),
{
    let mut all = drive_mounts(drives);
    let ghost block = all.deep_view();
    let mut rest = remote;
    let ghost rv = rest.deep_view();
    let mut r: usize = 0;
    let rn = rest.len();
    while rest.len() > 0
        invariant
            rv.len() == rn,
            r + rest@.len() == rn,
            rest.deep_view() == rv.subrange(r as int, rn as int),
            all.deep_view() == block + rv.subrange(0, r as int),
        decreases rest@.len(),
    {
        let ghost before = rest@;
        let ghost before_view = rest.deep_view();
        let m = rest.remove(0);
        assert(m.deep_view() == rv[r as int]) by {
            assert(before_view[0] == before[0].deep_view());
        }
        push_mount(&mut all, m);
        assert(rv.subrange(0, r + 1) =~= rv.subrange(0, r as int).push(rv[r as int]));
        r = r + 1;
        assert(rest.deep_view() =~= rv.subrange(r as int, rn as int)) by {
            assert forall|k: int| 0 <= k < rest@.len() implies rest.deep_view()[k] == rv.subrange(
                r as int,
                rn as int,
            )[k] by {
                assert(rest@[k] == before[k + 1]);
                assert(before_view[k + 1] == before[k + 1].deep_view());
            }
        }
        assert(all.deep_view() =~= block + rv.subrange(0, r as int));
    }
    assert(rv.subrange(0, rn as int) =~= rv);
    let ghost av = all.deep_view();
    let mut keys: Vec<crate::sorting::SortKey> = Vec::new();
    let mut i: usize = 0;
    while i < all.len()
        invariant
            av == all.deep_view(),
            i <= av.len(),
            keys@.len() == i,
            forall|k: int| 0 <= k < i ==> #[trigger] keys@[k].deep_view() == mount_key(av[k]),
        decreases av.len() - i,
    {
        assert(all@[i as int].deep_view() == av[i as int]);
        keys.push(crate::sorting::SortKey { rank: 0, text: crate::paths::path_key(all[i].path.as_str()) });
        i = i + 1;
    }
    assert(keys.deep_view() =~= av.map_values(|m: SystemMountView| mount_key(m)));
    let ghost items = all@;
    let sorted = crate::sorting::stable_sort(all, &keys, false);
    proof {
        crate::sorting::lemma_stable_sort_map(
            sorted@,
            items,
            keys.deep_view(),
            false,
            |m: SystemMount| m.deep_view(),
        );
        assert(items.map_values(|m: SystemMount| m.deep_view()) =~= av);
    }
    let ghost sv = sorted@.map_values(|m: SystemMount| m.deep_view());
    let mut res: Vec<SystemMount> = Vec::new();
    let mut last_key: Vec<char> = Vec::new();
    let mut rest = sorted;
    let n = rest.len();
    let mut j: usize = 0;
    while rest.len() > 0
        invariant
            sv.len() == n,
            j + rest@.len() == n,
            rest@.map_values(|m: SystemMount| m.deep_view()) == sv.subrange(j as int, n as int),
            res.deep_view() == dedup_mounts(sv.subrange(0, j as int)),
            res@.len() > 0 ==> last_key@ == crate::paths::path_key_spec(res.deep_view().last().path),
        decreases rest@.len(),
    {
        let ghost before = rest@;
        let m = rest.remove(0);
        assert(m.deep_view() == sv[j as int]) by {
            assert(before.map_values(|m: SystemMount| m.deep_view())[0] == before[0].deep_view());
        }
        assert(sv.subrange(0, j + 1).drop_last() =~= sv.subrange(0, j as int));
        let key = crate::paths::path_key(m.path.as_str());
        let repeated = res.len() > 0 && crate::text::chars_equal(&last_key, &key);
        if !repeated {
            push_mount(&mut res, m);
            last_key = key;
        }
        j = j + 1;
        assert(rest@.map_values(|m: SystemMount| m.deep_view()) =~= sv.subrange(j as int, n as int)) by {
            assert forall|k: int| 0 <= k < rest@.len() implies rest@.map_values(
                |m: SystemMount| m.deep_view(),
            )[k] == sv.subrange(j as int, n as int)[k] by {
                assert(rest@[k] == before[k + 1]);
                assert(before.map_values(|m: SystemMount| m.deep_view())[k + 1] == before[k + 1].deep_view());
            }
        }
    }
    assert(sv.subrange(0, n as int) =~= sv);
    res
}

/// The drives and mounts the sidebar lists.
#[derive(Debug, Clone, PartialEq, Eq)]
pub struct MountState {
    pub drives: Vec<Drive>,
    pub mounts: Vec<SystemMount>,
}

} // verus!

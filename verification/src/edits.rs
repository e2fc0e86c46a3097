//! The changes the preferences page makes to the settings of the active
//! profile: which context-menu and toolbar actions are shown and in what
//! order, the theme, and the browser settings.
use vstd::prelude::*;
use crate::config::{
    BrowserLayout, BrowserSettings, BrowserSettingsView, ContextMenuBlurKernelSize, ContextMenuItem,
    EntrySortOrder, QuickToolbarItem, ThemeSettings, ThemeSettingsView,
};
use crate::preferences::{hex_color_sliceable, hex_color_spec, parse_hex_color};

verus! {

/// An action that the settings list, compared by value.
pub trait ActionItem: Copy + Sized {
    fn same_as(&self, other: &Self) -> (res: bool)
        ensures
            res == (*self == *other),
    ;
}

impl ActionItem for ContextMenuItem {
    fn same_as(&self, other: &Self) -> (res: bool) {
        *self == *other
    }
}

impl ActionItem for QuickToolbarItem {
    fn same_as(&self, other: &Self) -> (res: bool) {
        *self == *other
    }
}

/// `items` without any occurrence of `item`, the others in their order.
pub open spec fn without_item<T>(items: Seq<T>, item: T) -> Seq<T>
    decreases items.len(),
{
    if items.len() == 0 {
        items
    } else {
        let rest = without_item(items.drop_last(), item);
        if items.last() == item {
            rest
        } else {
            rest.push(items.last())
        }
    }
}

/// The actions after one was switched on (added at the end, unless it is
/// shown already) or off (removed).
pub open spec fn toggled_spec<T>(items: Seq<T>, item: T, enabled: bool) -> Seq<T> {
    if enabled {
        if items.contains(item) {
            items
        } else {
            items.push(item)
        }
    } else {
        without_item(items, item)
    }
}

/// The first position of `item` in `items`, or -1.
pub open spec fn first_index<T>(items: Seq<T>, item: T) -> int
    decreases items.len(),
{
    if items.len() == 0 {
        -1
    } else {
        let before = first_index(items.drop_last(), item);
        if before >= 0 {
            before
        } else if items.last() == item {
            items.len() - 1
        } else {
            -1
        }
    }
}

proof fn lemma_first_index<T>(items: Seq<T>, item: T)
    ensures
        -1 <= first_index(items, item) < items.len(),
        first_index(items, item) >= 0 ==> items[first_index(items, item)] == item,
        forall|k: int|
            0 <= k < items.len() && (first_index(items, item) < 0 || k < first_index(items, item))
                ==> #[trigger] items[k] != item,
    decreases items.len(),
{
    if items.len() > 0 {
        lemma_first_index(items.drop_last(), item);
        assert forall|k: int|
            0 <= k < items.len() && (first_index(items, item) < 0 || k < first_index(
                items,
                item,
            )) implies #[trigger] items[k] != item by {
            if k < items.len() - 1 {
                assert(items[k] == items.drop_last()[k]);
            }
        }
    }
}

/// The actions after one was moved a place up or down; `None` when it is
/// not shown, or is first and moves up, or last and moves down.
pub open spec fn moved_item_spec<T>(items: Seq<T>, item: T, up: bool) -> Option<Seq<T>> {
    let i = first_index(items, item);
    let target = if up {
        i - 1
    } else {
        i + 1
    };
    if i >= 0 && 0 <= target < items.len() {
        Some(items.update(i, items[target]).update(target, items[i]))
    } else {
        None
    }
}

proof fn lemma_without_item_contains<T>(items: Seq<T>, item: T, x: T)
    ensures
        without_item(items, item).contains(x) <==> (items.contains(x) && x != item),
    decreases items.len(),
{
    if items.len() > 0 {
        let rest = items.drop_last();
        lemma_without_item_contains(rest, item, x);
        if items.contains(x) && x != item {
            let k = choose|k: int| 0 <= k < items.len() && items[k] == x;
            if k < items.len() - 1 {
                assert(rest[k] == x);
            }
        }
        if rest.contains(x) {
            let k = choose|k: int| 0 <= k < rest.len() && rest[k] == x;
            assert(items[k] == x);
        }
        if items.last() != item {
            assert(without_item(items, item) == without_item(rest, item).push(items.last()));
            if without_item(items, item).contains(x) {
                let k = choose|k: int|
                    0 <= k < without_item(items, item).len() && without_item(items, item)[k] == x;
                if k < without_item(rest, item).len() {
                    assert(without_item(rest, item)[k] == x);
                }
            }
            if x == items.last() {
                assert(without_item(items, item)[without_item(rest, item).len() as int] == x);
            }
            if without_item(rest, item).contains(x) {
                let k = choose|k: int|
                    0 <= k < without_item(rest, item).len() && without_item(rest, item)[k] == x;
                assert(without_item(items, item)[k] == x);
            }
        }
    }
}

/// Switching an action on shows it and switching it off hides it; the
/// other actions stay shown or hidden as they were.
pub proof fn lemma_toggle_shows_or_hides<T>(items: Seq<T>, item: T, enabled: bool, other: T)
    requires
        other != item,
    ensures
        toggled_spec(items, item, enabled).contains(item) == enabled,
        toggled_spec(items, item, enabled).contains(other) == items.contains(other),
{
    lemma_without_item_contains(items, item, item);
    lemma_without_item_contains(items, item, other);
    if enabled && !items.contains(item) {
        assert(items.push(item)[items.len() as int] == item);
        if items.contains(other) {
            let k = choose|k: int| 0 <= k < items.len() && items[k] == other;
            assert(items.push(item)[k] == other);
        }
        if items.push(item).contains(other) {
            let k = choose|k: int| 0 <= k < items.len() + 1 && items.push(item)[k] == other;
            assert(items[k] == other);
        }
    }
}

/// Moving an action up and then down again gives back the order it had.
pub proof fn lemma_move_up_then_down<T>(items: Seq<T>, item: T)
    requires
        moved_item_spec(items, item, true) is Some,
    ensures
        moved_item_spec(moved_item_spec(items, item, true).unwrap(), item, false) == Some(items),
{
    lemma_first_index(items, item);
    let i = first_index(items, item);
    let up = moved_item_spec(items, item, true).unwrap();
    lemma_first_index(up, item);
    assert(up[i - 1] == item);
    let j = first_index(up, item);
    assert(j == i - 1) by {
        if j < 0 || i - 1 < j {
            assert(up[i - 1] != item);
        }
        if 0 <= j < i - 1 {
            assert(up[j] == items[j]);
            assert(items[j] != item);
        }
    }
    assert(moved_item_spec(up, item, false).unwrap() =~= items);
}

/// Switches an action on or off.
pub fn toggled_items<T: ActionItem>(items: Vec<T>, item: T, enabled: bool) -> (res: Vec<T>)
    ensures
        res@ == toggled_spec(items@, item, enabled),
{
    if enabled {
        let mut i: usize = 0;
        while i < items.len()
            invariant
                enabled,
                i <= items@.len(),
                forall|k: int| 0 <= k < i ==> #[trigger] items@[k] != item,
            decreases items@.len() - i,
        {
            if items[i].same_as(&item) {
                assert(items@[i as int] == item);
                assert(items@.contains(item));
                return items;
            }
            i = i + 1;
        }
        assert(!items@.contains(item));
        let mut items = items;
        items.push(item);
        items
    } else {
        let mut res: Vec<T> = Vec::new();
        let mut i: usize = 0;
        while i < items.len()
            invariant
                i <= items@.len(),
                res@ == without_item(items@.subrange(0, i as int), item),
            decreases items@.len() - i,
        {
            assert(items@.subrange(0, i + 1).drop_last() =~= items@.subrange(0, i as int));
            if !items[i].same_as(&item) {
                res.push(items[i]);
            }
            i = i + 1;
        }
        assert(items@.subrange(0, items@.len() as int) =~= items@);
        res
    }
}

/// Moves an action a place up or down, if it can move.
pub fn moved_item<T: ActionItem>(items: Vec<T>, item: T, up: bool) -> (res: Option<Vec<T>>)
    ensures
        match moved_item_spec(items@, item, up) {
            Some(s) => res matches Some(v) && v@ == s,
            None => res is None,
        },
{
    proof {
        lemma_first_index(items@, item);
    }
    let mut i: usize = 0;
    while i < items.len()
        invariant
            i <= items@.len(),
            forall|k: int| 0 <= k < i ==> #[trigger] items@[k] != item,
        decreases items@.len() - i,
    {
        if items[i].same_as(&item) {
            assert(first_index(items@, item) == i) by {
                lemma_first_index(items@, item);
                assert(items@[i as int] == item);
                let f = first_index(items@, item);
                if f >= 0 && f < i {
                    assert(items@[f] != item);
                }
            }
            let target = if up {
                if i == 0 {
                    return None;
                }
                i - 1
            } else {
                if i + 1 >= items.len() {
                    return None;
                }
                i + 1
            };
            let mut items = items;
            let moving = items[i];
            let other = items[target];
            items.set(i, other);
            items.set(target, moving);
            return Some(items);
        }
        i = i + 1;
    }
    assert(first_index(items@, item) < 0) by {
        if first_index(items@, item) >= 0 {
            assert(items@[first_index(items@, item)] == item);
        }
    }
    None
}

/// A change to the theme settings.
#[derive(Debug, Clone, PartialEq, Eq)]
pub enum ThemeEdit {
    LightAccent(String),
    DarkAccent(String),
    BackgroundOpacity(u8),
    ContextMenuBlurStrength(u8),
    ContextMenuBlurKernelSize(ContextMenuBlurKernelSize),
    BorderRadius(u8),
}

pub open spec fn accent_error() -> Seq<char> {
    "Accent color must be a hex color, for example #4f7cac"@
}

/// Whether an accent colour in the edit can be read without slicing a
/// character apart.
pub open spec fn theme_edit_readable(edit: ThemeEdit) -> bool {
    match edit {
        ThemeEdit::LightAccent(v) => hex_color_sliceable(v@),
        ThemeEdit::DarkAccent(v) => hex_color_sliceable(v@),
        _ => true,
    }
}

/// The theme after an edit: an accent must be a `#rrggbb` colour, the blur
/// strength is capped at 5 and the border radius at 8.
pub open spec fn edited_theme_spec(theme: ThemeSettingsView, edit: ThemeEdit) -> Result<
    ThemeSettingsView,
    Seq<char>,
> {
    match edit {
        ThemeEdit::LightAccent(v) => if hex_color_spec(v@) is Some {
            Ok(ThemeSettingsView { light_highlight: v@, ..theme })
        } else {
            Err(accent_error())
        },
        ThemeEdit::DarkAccent(v) => if hex_color_spec(v@) is Some {
            Ok(ThemeSettingsView { dark_highlight: v@, ..theme })
        } else {
            Err(accent_error())
        },
        ThemeEdit::BackgroundOpacity(o) => Ok(ThemeSettingsView { background_opacity: o, ..theme }),
        ThemeEdit::ContextMenuBlurStrength(strength) => Ok(
            ThemeSettingsView {
                context_menu_blur_strength: if strength < 5 {
                    strength
                } else {
                    5
                },
                ..theme
            },
        ),
        ThemeEdit::ContextMenuBlurKernelSize(k) => Ok(
            ThemeSettingsView { context_menu_blur_kernel_size: k, ..theme },
        ),
        ThemeEdit::BorderRadius(r) => Ok(
            ThemeSettingsView {
                border_radius: if r < 8 {
                    r
                } else {
                    8
                },
                ..theme
            },
        ),
    }
}

/// Applies an edit to the theme settings, or says why it cannot be saved.
pub fn edited_theme(theme: ThemeSettings, edit: ThemeEdit) -> (res: Result<ThemeSettings, String>)
    requires
        theme_edit_readable(edit),
    ensures
        match edited_theme_spec(theme.deep_view(), edit) {
            Ok(t) => res matches Ok(r) && r.deep_view() == t,
            Err(e) => res matches Err(m) && m@ == e,
        },
{
    let mut theme = theme;
    match edit {
        ThemeEdit::LightAccent(v) => {
            if parse_hex_color(v.as_str()).is_none() {
                return Err("Accent color must be a hex color, for example #4f7cac".to_owned());
            }
            theme.light_highlight = v;
        },
        ThemeEdit::DarkAccent(v) => {
            if parse_hex_color(v.as_str()).is_none() {
                return Err("Accent color must be a hex color, for example #4f7cac".to_owned());
            }
            theme.dark_highlight = v;
        },
        ThemeEdit::BackgroundOpacity(o) => {
            theme.background_opacity = o;
        },
        ThemeEdit::ContextMenuBlurStrength(strength) => {
            theme.context_menu_blur_strength = if strength < 5 {
                strength
            } else {
                5
            };
        },
        ThemeEdit::ContextMenuBlurKernelSize(k) => {
            theme.context_menu_blur_kernel_size = k;
        },
        ThemeEdit::BorderRadius(r) => {
            theme.border_radius = if r < 8 {
                r
            } else {
                8
            };
        },
    }
    Ok(theme)
}

/// A change to the browser settings.
#[derive(Debug, Clone, PartialEq, Eq)]
pub enum BrowserEdit {
    Layout(BrowserLayout),
    ItemSize(u16),
    Preview(bool),
    ToggleHiddenFiles,
    SingleClickFolders(bool),
    TerminalCommand(String),
    /// One of the terminal choices offered.
    TerminalChoice(String),
    IconTheme(String),
    ThumbnailLocation(String),
    SidebarWidth(u16),
    SortOrder(EntrySortOrder),
    ContextMenuItemToggled { item: ContextMenuItem, is_directory: bool, enabled: bool },
    MoveContextMenuItem { item: ContextMenuItem, is_directory: bool, move_up: bool },
    QuickToolbarItemToggled { item: QuickToolbarItem, enabled: bool },
    MoveQuickToolbarItem { item: QuickToolbarItem, move_up: bool },
}

/// The terminal command a choice selects: `default` for the system
/// default; for a custom command, the configured one unless it is the
/// default or a recommended one (then an empty command to fill in); else
/// the recommended command chosen.
pub open spec fn chosen_terminal_spec(
    choice: Seq<char>,
    current: Seq<char>,
    recommendations: Seq<Seq<char>>,
) -> Seq<char> {
    if choice == "System default"@ {
        "default"@
    } else if choice == "Custom command"@ {
        if current == "default"@ || recommendations.contains(current) {
            Seq::empty()
        } else {
            current
        }
    } else {
        choice
    }
}

/// The browser settings after an edit; `None` when there is nothing to
/// save, because an action cannot move.
pub open spec fn edited_browser_spec(
    b: BrowserSettingsView,
    edit: BrowserEdit,
    recommendations: Seq<Seq<char>>,
) -> Option<BrowserSettingsView> {
    match edit {
        BrowserEdit::Layout(l) => Some(BrowserSettingsView { layout: l, ..b }),
        BrowserEdit::ItemSize(n) => Some(BrowserSettingsView { item_size: n, ..b }),
        BrowserEdit::Preview(on) => Some(BrowserSettingsView { preview_enabled: on, ..b }),
        BrowserEdit::ToggleHiddenFiles => Some(
            BrowserSettingsView { show_hidden_files: !b.show_hidden_files, ..b },
        ),
        BrowserEdit::SingleClickFolders(on) => Some(
            BrowserSettingsView { single_click_opens_folders: on, ..b },
        ),
        BrowserEdit::TerminalCommand(c) => Some(BrowserSettingsView { terminal_command: c@, ..b }),
        BrowserEdit::TerminalChoice(c) => Some(
            BrowserSettingsView {
                terminal_command: chosen_terminal_spec(c@, b.terminal_command, recommendations),
                ..b
            },
        ),
        BrowserEdit::IconTheme(t) => Some(BrowserSettingsView { icon_theme: t@, ..b }),
        BrowserEdit::ThumbnailLocation(p) => Some(
            BrowserSettingsView { thumbnail_location: p@, ..b },
        ),
        BrowserEdit::SidebarWidth(w) => Some(BrowserSettingsView { sidebar_width: w, ..b }),
        BrowserEdit::SortOrder(o) => Some(BrowserSettingsView { sort_order: o, ..b }),
        BrowserEdit::ContextMenuItemToggled { item, is_directory, enabled } => if is_directory {
            Some(
                BrowserSettingsView {
                    folder_context_menu_items: toggled_spec(
                        b.folder_context_menu_items,
                        item,
                        enabled,
                    ),
                    ..b
                },
            )
        } else {
            Some(
                BrowserSettingsView {
                    file_context_menu_items: toggled_spec(b.file_context_menu_items, item, enabled),
                    ..b
                },
            )
        },
        BrowserEdit::MoveContextMenuItem { item, is_directory, move_up } => if is_directory {
            match moved_item_spec(b.folder_context_menu_items, item, move_up) {
                Some(items) => Some(BrowserSettingsView { folder_context_menu_items: items, ..b }),
                None => None,
            }
        } else {
            match moved_item_spec(b.file_context_menu_items, item, move_up) {
                Some(items) => Some(BrowserSettingsView { file_context_menu_items: items, ..b }),
                None => None,
            }
        },
        BrowserEdit::QuickToolbarItemToggled { item, enabled } => Some(
            BrowserSettingsView {
                quick_toolbar_items: toggled_spec(b.quick_toolbar_items, item, enabled),
                ..b
            },
        ),
        BrowserEdit::MoveQuickToolbarItem { item, move_up } => match moved_item_spec(
            b.quick_toolbar_items,
            item,
            move_up,
        ) {
            Some(items) => Some(BrowserSettingsView { quick_toolbar_items: items, ..b }),
            None => None,
        },
    }
}

/// The terminal command a choice selects.
pub fn chosen_terminal(choice: String, current: String, recommendations: &Vec<String>) -> (res: String)
    ensures
        res@ == chosen_terminal_spec(choice@, current@, recommendations.deep_view()),
{
    if crate::text::str_equal(choice.as_str(), "System default") {
        "default".to_owned()
    } else if crate::text::str_equal(choice.as_str(), "Custom command") {
        if crate::text::str_equal(current.as_str(), "default") || crate::paths::contains_path(
            recommendations,
            current.as_str(),
        ) {
            String::new()
        } else {
            current
        }
    } else {
        choice
    }
}

/// Applies an edit to the browser settings; `None` when there is nothing
/// to save.
pub fn edited_browser(browser: BrowserSettings, edit: BrowserEdit, recommendations: &Vec<String>) -> (res:
    Option<BrowserSettings>)
    ensures
        match edited_browser_spec(browser.deep_view(), edit, recommendations.deep_view()) {
            Some(b) => res matches Some(r) && r.deep_view() == b,
            None => res is None,
        },
{
    let mut b = browser;
    match edit {
        BrowserEdit::Layout(l) => {
            b.layout = l;
        },
        BrowserEdit::ItemSize(n) => {
            b.item_size = n;
        },
        BrowserEdit::Preview(on) => {
            b.preview_enabled = on;
        },
        BrowserEdit::ToggleHiddenFiles => {
            b.show_hidden_files = !b.show_hidden_files;
        },
        BrowserEdit::SingleClickFolders(on) => {
            b.single_click_opens_folders = on;
        },
        BrowserEdit::TerminalCommand(c) => {
            b.terminal_command = c;
        },
        BrowserEdit::TerminalChoice(c) => {
            let mut current = String::new();
            std::mem::swap(&mut current, &mut b.terminal_command);
            b.terminal_command = chosen_terminal(c, current, recommendations);
        },
        BrowserEdit::IconTheme(t) => {
            b.icon_theme = t;
        },
        BrowserEdit::ThumbnailLocation(p) => {
            b.thumbnail_location = p;
        },
        BrowserEdit::SidebarWidth(w) => {
            b.sidebar_width = w;
        },
        BrowserEdit::SortOrder(o) => {
            b.sort_order = o;
        },
        BrowserEdit::ContextMenuItemToggled { item, is_directory, enabled } => {
            let mut items: Vec<ContextMenuItem> = Vec::new();
            if is_directory {
                std::mem::swap(&mut items, &mut b.folder_context_menu_items);
                b.folder_context_menu_items = toggled_items(items, item, enabled);
            } else {
                std::mem::swap(&mut items, &mut b.file_context_menu_items);
                b.file_context_menu_items = toggled_items(items, item, enabled);
            }
        },
        BrowserEdit::MoveContextMenuItem { item, is_directory, move_up } => {
            let mut items: Vec<ContextMenuItem> = Vec::new();
            if is_directory {
                std::mem::swap(&mut items, &mut b.folder_context_menu_items);
                match moved_item(items, item, move_up) {
                    Some(moved) => {
                        b.folder_context_menu_items = moved;
                    },
                    None => {
                        return None;
                    },
                }
            } else {
                std::mem::swap(&mut items, &mut b.file_context_menu_items);
                match moved_item(items, item, move_up) {
                    Some(moved) => {
                        b.file_context_menu_items = moved;
                    },
                    None => {
                        return None;
                    },
                }
            }
        },
        BrowserEdit::QuickToolbarItemToggled { item, enabled } => {
            let mut items: Vec<QuickToolbarItem> = Vec::new();
            std::mem::swap(&mut items, &mut b.quick_toolbar_items);
            b.quick_toolbar_items = toggled_items(items, item, enabled);
        },
        BrowserEdit::MoveQuickToolbarItem { item, move_up } => {
            let mut items: Vec<QuickToolbarItem> = Vec::new();
            std::mem::swap(&mut items, &mut b.quick_toolbar_items);
            match moved_item(items, item, move_up) {
                Some(moved) => {
                    b.quick_toolbar_items = moved;
                },
                None => {
                    return None;
                },
            }
        },
    }
    Some(b)
}

} // verus!
